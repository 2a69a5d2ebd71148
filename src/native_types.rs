use std::collections::BTreeMap;
use vstd::prelude::*;

use crate::field::Field;

verus! {

broadcast use vstd::laws_cmp::group_laws_cmp;

/// Identifier of a circuit variable.
#[derive(Clone, Copy, Debug, PartialEq, Eq, Structural, Hash)]
pub struct Witness(pub u32);

/// A partial assignment of field values to witnesses.
#[derive(Clone, Debug, PartialEq, Eq)]
pub struct WitnessMap<F> {
    map: BTreeMap<u32, F>,
}

impl<F> View for WitnessMap<F> {
    type V = Map<u32, F>;

    closed spec fn view(&self) -> Map<u32, F> {
        self.map@
    }
}

impl<F: Field> WitnessMap<F> {
    pub fn new() -> (r: Self)
        ensures
            r@ == Map::<u32, F>::empty(),
    {
        WitnessMap { map: BTreeMap::new() }
    }

    pub fn get(&self, witness: &Witness) -> (r: Option<F>)
        ensures
            r == (if self@.contains_key(witness.0) {
                Some(self@[witness.0])
            } else {
                None
            }),
    {
        match self.map.get(&witness.0) {
            Some(v) => Some(*v),
            None => None,
        }
    }

    /// Sets `witness` to `value` whatever it held before, returning the old value.
    pub fn insert(&mut self, witness: Witness, value: F) -> (r: Option<F>)
        ensures
            final(self)@ == old(self)@.insert(witness.0, value),
            r == (if old(self)@.contains_key(witness.0) {
                Some(old(self)@[witness.0])
            } else {
                None
            }),
    {
        self.map.insert(witness.0, value)
    }

    /// A copy of the map.
    pub fn copy(&self) -> (r: Self)
        ensures
            r@ == self@,
    {
        WitnessMap { map: self.map.clone() }
    }

    pub fn contains(&self, witness: &Witness) -> (r: bool)
        ensures
            r == self@.contains_key(witness.0),
    {
        self.map.contains_key(&witness.0)
    }
}

} // verus!
