use vstd::prelude::*;

use crate::field::Field;
use crate::native_types::Witness;

verus! {

/// `q_c + Σ a·w + Σ b·w·w'` over the field.
#[derive(Clone, Debug, PartialEq, Eq)]
pub struct Expression<F> {
    pub mul_terms: Vec<(F, Witness, Witness)>,
    pub linear_combinations: Vec<(F, Witness)>,
    pub q_c: F,
}

impl<F: Field> Expression<F> {
    /// The constant expression `c`.
    pub fn from_constant(c: F) -> (r: Self)
        ensures
            r.mul_terms@.len() == 0,
            r.linear_combinations@.len() == 0,
            r.q_c == c,
    {
        Expression { mul_terms: Vec::new(), linear_combinations: Vec::new(), q_c: c }
    }

    /// The expression `1·w`.
    pub fn from_witness(w: Witness) -> (r: Self)
        ensures
            r.mul_terms@.len() == 0,
            r.linear_combinations@ == seq![(F::one_spec(), w)],
            r.q_c == F::zero_spec(),
    {
        Expression { mul_terms: Vec::new(), linear_combinations: vec![(F::one(), w)], q_c: F::zero() }
    }

    pub fn is_const(&self) -> (r: bool)
        ensures
            r == (self.mul_terms@.len() == 0 && self.linear_combinations@.len() == 0),
    {
        self.mul_terms.len() == 0 && self.linear_combinations.len() == 0
    }

    /// The constant, when the expression has no terms.
    pub fn to_const(&self) -> (r: Option<F>)
        ensures
            r == (if self.mul_terms@.len() == 0 && self.linear_combinations@.len() == 0 {
                Some(self.q_c)
            } else {
                None
            }),
    {
        if self.is_const() {
            Some(self.q_c)
        } else {
            None
        }
    }
}

} // verus!
