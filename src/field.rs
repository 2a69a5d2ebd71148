use vstd::prelude::*;

verus! {

/// The finite-field capability that the witness generator is generic over.
///
/// The spec functions name the field's operations; each executable method
/// is tied to its spec function, so contracts elsewhere in the crate speak
/// exactly of the values an implementation computes. Every proof about the
/// machine holds for an implementation that meets these contracts; an
/// implementation outside verified code is trusted to meet them.
pub trait Field: Sized + Copy + std::fmt::Debug + PartialEq + Eq {
    spec fn zero_spec() -> Self;

    spec fn one_spec() -> Self;

    spec fn add_spec(a: Self, b: Self) -> Self;

    spec fn mul_spec(a: Self, b: Self) -> Self;

    spec fn neg_spec(a: Self) -> Self;

    spec fn div_spec(a: Self, b: Self) -> Self;

    spec fn num_bits_spec(a: Self) -> u32;

    /// The decimal rendering of the value.
    spec fn decimal_spec(a: Self) -> String;

    /// The value as a `u32`, when it is one.
    spec fn to_u32_spec(a: Self) -> Option<u32>;

    fn zero() -> (r: Self)
        ensures
            r == Self::zero_spec(),
    ;

    fn one() -> (r: Self)
        ensures
            r == Self::one_spec(),
    ;

    fn add(&self, other: &Self) -> (r: Self)
        ensures
            r == Self::add_spec(*self, *other),
    ;

    fn mul(&self, other: &Self) -> (r: Self)
        ensures
            r == Self::mul_spec(*self, *other),
    ;

    fn neg(&self) -> (r: Self)
        ensures
            r == Self::neg_spec(*self),
    ;

    fn div(&self, other: &Self) -> (r: Self)
        requires
            *other != Self::zero_spec(),
        ensures
            r == Self::div_spec(*self, *other),
    ;

    /// Equality of field elements; elements have one representation each.
    fn equals(&self, other: &Self) -> (r: bool)
        ensures
            r == (*self == *other),
    ;

    fn is_zero(&self) -> (r: bool)
        ensures
            r == (*self == Self::zero_spec()),
    ;

    fn is_one(&self) -> (r: bool)
        ensures
            r == (*self == Self::one_spec()),
    ;

    fn num_bits(&self) -> (r: u32)
        ensures
            r == Self::num_bits_spec(*self),
    ;

    fn try_to_u32(&self) -> (r: Option<u32>)
        ensures
            r == Self::to_u32_spec(*self),
    ;

    /// Decimal rendering, used in diagnostics.
    fn to_decimal_string(&self) -> (r: String)
        ensures
            r == Self::decimal_spec(*self),
    ;
}

} // verus!
