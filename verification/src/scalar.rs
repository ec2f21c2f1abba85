//! The numbers a field is made of.
use vstd::prelude::*;

verus! {

/// A number type with total arithmetic.
///
/// Each executable operation returns exactly the value that the spec function
/// of the same meaning names, so the result of any computation built from
/// them is a function of its inputs alone. Nothing is asked of the arithmetic
/// itself; the identities that an exact number type obeys are stated
/// separately, in [`ExactScalar`].
pub trait Scalar: Copy + Sized {
    /// The additive identity.
    spec fn zero_value() -> Self;

    /// The number that stands for the count `n`.
    spec fn count_value(n: usize) -> Self;

    /// `self + rhs`.
    spec fn sum(self, rhs: Self) -> Self;

    /// `self - rhs`.
    spec fn difference(self, rhs: Self) -> Self;

    /// `self * rhs`.
    spec fn product(self, rhs: Self) -> Self;

    /// `self / rhs`.
    spec fn quotient(self, rhs: Self) -> Self;

    /// The integer part of `self`, as a grid coordinate. Values below zero
    /// give zero; values too large for a coordinate give the largest one.
    spec fn truncated(self) -> usize;

    /// Zero.
    fn zero() -> (r: Self)
        ensures
            r == Self::zero_value(),
    ;

    /// The number that stands for the count `n`.
    fn from_count(n: usize) -> (r: Self)
        ensures
            r == Self::count_value(n),
    ;

    /// `self + rhs`.
    fn plus(self, rhs: Self) -> (r: Self)
        ensures
            r == self.sum(rhs),
    ;

    /// `self - rhs`.
    fn minus(self, rhs: Self) -> (r: Self)
        ensures
            r == self.difference(rhs),
    ;

    /// `self * rhs`.
    fn times(self, rhs: Self) -> (r: Self)
        ensures
            r == self.product(rhs),
    ;

    /// `self / rhs`. No divisor is refused: what a division by zero gives is
    /// for the number type to say.
    fn over(self, rhs: Self) -> (r: Self)
        ensures
            r == self.quotient(rhs),
    ;

    /// The integer part of `self`, as a grid coordinate.
    fn truncate(self) -> (r: usize)
        ensures
            r == self.truncated(),
    ;
}

/// A [`Scalar`] whose arithmetic obeys the identities of zero and one, and
/// which represents every count up to [`ExactScalar::count_limit`] exactly.
pub trait ExactScalar: Scalar {
    /// The largest count that `count_value` represents exactly.
    spec fn count_limit() -> nat;

    /// Adding zero, on either side, changes nothing.
    proof fn sum_with_zero(x: Self)
        ensures
            x.sum(Self::zero_value()) == x,
            Self::zero_value().sum(x) == x,
    ;

    /// Subtracting zero changes nothing.
    proof fn difference_with_zero(x: Self)
        ensures
            x.difference(Self::zero_value()) == x,
    ;

    /// A product with zero, on either side, is zero.
    proof fn product_with_zero(x: Self)
        ensures
            x.product(Self::zero_value()) == Self::zero_value(),
            Self::zero_value().product(x) == Self::zero_value(),
    ;

    /// Zero divided by anything is zero.
    proof fn quotient_of_zero(x: Self)
        ensures
            Self::zero_value().quotient(x) == Self::zero_value(),
    ;

    /// Dividing by one changes nothing.
    proof fn quotient_by_one(x: Self)
        ensures
            x.quotient(Self::count_value(1)) == x,
    ;

    /// A count within the limit is its own integer part.
    proof fn count_round_trip(n: usize)
        requires
            n <= Self::count_limit(),
        ensures
            Self::count_value(n).truncated() == n,
    ;
}

} // verus!
