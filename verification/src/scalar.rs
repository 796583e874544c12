//! The arithmetic that sample values support.

use vstd::prelude::*;

verus! {

/// A sample value: a number with the arithmetic that mixing and the
/// transformations need.
///
/// Every operation is a function of its operands alone. The `_spec`
/// functions name these functions, and the contracts of the crate are stated
/// over them: they say which operations are applied to which values, in which
/// order, and leave to the implementation what a sum or a product is. The
/// crate implements the trait for `i64`. An implementation for a float type
/// stands outside the crate, where nothing checks it against these contracts:
/// it has to see to it itself that an operation gives the same result
/// whenever it gets the same operands.
pub trait Scalar: Copy + Sized {
    /// The value that stands for the integer `n`.
    spec fn from_int_spec(n: i128) -> Self;

    /// The sum of two values.
    spec fn plus_spec(self, other: Self) -> Self;

    /// The difference of two values.
    spec fn minus_spec(self, other: Self) -> Self;

    /// The product of two values.
    spec fn times_spec(self, other: Self) -> Self;

    /// The quotient of two values.
    spec fn over_spec(self, other: Self) -> Self;

    /// Whether `self` is strictly less than `other`.
    spec fn below_spec(self, other: Self) -> bool;

    fn from_int(n: i128) -> (out: Self)
        ensures
            out == Self::from_int_spec(n),
    ;

    fn plus(self, other: Self) -> (out: Self)
        ensures
            out == self.plus_spec(other),
    ;

    fn minus(self, other: Self) -> (out: Self)
        ensures
            out == self.minus_spec(other),
    ;

    fn times(self, other: Self) -> (out: Self)
        ensures
            out == self.times_spec(other),
    ;

    fn over(self, other: Self) -> (out: Self)
        ensures
            out == self.over_spec(other),
    ;

    fn below(self, other: Self) -> (out: bool)
        ensures
            out == self.below_spec(other),
    ;
}

/// The value that stands for zero.
pub open spec fn zero<T: Scalar>() -> T {
    T::from_int_spec(0)
}

/// The value that stands for one.
pub open spec fn one<T: Scalar>() -> T {
    T::from_int_spec(1)
}

/// The value that stands for minus one.
pub open spec fn minus_one<T: Scalar>() -> T {
    T::from_int_spec(-1i128)
}

/// `x` held between `low` and `high`: `low` where `x` is below it, `high`
/// where `x` is above it, and `x` itself otherwise.
pub open spec fn clamped<T: Scalar>(x: T, low: T, high: T) -> T {
    if x.below_spec(low) {
        low
    } else if high.below_spec(x) {
        high
    } else {
        x
    }
}

/// Holds `x` between `low` and `high`.
pub fn clamp<T: Scalar>(x: T, low: T, high: T) -> (out: T)
    ensures
        out == clamped(x, low, high),
{
    if x.below(low) {
        low
    } else if high.below(x) {
        high
    } else {
        x
    }
}

} // verus!
