//! Whole numbers as sample values, with arithmetic that saturates.

use crate::scalar::Scalar;
use vstd::prelude::*;

verus! {

/// `n` held within the range of the 64-bit whole numbers.
pub open spec fn saturated(n: int) -> i64 {
    if n < i64::MIN {
        i64::MIN
    } else if n > i64::MAX {
        i64::MAX
    } else {
        n as i64
    }
}

/// The quotient of `a` by `b`, rounded towards zero; zero where `b` is zero.
pub open spec fn quotient(a: int, b: int) -> int {
    if b == 0 {
        0
    } else if (a >= 0) == (b > 0) {
        (if a >= 0 { a } else { -a }) / (if b > 0 { b } else { -b })
    } else {
        -((if a >= 0 { a } else { -a }) / (if b > 0 { b } else { -b }))
    }
}

/// Holds `n` within the range of the 64-bit whole numbers.
fn saturate(n: i128) -> (out: i64)
    ensures
        out == saturated(n as int),
{
    if n < i64::MIN as i128 {
        i64::MIN
    } else if n > i64::MAX as i128 {
        i64::MAX
    } else {
        n as i64
    }
}

impl Scalar for i64 {
    open spec fn from_int_spec(n: i128) -> i64 {
        saturated(n as int)
    }

    open spec fn plus_spec(self, other: i64) -> i64 {
        saturated(self + other)
    }

    open spec fn minus_spec(self, other: i64) -> i64 {
        saturated(self - other)
    }

    open spec fn times_spec(self, other: i64) -> i64 {
        saturated(self * other)
    }

    open spec fn over_spec(self, other: i64) -> i64 {
        saturated(quotient(self as int, other as int))
    }

    open spec fn below_spec(self, other: i64) -> bool {
        self < other
    }

    fn from_int(n: i128) -> (out: i64) {
        saturate(n)
    }

    fn plus(self, other: i64) -> (out: i64) {
        saturate(self as i128 + other as i128)
    }

    fn minus(self, other: i64) -> (out: i64) {
        saturate(self as i128 - other as i128)
    }

    fn times(self, other: i64) -> (out: i64) {
        assert(-0x8000_0000_0000_0000 * 0x8000_0000_0000_0000 <= (self as int) * (other as int)
            <= 0x8000_0000_0000_0000 * 0x8000_0000_0000_0000) by (nonlinear_arith)
            requires
                -0x8000_0000_0000_0000 <= self <= 0x7fff_ffff_ffff_ffff,
                -0x8000_0000_0000_0000 <= other <= 0x7fff_ffff_ffff_ffff,
        ;
        saturate((self as i128) * (other as i128))
    }

    fn over(self, other: i64) -> (out: i64) {
        if other == 0 {
            return 0;
        }
        let a: u128 = if self >= 0 {
            self as u128
        } else {
            (-(self as i128)) as u128
        };
        let b: u128 = if other > 0 {
            other as u128
        } else {
            (-(other as i128)) as u128
        };
        let q: u128 = a / b;
        assert(q <= a) by (nonlinear_arith)
            requires
                q == a / b,
                b >= 1,
                a >= 0,
        ;
        if (self >= 0) == (other > 0) {
            saturate(q as i128)
        } else {
            saturate(-(q as i128))
        }
    }

    fn below(self, other: i64) -> (out: bool) {
        self < other
    }
}

} // verus!
