//! A signed fixed-point number with 32 fractional bits and saturating,
//! total arithmetic.
use vstd::prelude::*;
use crate::scalar::{Scalar, ExactScalar};

verus! {

/// The raw value of one: two to the power of the number of fractional bits.
pub const ONE_RAW: i64 = 0x1_0000_0000;

/// The largest whole number that a [`Fixed`] holds.
pub const WHOLE_MAX: usize = 0x7fff_ffff;

/// The number `raw / 2^32`.
#[derive(Clone, Copy, Debug, PartialEq, Eq)]
pub struct Fixed {
    pub raw: i64,
}

/// `v`, or the nearest bound of `i64` where `v` lies outside it.
pub open spec fn saturated(v: int) -> i64 {
    if v < i64::MIN {
        i64::MIN
    } else if v > i64::MAX {
        i64::MAX
    } else {
        v as i64
    }
}

/// The size of `v`.
pub open spec fn magnitude(v: int) -> int {
    if v < 0 {
        -v
    } else {
        v
    }
}

/// The quotient of `n` by a divisor `d` other than zero, rounded toward
/// zero.
pub open spec fn toward_zero(n: int, d: int) -> int {
    if (n < 0) == (d < 0) {
        magnitude(n) / magnitude(d)
    } else {
        -(magnitude(n) / magnitude(d))
    }
}

fn saturate(v: i128) -> (r: i64)
    ensures
        r == saturated(v as int),
{
    if v < i64::MIN as i128 {
        i64::MIN
    } else if v > i64::MAX as i128 {
        i64::MAX
    } else {
        v as i64
    }
}

fn divide_toward_zero(n: i128, d: i128) -> (q: i128)
    requires
        d != 0,
        i128::MIN < n,
        i128::MIN < d,
    ensures
        q == toward_zero(n as int, d as int),
{
    let size_n: i128 = if n < 0 { -n } else { n };
    let size_d: i128 = if d < 0 { -d } else { d };
    let size_q: i128 = size_n / size_d;
    proof {
        assert(0 <= size_q <= size_n) by (nonlinear_arith)
            requires
                size_q == size_n / size_d,
                0 <= size_n,
                0 < size_d,
        ;
    }
    if (n < 0) == (d < 0) {
        size_q
    } else {
        -size_q
    }
}

impl Fixed {
    /// The number `numerator / denominator`, rounded toward zero to the
    /// nearest multiple of `2^-32` and saturated; zero where the denominator
    /// is zero.
    pub open spec fn ratio_value(numerator: i64, denominator: i64) -> Fixed {
        if denominator == 0 {
            Fixed { raw: 0 }
        } else {
            Fixed { raw: saturated(toward_zero(numerator * ONE_RAW, denominator as int)) }
        }
    }

    /// The number nearest to `numerator / denominator` on the side of zero.
    pub fn from_ratio(numerator: i64, denominator: i64) -> (r: Fixed)
        ensures
            r == Self::ratio_value(numerator, denominator),
    {
        if denominator == 0 {
            Fixed { raw: 0 }
        } else {
            proof {
                lemma_product_bound(numerator as int, ONE_RAW as int);
            }
            let n: i128 = (numerator as i128) * (ONE_RAW as i128);
            Fixed { raw: saturate(divide_toward_zero(n, denominator as i128)) }
        }
    }
}

impl Scalar for Fixed {
    open spec fn zero_value() -> Self {
        Fixed { raw: 0 }
    }

    open spec fn count_value(n: usize) -> Self {
        Fixed { raw: saturated(n * ONE_RAW) }
    }

    open spec fn sum(self, rhs: Self) -> Self {
        Fixed { raw: saturated(self.raw + rhs.raw) }
    }

    open spec fn difference(self, rhs: Self) -> Self {
        Fixed { raw: saturated(self.raw - rhs.raw) }
    }

    open spec fn product(self, rhs: Self) -> Self {
        Fixed { raw: saturated(toward_zero(self.raw * rhs.raw, ONE_RAW as int)) }
    }

    open spec fn quotient(self, rhs: Self) -> Self {
        Self::ratio_value(self.raw, rhs.raw)
    }

    open spec fn truncated(self) -> usize {
        if self.raw < 0 {
            0
        } else {
            (self.raw / ONE_RAW) as usize
        }
    }

    fn zero() -> (r: Self) {
        Fixed { raw: 0 }
    }

    fn from_count(n: usize) -> (r: Self) {
        if n > WHOLE_MAX {
            Fixed { raw: i64::MAX }
        } else {
            Fixed { raw: (n as i64) * ONE_RAW }
        }
    }

    fn plus(self, rhs: Self) -> (r: Self) {
        Fixed { raw: saturate(self.raw as i128 + rhs.raw as i128) }
    }

    fn minus(self, rhs: Self) -> (r: Self) {
        Fixed { raw: saturate(self.raw as i128 - rhs.raw as i128) }
    }

    fn times(self, rhs: Self) -> (r: Self) {
        proof {
            lemma_product_bound(self.raw as int, rhs.raw as int);
        }
        let p: i128 = (self.raw as i128) * (rhs.raw as i128);
        Fixed { raw: saturate(divide_toward_zero(p, ONE_RAW as i128)) }
    }

    fn over(self, rhs: Self) -> (r: Self) {
        Fixed::from_ratio(self.raw, rhs.raw)
    }

    fn truncate(self) -> (r: usize) {
        if self.raw < 0 {
            0
        } else {
            let whole: i64 = self.raw / ONE_RAW;
            whole as usize
        }
    }
}

proof fn lemma_product_bound(a: int, b: int)
    requires
        -0x8000_0000_0000_0000 <= a <= 0x7fff_ffff_ffff_ffff,
        -0x8000_0000_0000_0000 <= b <= 0x7fff_ffff_ffff_ffff,
    ensures
        -0x4000_0000_0000_0000_0000_0000_0000_0000 <= a * b
            <= 0x4000_0000_0000_0000_0000_0000_0000_0000,
{
    assert(magnitude(a) * magnitude(b) <= 0x8000_0000_0000_0000 * 0x8000_0000_0000_0000)
        by (nonlinear_arith)
        requires
            0 <= magnitude(a) <= 0x8000_0000_0000_0000,
            0 <= magnitude(b) <= 0x8000_0000_0000_0000,
    ;
    assert(a * b == magnitude(a) * magnitude(b) || a * b == -(magnitude(a) * magnitude(b)))
        by (nonlinear_arith)
        requires
            magnitude(a) == a || magnitude(a) == -a,
            magnitude(b) == b || magnitude(b) == -b,
    ;
}

impl ExactScalar for Fixed {
    open spec fn count_limit() -> nat {
        WHOLE_MAX as nat
    }

    proof fn sum_with_zero(x: Self) {
    }

    proof fn difference_with_zero(x: Self) {
    }

    proof fn product_with_zero(x: Self) {
        assert(x.raw * 0 == 0 && 0 * x.raw == 0) by (nonlinear_arith);
    }

    proof fn quotient_of_zero(x: Self) {
        if x.raw != 0 {
            assert(0int / magnitude(x.raw as int) == 0) by (nonlinear_arith)
                requires
                    magnitude(x.raw as int) > 0,
            ;
        }
    }

    proof fn quotient_by_one(x: Self) {
        let size: int = magnitude(x.raw as int);
        assert(magnitude(x.raw * ONE_RAW) == size * 0x1_0000_0000) by (nonlinear_arith)
            requires
                size == magnitude(x.raw as int),
                ONE_RAW == 0x1_0000_0000,
        ;
        assert((size * 0x1_0000_0000) / 0x1_0000_0000 == size) by (nonlinear_arith);
        assert((x.raw * ONE_RAW < 0) == (x.raw < 0)) by (nonlinear_arith)
            requires
                ONE_RAW == 0x1_0000_0000,
        ;
    }

    proof fn count_round_trip(n: usize) {
        assert((n * 0x1_0000_0000) / 0x1_0000_0000 == n) by (nonlinear_arith);
        assert(0 <= n * 0x1_0000_0000 <= 0x7fff_ffff * 0x1_0000_0000) by (nonlinear_arith)
            requires
                0 <= n <= 0x7fff_ffff,
        ;
    }
}

} // verus!
