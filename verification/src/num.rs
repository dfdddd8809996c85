use vstd::prelude::*;

verus! {

/// One whole displacement unit of the fixed-point scale used by the
/// simulation: quantities are stored as signed multiples of one billionth.
pub const UNIT: i64 = 1_000_000_000;

/// Truncating division (rounding toward zero), the rounding used throughout
/// the fixed-point arithmetic. Meaningful for positive divisors.
pub open spec fn tdiv(a: int, d: int) -> int
    recommends
        d > 0,
{
    if a >= 0 {
        a / d
    } else {
        -((-a) / d)
    }
}

/// `v` clamped into `[-bound, bound]`.
pub open spec fn clip(v: int, bound: int) -> int {
    if v < -bound {
        -bound
    } else if v > bound {
        bound
    } else {
        v
    }
}

/// `v` clamped into `[lo, hi]`.
pub open spec fn clamp_rng(v: int, lo: int, hi: int) -> int
    recommends
        lo <= hi,
{
    if v < lo {
        lo
    } else if v > hi {
        hi
    } else {
        v
    }
}

/// Truncating division stays within a bound: if `|a| <= b * d` then
/// `|tdiv(a, d)| <= b`.
pub proof fn lemma_tdiv_bound(a: int, d: int, b: int)
    requires
        d > 0,
        b >= 0,
        -(b * d) <= a <= b * d,
    ensures
        -b <= tdiv(a, d) <= b,
{
    if a >= 0 {
        vstd::arithmetic::div_mod::lemma_div_is_ordered(a, b * d, d);
        vstd::arithmetic::div_mod::lemma_div_by_multiple(b, d);
        vstd::arithmetic::div_mod::lemma_div_is_ordered(0, a, d);
    } else {
        vstd::arithmetic::div_mod::lemma_div_is_ordered(-a, b * d, d);
        vstd::arithmetic::div_mod::lemma_div_by_multiple(b, d);
        vstd::arithmetic::div_mod::lemma_div_is_ordered(0, -a, d);
    }
}

/// Truncating division of a fixed-point value by a positive divisor.
pub fn div_trunc(a: i64, d: u64) -> (r: i64)
    requires
        0 < d <= i64::MAX,
        -i64::MAX <= a,
    ensures
        r == tdiv(a as int, d as int),
{
    if a >= 0 {
        ((a as u64) / d) as i64
    } else {
        let m: u64 = ((-a) as u64) / d;
        -(m as i64)
    }
}

/// An `i32` clamped into `[lo, hi]`.
pub fn clamp_i32(v: i32, lo: i32, hi: i32) -> (r: i32)
    requires
        lo <= hi,
    ensures
        r == clamp_rng(v as int, lo as int, hi as int),
{
    if v < lo {
        lo
    } else if v > hi {
        hi
    } else {
        v
    }
}

/// An `i64` clamped into `[-bound, bound]`.
pub fn clamp_i64(v: i64, bound: i64) -> (r: i64)
    requires
        0 <= bound,
    ensures
        r == clip(v as int, bound as int),
{
    if v < -bound {
        -bound
    } else if v > bound {
        bound
    } else {
        v
    }
}

} // verus!
