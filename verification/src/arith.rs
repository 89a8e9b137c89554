//! Saturating fixed-width arithmetic for the feedback controller.
//!
//! The controller works over `i64` values.  An intermediate term that
//! leaves the representable range is pinned to the nearest bound, the
//! way an overflowing floating-point term is pinned to an infinity and
//! then caught by the final clamp; the result is that every controller
//! step is a total function with an exact specification.

use vstd::prelude::*;

verus! {

/// The nearest `i64`-representable value to `x`.
pub open spec fn clip64(x: int) -> int {
    if x > i64::MAX {
        i64::MAX as int
    } else if x < i64::MIN {
        i64::MIN as int
    } else {
        x
    }
}

/// Quotient of `x` by `d`, rounded toward zero (the rounding used when
/// averaging the integral window); `d` must be positive.
pub open spec fn tdiv(x: int, d: int) -> int
    recommends
        d > 0,
{
    if x >= 0 {
        x / d
    } else {
        -((-x) / d)
    }
}

/// `x` pinned into the inclusive band `[lo, hi]`.
pub open spec fn clamp64(x: int, lo: int, hi: int) -> int
    recommends
        lo <= hi,
{
    if x < lo {
        lo
    } else if x > hi {
        hi
    } else {
        x
    }
}

pub fn sat_add(a: i64, b: i64) -> (r: i64)
    ensures
        r == clip64(a + b),
{
    match a.checked_add(b) {
        Some(v) => v,
        None => {
            if a >= 0 {
                i64::MAX
            } else {
                i64::MIN
            }
        },
    }
}

pub fn sat_sub(a: i64, b: i64) -> (r: i64)
    ensures
        r == clip64(a - b),
{
    match a.checked_sub(b) {
        Some(v) => v,
        None => {
            if a >= 0 {
                i64::MAX
            } else {
                i64::MIN
            }
        },
    }
}

pub fn sat_mul(a: i64, b: i64) -> (r: i64)
    ensures
        r == clip64(a * b),
{
    match a.checked_mul(b) {
        Some(v) => v,
        None => {
            if (a > 0) == (b > 0) {
                proof {
                    assert(a != 0 && b != 0);
                    assert((a > 0 && b > 0) ==> a * b > 0) by (nonlinear_arith);
                    assert((a < 0 && b < 0) ==> a * b > 0) by (nonlinear_arith);
                }
                i64::MAX
            } else {
                proof {
                    assert((a > 0 && b < 0) ==> a * b < 0) by (nonlinear_arith);
                    assert((a < 0 && b > 0) ==> a * b < 0) by (nonlinear_arith);
                }
                i64::MIN
            }
        },
    }
}

pub fn div_trunc(a: i64, d: i64) -> (r: i64)
    requires
        1 <= d,
    ensures
        r == tdiv(a as int, d as int),
{
    proof {
        if a >= 0 {
            vstd::arithmetic::div_mod::lemma_div_nonincreasing(a as int, d as int);
            vstd::arithmetic::div_mod::lemma_div_pos_is_pos(a as int, d as int);
        } else {
            vstd::arithmetic::div_mod::lemma_div_nonincreasing(-(a as int), d as int);
            vstd::arithmetic::div_mod::lemma_div_pos_is_pos(-(a as int), d as int);
        }
    }
    match a.checked_div(d) {
        Some(v) => v,
        None => unreached(),
    }
}

} // verus!
