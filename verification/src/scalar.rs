//! Fixed-point scalars and the two scalar helpers of the physics core:
//! a range clamp and a linear decay-to-zero step.

use vstd::prelude::*;
use vstd::math::abs;

verus! {

/// Fixed-point units per screen pixel (and per radian, for angles).
pub const SCALE: i64 = 1000;

/// What `clamp` leaves behind: `value` bounded into `[min, max]`.
pub open spec fn clamped(value: int, min: int, max: int) -> int {
    if value > max {
        max
    } else if value < min {
        min
    } else {
        value
    }
}

/// Keep value between a min and max.
pub fn clamp(value: &mut i64, min: i64, max: i64)
    ensures
        *final(value) == clamped(*old(value) as int, min as int, max as int),
{
    if *value > max {
        *value = max;
    } else if *value < min {
        *value = min;
    }
}

/// For `min <= max` the clamped value lies in `[min, max]`, and a value
/// already inside the range is left unchanged.
pub proof fn lemma_clamp_in_range(value: int, min: int, max: int)
    requires
        min <= max,
    ensures
        min <= clamped(value, min, max) <= max,
        min <= value <= max ==> clamped(value, min, max) == value,
{
}

/// What `slow` leaves behind: `value` moved toward zero by `deceleration`,
/// stopping exactly at zero rather than overshooting.
pub open spec fn slowed(value: int, deceleration: int) -> int {
    if abs(value) < deceleration {
        0
    } else if value >= 0 {
        value - deceleration
    } else {
        value + deceleration
    }
}

/// Apply deceleration to a value.
///
/// Set value to zero if the deceleration amount is more than the value.
pub fn slow(value: &mut i64, deceleration: i64)
    requires
        0 <= deceleration,
        i64::MIN < *old(value),
    ensures
        *final(value) == slowed(*old(value) as int, deceleration as int),
{
    if *value >= 0 {
        if *value < deceleration {
            *value = 0;
        } else {
            *value = *value - deceleration;
        }
    } else {
        if -*value < deceleration {
            *value = 0;
        } else {
            *value = *value + deceleration;
        }
    }
}

/// A decay step never grows the magnitude, reaches exactly zero if and only
/// if the deceleration covers the whole value, and never flips the sign of
/// a value it does not zero out.
pub proof fn lemma_slow_toward_zero(value: int, deceleration: int)
    requires
        0 <= deceleration,
    ensures
        abs(slowed(value, deceleration)) <= abs(value),
        slowed(value, deceleration) == 0 <==> abs(value) <= deceleration,
        slowed(value, deceleration) != 0 ==> ((value > 0) <==> (slowed(value, deceleration) > 0)),
{
}

/// Truncating division (round toward zero) for a positive divisor, as the
/// hardware performs it on signed operands.
pub open spec fn divt(a: int, b: int) -> int {
    if a >= 0 {
        a / b
    } else {
        -((-a) / b)
    }
}

/// Divide, rounding toward zero.
pub fn div_trunc(a: i64, b: i64) -> (r: i64)
    requires
        0 < b,
        i64::MIN < a,
    ensures
        r == divt(a as int, b as int),
{
    if a >= 0 {
        let q: u64 = (a as u64) / (b as u64);
        proof {
            vstd::arithmetic::div_mod::lemma_div_nonincreasing(a as int, b as int);
            vstd::arithmetic::div_mod::lemma_div_pos_is_pos(a as int, b as int);
        }
        q as i64
    } else {
        let n: i64 = -a;
        let q: u64 = (n as u64) / (b as u64);
        proof {
            vstd::arithmetic::div_mod::lemma_div_nonincreasing(n as int, b as int);
            vstd::arithmetic::div_mod::lemma_div_pos_is_pos(n as int, b as int);
        }
        -(q as i64)
    }
}

/// Truncating division never grows the magnitude of the dividend, and
/// bounding the dividend by a multiple of the divisor bounds the quotient.
pub proof fn lemma_divt_bound(a: int, b: int, m: int)
    requires
        0 < b,
        0 <= m,
        abs(a) <= m * b,
    ensures
        abs(divt(a, b)) <= m,
        divt(a, b) == 0 <==> abs(a) < b,
        0 <= a ==> 0 <= divt(a, b),
        a <= 0 ==> divt(a, b) <= 0,
{
    if a >= 0 {
        vstd::arithmetic::div_mod::lemma_div_pos_is_pos(a, b);
        vstd::arithmetic::div_mod::lemma_div_is_ordered(a, m * b, b);
        vstd::arithmetic::div_mod::lemma_div_by_multiple(m, b);
        if a < b {
            vstd::arithmetic::div_mod::lemma_basic_div(a, b);
        } else {
            vstd::arithmetic::div_mod::lemma_div_non_zero(a, b);
        }
    } else {
        vstd::arithmetic::div_mod::lemma_div_pos_is_pos(-a, b);
        vstd::arithmetic::div_mod::lemma_div_is_ordered(-a, m * b, b);
        vstd::arithmetic::div_mod::lemma_div_by_multiple(m, b);
        if -a < b {
            vstd::arithmetic::div_mod::lemma_basic_div(-a, b);
        } else {
            vstd::arithmetic::div_mod::lemma_div_non_zero(-a, b);
        }
    }
}

} // verus!
