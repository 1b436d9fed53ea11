//! Integer square root and fixed-point circular functions.
//!
//! Angles are fixed-point radians: an `i64` counting units of `1/SCALE`
//! of a radian, kept in the closed interval `[-PI_FX, PI_FX]`. The sine
//! and cosine use a rational quadratic approximation, the arc tangent a
//! quadratic one; both are exact on the axes, which is all the
//! simulation's contracts lean on.

use vstd::prelude::*;
use vstd::math::abs;
use vstd::arithmetic::div_mod::{
    lemma_div_is_ordered, lemma_div_by_multiple, lemma_div_pos_is_pos,
};
use vstd::arithmetic::mul::lemma_mul_upper_bound;

use crate::scalar::{SCALE, divt, div_trunc, lemma_divt_bound};

verus! {

/// One half turn (pi radians) in fixed-point units.
pub const PI_FX: i64 = 3142;

/// A quarter turn (pi/2 radians) in fixed-point units.
pub const HALF_PI_FX: i64 = 1571;

/// Largest coordinate the circular functions accept, with room to spare
/// for differences of in-range screen positions (two to the 42nd).
pub const COORD_SPAN: i64 = 4398046511104;

/// Two to the 43rd: one more doubling of `COORD_SPAN`.
pub const SQRT_RESULT_CAP: u64 = 8796093022208;

/// The square of `SQRT_RESULT_CAP`: largest admissible square-root input.
pub const SQRT_INPUT_CAP: u128 = 77371252455336267181195264;

/// The floor of the square root, defined by counting up.
pub open spec fn sqrt_floor(n: int) -> int
    decreases n,
{
    if n < 1 {
        0
    } else {
        let p = sqrt_floor(n - 1);
        if (p + 1) * (p + 1) <= n {
            p + 1
        } else {
            p
        }
    }
}

/// `sqrt_floor(n)` is the unique `r >= 0` with `r * r <= n < (r+1) * (r+1)`.
pub proof fn lemma_sqrt_floor_correct(n: int)
    requires
        0 <= n,
    ensures
        0 <= sqrt_floor(n),
        sqrt_floor(n) * sqrt_floor(n) <= n,
        n < (sqrt_floor(n) + 1) * (sqrt_floor(n) + 1),
    decreases n,
{
    if n >= 1 {
        lemma_sqrt_floor_correct(n - 1);
        let p = sqrt_floor(n - 1);
        if (p + 1) * (p + 1) <= n {
            assert((p + 1) * (p + 1) < (p + 2) * (p + 2)) by (nonlinear_arith)
                requires 0 <= p;
        }
    }
}

/// Any `r >= 0` with `r * r <= n < (r+1) * (r+1)` is `sqrt_floor(n)`.
pub proof fn lemma_sqrt_floor_unique(n: int, r: int)
    requires
        0 <= n,
        0 <= r,
        r * r <= n,
        n < (r + 1) * (r + 1),
    ensures
        r == sqrt_floor(n),
{
    lemma_sqrt_floor_correct(n);
    let s = sqrt_floor(n);
    if r < s {
        assert((r + 1) * (r + 1) <= s * s) by (nonlinear_arith)
            requires 0 <= r, r < s;
    }
    if s < r {
        assert((s + 1) * (s + 1) <= r * r) by (nonlinear_arith)
            requires 0 <= s, s < r;
    }
}

/// Integer square root, rounded down.
pub fn isqrt(n: u128) -> (r: u64)
    requires
        n < SQRT_INPUT_CAP,
    ensures
        r as int == sqrt_floor(n as int),
        r < SQRT_RESULT_CAP,
{
    let mut lo: u128 = 0;
    let mut hi: u128 = SQRT_RESULT_CAP as u128;
    while lo + 1 < hi
        invariant
            lo < hi <= SQRT_RESULT_CAP as u128,
            lo * lo <= n,
            n < hi * hi,
        decreases hi - lo,
    {
        let mid = lo + (hi - lo) / 2;
        proof {
            lemma_mul_upper_bound(
                mid as int,
                SQRT_RESULT_CAP as int,
                mid as int,
                SQRT_RESULT_CAP as int,
            );
        }
        if mid * mid <= n {
            lo = mid;
        } else {
            hi = mid;
        }
    }
    proof {
        lemma_sqrt_floor_unique(n as int, lo as int);
    }
    lo as u64
}

/// The sine approximation on `[0, PI_FX]`, scaled by `SCALE`:
/// `16 x (pi - x)` over `5 pi^2 - 4 x (pi - x)`, with `pi` as `3142`,
/// `16 * SCALE` as `16000` and `5 * 3142 * 3142` as `49360820`.
pub open spec fn sin_half_spec(x: int) -> int {
    let u = x * (3142 - x);
    (16000 * u) / (49360820 - 4 * u)
}

fn sin_half(x: i64) -> (r: i64)
    requires
        0 <= x <= PI_FX,
    ensures
        r == sin_half_spec(x as int),
        0 <= r <= SCALE,
{
    proof {
        assert(0 <= x * (3142 - x) && 4 * (x * (3142 - x)) <= 9872164)
            by (nonlinear_arith)
            requires 0 <= x <= 3142;
    }
    let u: u64 = (x as u64) * ((PI_FX - x) as u64);
    let num: u64 = 16000 * u;
    let den: u64 = 49360820 - 4 * u;
    let r: u64 = num / den;
    proof {
        lemma_div_pos_is_pos(num as int, den as int);
        lemma_div_is_ordered(num as int, 1000 * (den as int), den as int);
        lemma_div_by_multiple(1000, den as int);
    }
    r as i64
}

/// Fixed-point sine on `[-PI_FX, PI_FX]`, odd around zero.
pub open spec fn sin_spec(x: int) -> int {
    if x >= 0 {
        sin_half_spec(x)
    } else {
        -sin_half_spec(-x)
    }
}

/// Fixed-point sine.
pub fn sin_fx(x: i64) -> (r: i64)
    requires
        -PI_FX <= x <= PI_FX,
    ensures
        r == sin_spec(x as int),
        -SCALE <= r <= SCALE,
{
    if x >= 0 {
        sin_half(x)
    } else {
        -sin_half(-x)
    }
}

/// Fixed-point cosine on `[-PI_FX, PI_FX]`, even around zero, folded
/// onto the sine approximation.
pub open spec fn cos_spec(x: int) -> int {
    let a = abs(x);
    if a <= HALF_PI_FX {
        sin_half_spec(HALF_PI_FX - a)
    } else {
        -sin_half_spec(a - HALF_PI_FX)
    }
}

/// Fixed-point cosine.
pub fn cos_fx(x: i64) -> (r: i64)
    requires
        -PI_FX <= x <= PI_FX,
    ensures
        r == cos_spec(x as int),
        -SCALE <= r <= SCALE,
{
    let a: i64 = if x >= 0 { x } else { -x };
    if a <= HALF_PI_FX {
        sin_half(HALF_PI_FX - a)
    } else {
        -sin_half(a - HALF_PI_FX)
    }
}

/// Arc tangent of `z / SCALE`, for `z` in `[-SCALE, SCALE]` (angles up to
/// an eighth turn), odd in `z`: a quarter turn (`785`) times `z`, plus a
/// quadratic correction with coefficient `0.273` (`273` at scale).
pub open spec fn atan_unit_spec(z: int) -> int {
    let a = abs(z) as int;
    let t = divt(785 * a, 1000) + divt(273 * (a * (1000 - a)), 1000000);
    if z >= 0 {
        t
    } else {
        -t
    }
}

/// Magnitude and sign of the unit arc tangent, on its domain.
pub proof fn lemma_atan_unit_spec_bound(z: int)
    requires
        -SCALE <= z <= SCALE,
    ensures
        abs(atan_unit_spec(z)) < HALF_PI_FX,
        0 <= z ==> 0 <= atan_unit_spec(z),
        z <= 0 ==> atan_unit_spec(z) <= 0,
{
    let a = abs(z) as int;
    assert(0 <= a * (1000 - a) && 4 * (a * (1000 - a)) <= 1000000)
        by (nonlinear_arith)
        requires 0 <= a <= 1000;
    lemma_divt_bound(785 * a, 1000, 785);
    lemma_divt_bound(273 * (a * (1000 - a)), 1000000, 69);
    if z == 0 {
        assert(a * (1000 - a) == 0) by (nonlinear_arith)
            requires a == 0;
        assert(atan_unit_spec(0) == 0);
    }
}

fn atan_unit(z: i64) -> (r: i64)
    requires
        -SCALE <= z <= SCALE,
    ensures
        r == atan_unit_spec(z as int),
        abs(r as int) < HALF_PI_FX,
        0 <= z ==> 0 <= r,
        z <= 0 ==> r <= 0,
{
    proof {
        lemma_atan_unit_spec_bound(z as int);
    }
    let a: i64 = if z >= 0 { z } else { -z };
    proof {
        assert(0 <= a * (1000 - a) && 4 * (a * (1000 - a)) <= 1000000)
            by (nonlinear_arith)
            requires 0 <= a <= 1000;
    }
    let t1: i64 = div_trunc(785 * a, 1000);
    let t2: i64 = div_trunc(273 * (a * (1000 - a)), 1000000);
    let t: i64 = t1 + t2;
    if z >= 0 {
        t
    } else {
        -t
    }
}

/// Fixed-point two-argument arc tangent: the angle of the vector `(x, y)`
/// from the positive x axis, in `[-PI_FX, PI_FX]`, by octant folding of
/// `atan_unit_spec` over the slope scaled by `1000`.
pub open spec fn atan2_spec(y: int, x: int) -> int {
    if x == 0 && y == 0 {
        0
    } else if abs(y) <= x {
        atan_unit_spec(divt(y * 1000, x))
    } else if abs(x) < abs(y) {
        if y > 0 {
            HALF_PI_FX - atan_unit_spec(divt(x * 1000, y))
        } else {
            -HALF_PI_FX - atan_unit_spec(divt(-(x * 1000), -y))
        }
    } else {
        if y >= 0 {
            PI_FX + atan_unit_spec(divt(-(y * 1000), -x))
        } else {
            -PI_FX + atan_unit_spec(divt(-(y * 1000), -x))
        }
    }
}

/// The folded arc tangent always lands in the closed half-turn interval.
pub proof fn lemma_atan2_range(y: int, x: int)
    ensures
        -PI_FX <= atan2_spec(y, x) <= PI_FX,
{
    if !(x == 0 && y == 0) {
        if abs(y) <= x {
            lemma_divt_bound(y * 1000, x, 1000);
            lemma_atan_unit_spec_bound(divt(y * 1000, x));
        } else if abs(x) < abs(y) {
            if y > 0 {
                lemma_divt_bound(x * 1000, y, 1000);
                lemma_atan_unit_spec_bound(divt(x * 1000, y));
            } else {
                lemma_divt_bound(-(x * 1000), -y, 1000);
                lemma_atan_unit_spec_bound(divt(-(x * 1000), -y));
            }
        } else {
            lemma_divt_bound(-(y * 1000), -x, 1000);
            lemma_atan_unit_spec_bound(divt(-(y * 1000), -x));
        }
    }
}

/// Fixed-point two-argument arc tangent.
pub fn atan2_fx(y: i64, x: i64) -> (r: i64)
    requires
        -COORD_SPAN <= y <= COORD_SPAN,
        -COORD_SPAN <= x <= COORD_SPAN,
    ensures
        r == atan2_spec(y as int, x as int),
        -PI_FX <= r <= PI_FX,
{
    proof {
        lemma_atan2_range(y as int, x as int);
    }
    let ay: i64 = if y >= 0 { y } else { -y };
    let ax: i64 = if x >= 0 { x } else { -x };
    if x == 0 && y == 0 {
        0
    } else if ay <= x {
        proof {
            lemma_divt_bound(y * 1000, x as int, 1000);
        }
        let z = div_trunc(y * 1000, x);
        atan_unit(z)
    } else if ax < ay {
        if y > 0 {
            proof {
                lemma_divt_bound(x * 1000, y as int, 1000);
            }
            let z = div_trunc(x * 1000, y);
            HALF_PI_FX - atan_unit(z)
        } else {
            proof {
                lemma_divt_bound(-(x * 1000), -(y as int), 1000);
            }
            let z = div_trunc(-(x * 1000), -y);
            -HALF_PI_FX - atan_unit(z)
        }
    } else {
        proof {
            lemma_divt_bound(-(y * 1000), -(x as int), 1000);
        }
        let z = div_trunc(-(y * 1000), -x);
        if y >= 0 {
            PI_FX + atan_unit(z)
        } else {
            -PI_FX + atan_unit(z)
        }
    }
}

/// On the axes the arc tangent is exact: `0`, a half turn, or a quarter
/// turn either way.
pub proof fn lemma_atan2_axes(y: int, x: int)
    ensures
        y == 0 && x > 0 ==> atan2_spec(y, x) == 0,
        y == 0 && x < 0 ==> atan2_spec(y, x) == PI_FX,
        x == 0 && y > 0 ==> atan2_spec(y, x) == HALF_PI_FX,
        x == 0 && y < 0 ==> atan2_spec(y, x) == -HALF_PI_FX,
{
    if y == 0 && x > 0 {
        lemma_divt_bound(0, x, 0);
        assert(atan_unit_spec(0) == 0);
    }
    if y == 0 && x < 0 {
        lemma_divt_bound(0, -x, 0);
        assert(atan_unit_spec(0) == 0);
    }
    if x == 0 && y > 0 {
        lemma_divt_bound(0, y, 0);
        assert(atan_unit_spec(0) == 0);
    }
    if x == 0 && y < 0 {
        lemma_divt_bound(0, -y, 0);
        assert(atan_unit_spec(0) == 0);
    }
}

} // verus!
