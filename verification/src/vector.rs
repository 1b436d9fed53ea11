//! Polar-form vectors: a direction (fixed-point radians) and a magnitude
//! (fixed-point pixels), with lossy-by-one-unit conversions to and from
//! Cartesian components.

use vstd::prelude::*;
use vstd::math::abs;

use crate::scalar::{divt, div_trunc, lemma_divt_bound};
use crate::trig::{
    PI_FX, COORD_SPAN, SQRT_RESULT_CAP, sqrt_floor, isqrt, atan2_spec, atan2_fx, sin_spec,
    cos_spec, sin_fx, cos_fx,
};

verus! {

/// Largest magnitude `to_xy` accepts (two to the 50th): far beyond any
/// velocity the simulation keeps, but small enough that a product with a
/// scaled cosine never overflows.
pub const MAG_SPAN: i64 = 1125899906842624;

/// Vector of direction and magnitude
#[derive(Debug, Clone, Copy, PartialEq, Eq, Structural)]
pub struct AngleVec {
    /// Angle from +x axis, in fixed-point radians
    pub direction: i64,
    /// Magnitude of vector, in fixed-point pixels
    pub magnitude: i64,
}

impl AngleVec {
    /// Convert xy values into angle vector: the magnitude is the rounded-
    /// down Euclidean length, the direction the folded arc tangent.
    pub fn from_xy(x: i64, y: i64) -> (r: AngleVec)
        requires
            -COORD_SPAN <= x <= COORD_SPAN,
            -COORD_SPAN <= y <= COORD_SPAN,
        ensures
            r.direction == atan2_spec(y as int, x as int),
            -PI_FX <= r.direction <= PI_FX,
            r.magnitude == sqrt_floor(x * x + y * y),
            0 <= r.magnitude < SQRT_RESULT_CAP,
    {
        proof {
            assert(0 <= x * x && x * x <= 4398046511104 * 4398046511104)
                by (nonlinear_arith)
                requires -4398046511104 <= x <= 4398046511104;
            assert(0 <= y * y && y * y <= 4398046511104 * 4398046511104)
                by (nonlinear_arith)
                requires -4398046511104 <= y <= 4398046511104;
        }
        let xi: i128 = x as i128;
        let yi: i128 = y as i128;
        let n: i128 = xi * xi + yi * yi;
        let m: u64 = isqrt(n as u128);
        let d: i64 = atan2_fx(y, x);
        AngleVec { direction: d, magnitude: m as i64 }
    }

    /// Convert angle vector into xy values: the magnitude projected onto
    /// the scaled cosine and sine of the direction, rounded toward zero.
    pub fn to_xy(self) -> (r: (i64, i64))
        requires
            -PI_FX <= self.direction <= PI_FX,
            -MAG_SPAN <= self.magnitude <= MAG_SPAN,
        ensures
            r.0 == divt(self.magnitude * cos_spec(self.direction as int), 1000),
            r.1 == divt(self.magnitude * sin_spec(self.direction as int), 1000),
            abs(r.0 as int) <= abs(self.magnitude as int),
            abs(r.1 as int) <= abs(self.magnitude as int),
    {
        let c: i64 = cos_fx(self.direction);
        let s: i64 = sin_fx(self.direction);
        proof {
            assert(abs(self.magnitude * c) <= abs(self.magnitude as int) * 1000
                && abs(self.magnitude * c) <= 1125899906842624000)
                by (nonlinear_arith)
                requires
                    -1125899906842624 <= self.magnitude <= 1125899906842624,
                    -1000 <= c <= 1000;
            assert(abs(self.magnitude * s) <= abs(self.magnitude as int) * 1000
                && abs(self.magnitude * s) <= 1125899906842624000)
                by (nonlinear_arith)
                requires
                    -1125899906842624 <= self.magnitude <= 1125899906842624,
                    -1000 <= s <= 1000;
            lemma_divt_bound(self.magnitude * c, 1000, abs(self.magnitude as int) as int);
            lemma_divt_bound(self.magnitude * s, 1000, abs(self.magnitude as int) as int);
        }
        let px: i64 = div_trunc(self.magnitude * c, 1000);
        let py: i64 = div_trunc(self.magnitude * s, 1000);
        (px, py)
    }
}

} // verus!
