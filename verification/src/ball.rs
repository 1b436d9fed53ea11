//! Circular bodies: position, polar velocity, radius, an opaque color,
//! and the per-tick collision flag, plus the exact circle-circle overlap
//! test.

use vstd::prelude::*;

use crate::vector::AngleVec;
use crate::trig::PI_FX;

verus! {

/// Position bound kept by the simulation (two to the 41st fixed-point
/// units, about two billion pixels either way).
pub const POS_LIMIT: i64 = 2199023255552;

/// Radius bound (two to the 32nd fixed-point units).
pub const RADIUS_LIMIT: i64 = 4294967296;

/// Velocity-magnitude bound kept by the simulation (two to the 60th):
/// roomy enough for any value one tick can produce.
pub const MAG_LIMIT: i64 = 1152921504606846976;

/// Ball with position and velocity
#[derive(Debug, Clone, Copy, PartialEq, Eq, Structural)]
pub struct Ball {
    /// x position of ball center, in fixed-point pixels
    pub x: i64,
    /// y position of ball center, in fixed-point pixels
    pub y: i64,
    /// Velocity, as an angle vector
    pub velocity: AngleVec,
    /// Radius of ball, in fixed-point pixels
    pub radius: i64,
    /// Color of ball, opaque to the simulation
    pub color: u32,
    /// Whether ball is currently colliding
    pub is_colliding: bool,
}

impl Ball {
    /// Acceleration applied to a pointer launch, in SCALE-ths (0.3).
    pub const ACCELERATION: i64 = 300;

    /// Maximum absolute velocity, in fixed-point pixels per tick (120).
    pub const MAX_VELOCITY: i64 = 120000;

    /// Deceleration amount for friction, in fixed-point pixels (1.5).
    pub const DECELERATION: i64 = 1500;

    /// Deceleration amount for bounce force, in fixed-point pixels (2).
    pub const BOUNCE_DECELERATION: i64 = 2000;

    /// Relative magnitude of velocity in slow mode, in SCALE-ths (0.2).
    pub const SLOW_MAGNITUDE: i64 = 200;

    /// The bounds every ball of a running simulation keeps: position and
    /// radius within range, direction within a half turn either way, and
    /// a non-negative, bounded magnitude.
    pub open spec fn valid(self) -> bool {
        &&& 0 < self.radius <= RADIUS_LIMIT
        &&& -POS_LIMIT <= self.x <= POS_LIMIT
        &&& -POS_LIMIT <= self.y <= POS_LIMIT
        &&& -PI_FX <= self.velocity.direction <= PI_FX
        &&& 0 <= self.velocity.magnitude <= MAG_LIMIT
    }

    /// New ball with x, y, radius, color, and zero velocity
    pub fn new(x: i64, y: i64, radius: i64, color: u32) -> (b: Ball)
        requires
            -POS_LIMIT <= x <= POS_LIMIT,
            -POS_LIMIT <= y <= POS_LIMIT,
            0 < radius <= RADIUS_LIMIT,
        ensures
            b == (Ball {
                x,
                y,
                velocity: AngleVec { direction: 0, magnitude: 0 },
                radius,
                color,
                is_colliding: false,
            }),
            b.valid(),
    {
        Ball {
            x,
            y,
            velocity: AngleVec { direction: 0, magnitude: 0 },
            radius,
            color,
            is_colliding: false,
        }
    }
}

pub trait Collides<T> {
    /// What a collision with another object means.
    spec fn collides_with(&self, other: &T) -> bool;

    /// The bounds under which the collision test may be run.
    spec fn collides_req(&self, other: &T) -> bool;

    /// Check for collision with another object
    fn collides(&self, other: &T) -> (r: bool)
        requires
            self.collides_req(other),
        ensures
            r == self.collides_with(other),
    ;
}

impl Collides<Ball> for Ball {
    /// Exact circle-circle overlap: the squared center distance is no
    /// more than the squared sum of radii.
    open spec fn collides_with(&self, other: &Ball) -> bool {
        (self.x - other.x) * (self.x - other.x) + (self.y - other.y) * (self.y - other.y)
            <= (self.radius + other.radius) * (self.radius + other.radius)
    }

    open spec fn collides_req(&self, other: &Ball) -> bool {
        &&& -POS_LIMIT <= self.x <= POS_LIMIT
        &&& -POS_LIMIT <= self.y <= POS_LIMIT
        &&& -POS_LIMIT <= other.x <= POS_LIMIT
        &&& -POS_LIMIT <= other.y <= POS_LIMIT
        &&& 0 <= self.radius <= RADIUS_LIMIT
        &&& 0 <= other.radius <= RADIUS_LIMIT
    }

    fn collides(&self, other: &Ball) -> (r: bool) {
        let dx: i128 = self.x as i128 - other.x as i128;
        let dy: i128 = self.y as i128 - other.y as i128;
        let rr: i128 = self.radius as i128 + other.radius as i128;
        proof {
            assert(dx * dx <= 4398046511104 * 4398046511104 && 0 <= dx * dx)
                by (nonlinear_arith)
                requires -4398046511104 <= dx <= 4398046511104;
            assert(dy * dy <= 4398046511104 * 4398046511104 && 0 <= dy * dy)
                by (nonlinear_arith)
                requires -4398046511104 <= dy <= 4398046511104;
            assert(rr * rr <= 8589934592 * 8589934592 && 0 <= rr * rr)
                by (nonlinear_arith)
                requires 0 <= rr <= 8589934592;
        }
        dx * dx + dy * dy <= rr * rr
    }
}

/// The overlap test does not depend on the order of the two balls.
pub proof fn lemma_collides_symmetric(a: Ball, b: Ball)
    ensures
        a.collides_with(&b) == b.collides_with(&a),
{
    assert((a.x - b.x) * (a.x - b.x) == (b.x - a.x) * (b.x - a.x)) by (nonlinear_arith);
    assert((a.y - b.y) * (a.y - b.y) == (b.y - a.y) * (b.y - a.y)) by (nonlinear_arith);
    assert((a.radius + b.radius) * (a.radius + b.radius)
        == (b.radius + a.radius) * (b.radius + a.radius)) by (nonlinear_arith);
}

} // verus!
