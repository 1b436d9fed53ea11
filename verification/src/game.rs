//! The per-tick simulation step: pointer-gesture handling (grab, snap,
//! launch), velocity clamping, integration with friction, boundary
//! reflection, and the pairwise collision pass.

use vstd::prelude::*;
use vstd::math::abs;

use crate::scalar::{clamped, slowed, divt, clamp, slow, div_trunc, lemma_divt_bound};
use crate::trig::{
    PI_FX, HALF_PI_FX, sqrt_floor, atan2_spec, cos_spec, sin_spec, atan2_fx, lemma_atan2_range,
    lemma_atan2_axes,
};
use crate::vector::AngleVec;
use crate::ball::{Ball, Collides, POS_LIMIT, RADIUS_LIMIT, MAG_LIMIT};

verus! {

/// Canvas size bound (two to the 40th fixed-point units).
pub const CANVAS_LIMIT: i64 = 1099511627776;

/// One tick's read-only input snapshot: pointer position, pointer-button
/// edge flags, and the held modifier keys.
#[derive(Debug, Clone, Copy)]
pub struct Input {
    /// Pointer x position, in fixed-point pixels
    pub pointer_x: i64,
    /// Pointer y position, in fixed-point pixels
    pub pointer_y: i64,
    /// The pointer button went down this tick
    pub pressed: bool,
    /// The pointer button went up this tick
    pub released: bool,
    /// Modifier held: snap the grabbed ball to the pointer
    pub snap_held: bool,
    /// Modifier held: run the tick in slow motion
    pub slow_held: bool,
}

impl Input {
    /// Pointer coordinates within the canvas bound.
    pub open spec fn valid(self) -> bool {
        &&& -CANVAS_LIMIT <= self.pointer_x <= CANVAS_LIMIT
        &&& -CANVAS_LIMIT <= self.pointer_y <= CANVAS_LIMIT
    }
}

/// Pointer capture test: the pointer lies strictly inside the ball's
/// axis-aligned bounding square (not the exact circle).
pub open spec fn grab_hit(b: Ball, px: int, py: int) -> bool {
    abs(b.x - px) < b.radius && abs(b.y - py) < b.radius
}

/// Index of the first ball, scanning in storage order from `i`, whose
/// bounding square holds the pointer.
pub open spec fn first_hit_from(balls: Seq<Ball>, px: int, py: int, i: int) -> Option<int>
    decreases balls.len() - i,
{
    if i < 0 || i >= balls.len() {
        None
    } else if grab_hit(balls[i], px, py) {
        Some(i)
    } else {
        first_hit_from(balls, px, py, i + 1)
    }
}

/// A found index lies in range and its ball holds the pointer.
pub proof fn lemma_first_hit_in_range(balls: Seq<Ball>, px: int, py: int, i: int)
    ensures
        first_hit_from(balls, px, py, i) matches Some(j)
            ==> i <= j < balls.len() && grab_hit(balls[j], px, py),
    decreases balls.len() - i,
{
    if 0 <= i < balls.len() && !grab_hit(balls[i], px, py) {
        lemma_first_hit_in_range(balls, px, py, i + 1);
    }
}

/// Scan the balls in storage order for the first whose bounding square
/// holds the pointer.
fn select_ball(balls: &Vec<Ball>, px: i64, py: i64) -> (r: Option<usize>)
    requires
        forall|k: int| 0 <= k < balls@.len() ==> (#[trigger] balls@[k]).valid(),
        -CANVAS_LIMIT <= px <= CANVAS_LIMIT,
        -CANVAS_LIMIT <= py <= CANVAS_LIMIT,
    ensures
        match r {
            Some(i) => i < balls@.len()
                && first_hit_from(balls@, px as int, py as int, 0) == Some(i as int),
            None => first_hit_from(balls@, px as int, py as int, 0) is None,
        },
{
    let n = balls.len();
    let mut i: usize = 0;
    while i < n
        invariant
            n == balls@.len(),
            i <= n,
            forall|k: int| 0 <= k < balls@.len() ==> (#[trigger] balls@[k]).valid(),
            -CANVAS_LIMIT <= px <= CANVAS_LIMIT,
            -CANVAS_LIMIT <= py <= CANVAS_LIMIT,
            first_hit_from(balls@, px as int, py as int, 0)
                == first_hit_from(balls@, px as int, py as int, i as int),
        decreases n - i,
    {
        let b = balls[i];
        let dx: i64 = if b.x >= px { b.x - px } else { px - b.x };
        let dy: i64 = if b.y >= py { b.y - py } else { py - b.y };
        if dx < b.radius && dy < b.radius {
            return Some(i);
        }
        i += 1;
    }
    None
}

/// Direction of the launch a release gives the grabbed ball: from the
/// pointer toward the ball's center.
pub open spec fn launch_direction(bx: int, by: int, px: int, py: int) -> int {
    atan2_spec(by - py, bx - px)
}

/// Magnitude of the launch: the pointer-to-center distance scaled by
/// `Ball::ACCELERATION` (300 per 1000).
pub open spec fn launch_magnitude(bx: int, by: int, px: int, py: int) -> int {
    divt(sqrt_floor((bx - px) * (bx - px) + (by - py) * (by - py)) * 300, 1000)
}

/// The velocity a pointer release gives the grabbed ball.
pub fn launch_velocity(bx: i64, by: i64, px: i64, py: i64) -> (v: AngleVec)
    requires
        -POS_LIMIT <= bx <= POS_LIMIT,
        -POS_LIMIT <= by <= POS_LIMIT,
        -CANVAS_LIMIT <= px <= CANVAS_LIMIT,
        -CANVAS_LIMIT <= py <= CANVAS_LIMIT,
    ensures
        v.direction == launch_direction(bx as int, by as int, px as int, py as int),
        -PI_FX <= v.direction <= PI_FX,
        v.magnitude == launch_magnitude(bx as int, by as int, px as int, py as int),
        0 <= v.magnitude <= MAG_LIMIT,
        // On the axes the launch points exactly along them: a release
        // level with the ball and left of it launches it exactly right.
        by == py && bx > px ==> v.direction == 0,
        by == py && bx < px ==> v.direction == PI_FX,
        bx == px && by > py ==> v.direction == HALF_PI_FX,
        bx == px && by < py ==> v.direction == -HALF_PI_FX,
{
    proof {
        lemma_atan2_axes(by - py, bx - px);
    }
    let dx: i64 = bx - px;
    let dy: i64 = by - py;
    let mut vel = AngleVec::from_xy(dx, dy);
    proof {
        lemma_divt_bound(vel.magnitude * 300, 1000, 2638827906662400);
    }
    vel.magnitude = div_trunc(vel.magnitude * 300, 1000);
    vel
}

/// Friction deceleration for the tick: `Ball::DECELERATION`, scaled by
/// the slow-mode factor (200 per 1000).
pub open spec fn friction_decel(slow_held: bool) -> int {
    if slow_held { 300 } else { Ball::DECELERATION as int }
}

/// Bounce deceleration for the tick: `Ball::BOUNCE_DECELERATION`,
/// scaled the same way.
pub open spec fn bounce_decel(slow_held: bool) -> int {
    if slow_held { 400 } else { Ball::BOUNCE_DECELERATION as int }
}

/// The magnitude a ball actually moves by this tick: the held magnitude,
/// scaled down in slow mode.
pub open spec fn scaled_speed(m: int, slow_held: bool) -> int {
    if slow_held { divt(m * 200, 1000) } else { m }
}

/// The magnitude after the tick's velocity clamp.
pub open spec fn step_clamped_mag(b: Ball) -> int {
    clamped(b.velocity.magnitude as int, -Ball::MAX_VELOCITY as int, Ball::MAX_VELOCITY as int)
}

/// The x position after integration, before the boundary checks.
pub open spec fn step_x1(b: Ball, slow_held: bool) -> int {
    b.x + divt(scaled_speed(step_clamped_mag(b), slow_held) * cos_spec(b.velocity.direction as int), 1000)
}

/// The y position after integration, before the boundary checks.
pub open spec fn step_y1(b: Ball, slow_held: bool) -> int {
    b.y + divt(scaled_speed(step_clamped_mag(b), slow_held) * sin_spec(b.velocity.direction as int), 1000)
}

/// A half turn, wrapped back into `[-PI_FX, PI_FX]`.
pub open spec fn half_turn(d: int) -> int {
    if d <= 0 { d + PI_FX } else { d - PI_FX }
}

/// One ball's whole integration step: clamp the velocity, move, apply
/// friction, and on leaving the canvas reflect and clamp back in. The
/// horizontal clamp turns the direction by a half turn; the vertical
/// clamp moves the position only, as the toy always has.
pub open spec fn step_ball_spec(b: Ball, slow_held: bool, w: int, h: int) -> Ball {
    let m1 = step_clamped_mag(b);
    let x1 = step_x1(b, slow_held);
    let y1 = step_y1(b, slow_held);
    let m2 = slowed(m1, friction_decel(slow_held));
    let oob = x1 < b.radius || x1 > w - b.radius || y1 < b.radius || y1 > h - b.radius;
    let d1 = if oob { -(b.velocity.direction as int) } else { b.velocity.direction as int };
    let m3 = if oob { slowed(m2, bounce_decel(slow_held)) } else { m2 };
    let xlow = x1 < b.radius;
    let xhigh = !xlow && x1 > w - b.radius;
    let d2 = if xlow || xhigh { half_turn(d1) } else { d1 };
    let x2 = if xlow { b.radius as int } else if xhigh { w - b.radius } else { x1 };
    let y2 = if y1 < b.radius { b.radius as int } else if y1 > h - b.radius { h - b.radius } else { y1 };
    Ball {
        x: x2 as i64,
        y: y2 as i64,
        velocity: AngleVec { direction: d2 as i64, magnitude: m3 as i64 },
        ..b
    }
}

/// Advance one ball by one tick against a `w` by `h` canvas.
pub fn step_ball(b: &mut Ball, slow_held: bool, width: i64, height: i64)
    requires
        old(b).valid(),
        0 <= width <= CANVAS_LIMIT,
        0 <= height <= CANVAS_LIMIT,
    ensures
        *final(b) == step_ball_spec(*old(b), slow_held, width as int, height as int),
        final(b).valid(),
{
    clamp(&mut b.velocity.magnitude, -Ball::MAX_VELOCITY, Ball::MAX_VELOCITY);
    let m1: i64 = b.velocity.magnitude;
    let disp_mag: i64 = if slow_held {
        proof {
            lemma_divt_bound(m1 * 200, 1000, 24000);
        }
        div_trunc(m1 * 200, 1000)
    } else {
        m1
    };
    let vel = AngleVec { direction: b.velocity.direction, magnitude: disp_mag };
    let (vx, vy) = vel.to_xy();
    b.x = b.x + vx;
    b.y = b.y + vy;
    slow(&mut b.velocity.magnitude, if slow_held { 300 } else { Ball::DECELERATION });
    let out_of_bounds = b.x < b.radius || b.x > width - b.radius
        || b.y < b.radius || b.y > height - b.radius;
    if out_of_bounds {
        b.velocity.direction = -b.velocity.direction;
        slow(&mut b.velocity.magnitude, if slow_held { 400 } else { Ball::BOUNCE_DECELERATION });
    }
    if b.x < b.radius {
        b.velocity.direction = if b.velocity.direction <= 0 {
            b.velocity.direction + PI_FX
        } else {
            b.velocity.direction - PI_FX
        };
        b.x = b.radius;
    } else if b.x > width - b.radius {
        b.velocity.direction = if b.velocity.direction <= 0 {
            b.velocity.direction + PI_FX
        } else {
            b.velocity.direction - PI_FX
        };
        b.x = width - b.radius;
    }
    if b.y < b.radius {
        b.y = b.radius;
    } else if b.y > height - b.radius {
        b.y = height - b.radius;
    }
}

/// A moving ball that integrates past the left wall is put back at
/// exactly `x == radius`, and the bounce costs it magnitude: what it
/// carries out of the tick is strictly below what it carried in after
/// the velocity clamp.
pub proof fn lemma_bounce_left_wall(b: Ball, slow_held: bool, w: int, h: int)
    requires
        b.valid(),
        step_x1(b, slow_held) < b.radius,
        0 < step_clamped_mag(b),
    ensures
        step_ball_spec(b, slow_held, w, h).x == b.radius,
        (step_ball_spec(b, slow_held, w, h).velocity.magnitude as int) < step_clamped_mag(b),
{
    let m1 = step_clamped_mag(b);
    let m2 = slowed(m1, friction_decel(slow_held));
    let m3 = slowed(m2, bounce_decel(slow_held));
    assert(0 <= m2 < m1);
    assert(0 <= m3 <= m2);
}

/// Direction a collision partner pushes this ball: from the partner's
/// center toward this ball's center.
pub open spec fn repulsion_direction(me: Ball, other: Ball) -> int {
    atan2_spec(me.y - other.y, me.x - other.x)
}

/// Magnitude of that push: ten pixels, scaled down by this ball's radius
/// relative to the partner's (the smaller ball gets the larger kick).
pub open spec fn repulsion_magnitude(me: Ball, other: Ball) -> int {
    divt(other.radius * 10000, me.radius as int)
}

/// The ball's direction after averaging in, one at a time and in storage
/// order, the repulsion of every colliding partner among the first `n`.
pub open spec fn resolved_direction(balls: Seq<Ball>, i: int, n: int) -> int
    decreases n,
{
    if n <= 0 {
        balls[i].velocity.direction as int
    } else {
        let prev = resolved_direction(balls, i, n - 1);
        if n - 1 != i && balls[i].collides_with(&balls[n - 1]) {
            divt(repulsion_direction(balls[i], balls[n - 1]) + prev, 2)
        } else {
            prev
        }
    }
}

/// The ball's magnitude after the same sequential averaging.
pub open spec fn resolved_magnitude(balls: Seq<Ball>, i: int, n: int) -> int
    decreases n,
{
    if n <= 0 {
        balls[i].velocity.magnitude as int
    } else {
        let prev = resolved_magnitude(balls, i, n - 1);
        if n - 1 != i && balls[i].collides_with(&balls[n - 1]) {
            divt(repulsion_magnitude(balls[i], balls[n - 1]) + prev, 2)
        } else {
            prev
        }
    }
}

/// Whether ball `i` overlaps any other ball among the first `n`.
pub open spec fn overlaps_any(balls: Seq<Ball>, i: int, n: int) -> bool {
    exists|j: int| 0 <= j < n && j != i && balls[i].collides_with(#[trigger] &balls[j])
}

/// The resolved velocities stay within the validity bounds.
pub proof fn lemma_resolved_in_range(balls: Seq<Ball>, i: int, n: int)
    requires
        0 <= i < balls.len(),
        forall|k: int| 0 <= k < balls.len() ==> (#[trigger] balls[k]).valid(),
        0 <= n <= balls.len(),
    ensures
        -PI_FX <= resolved_direction(balls, i, n) <= PI_FX,
        0 <= resolved_magnitude(balls, i, n) <= MAG_LIMIT,
    decreases n,
{
    if n > 0 {
        lemma_resolved_in_range(balls, i, n - 1);
        if n - 1 != i && balls[i].collides_with(&balls[n - 1]) {
            lemma_atan2_range(balls[i].y - balls[n - 1].y, balls[i].x - balls[n - 1].x);
            lemma_divt_bound(
                repulsion_direction(balls[i], balls[n - 1]) + resolved_direction(balls, i, n - 1),
                2,
                PI_FX as int,
            );
            lemma_divt_bound(balls[n - 1].radius * 10000, balls[i].radius as int, 42949672960000);
            lemma_divt_bound(
                repulsion_magnitude(balls[i], balls[n - 1]) + resolved_magnitude(balls, i, n - 1),
                2,
                MAG_LIMIT as int,
            );
        }
    }
}

/// What the collision pass leaves at index `i`: the snapshot ball with a
/// fresh collision flag and the sequentially averaged velocity.
pub open spec fn resolved_ball(balls: Seq<Ball>, i: int) -> Ball {
    Ball {
        velocity: AngleVec {
            direction: resolved_direction(balls, i, balls.len() as int) as i64,
            magnitude: resolved_magnitude(balls, i, balls.len() as int) as i64,
        },
        is_colliding: overlaps_any(balls, i, balls.len() as int),
        ..balls[i]
    }
}

/// The pairwise collision pass: every check reads the same pre-pass
/// snapshot, and a fresh collection is built, so one ball's resolution
/// never perturbs another's check within the tick.
pub fn resolve_collisions(balls: &Vec<Ball>) -> (out: Vec<Ball>)
    requires
        forall|k: int| 0 <= k < balls@.len() ==> (#[trigger] balls@[k]).valid(),
    ensures
        out@.len() == balls@.len(),
        forall|i: int| 0 <= i < balls@.len() ==> #[trigger] out@[i] == resolved_ball(balls@, i),
        forall|i: int| 0 <= i < balls@.len() ==> (#[trigger] out@[i]).valid(),
{
    let n = balls.len();
    let mut out: Vec<Ball> = Vec::new();
    let mut i: usize = 0;
    while i < n
        invariant
            n == balls@.len(),
            i <= n,
            forall|k: int| 0 <= k < balls@.len() ==> (#[trigger] balls@[k]).valid(),
            out@.len() == i as int,
            forall|k: int| 0 <= k < i as int ==> #[trigger] out@[k] == resolved_ball(balls@, k),
            forall|k: int| 0 <= k < i as int ==> (#[trigger] out@[k]).valid(),
        decreases n - i,
    {
        let mut me = balls[i];
        me.is_colliding = false;
        let mut j: usize = 0;
        while j < n
            invariant
                n == balls@.len(),
                i < n,
                j <= n,
                forall|k: int| 0 <= k < balls@.len() ==> (#[trigger] balls@[k]).valid(),
                me.x == balls@[i as int].x,
                me.y == balls@[i as int].y,
                me.radius == balls@[i as int].radius,
                me.color == balls@[i as int].color,
                me.is_colliding == overlaps_any(balls@, i as int, j as int),
                me.velocity.direction as int == resolved_direction(balls@, i as int, j as int),
                me.velocity.magnitude as int == resolved_magnitude(balls@, i as int, j as int),
                -PI_FX <= me.velocity.direction <= PI_FX,
                0 <= me.velocity.magnitude <= MAG_LIMIT,
            decreases n - j,
        {
            if j != i {
                let other = balls[j];
                if me.collides(&other) {
                    me.is_colliding = true;
                    let dir: i64 = atan2_fx(me.y - other.y, me.x - other.x);
                    proof {
                        lemma_divt_bound(other.radius * 10000, me.radius as int, 42949672960000);
                    }
                    let mag: i64 = div_trunc(other.radius * 10000, me.radius);
                    proof {
                        lemma_divt_bound(dir + me.velocity.direction, 2, PI_FX as int);
                        lemma_divt_bound(mag + me.velocity.magnitude, 2, MAG_LIMIT as int);
                    }
                    me.velocity.direction = div_trunc(dir + me.velocity.direction, 2);
                    me.velocity.magnitude = div_trunc(mag + me.velocity.magnitude, 2);
                }
            }
            proof {
                assert(overlaps_any(balls@, i as int, j + 1 as int)
                    == (overlaps_any(balls@, i as int, j as int)
                        || (j as int != i as int
                            && balls@[i as int].collides_with(&balls@[j as int]))));
            }
            j += 1;
        }
        out.push(me);
        proof {
            assert(me == resolved_ball(balls@, i as int));
        }
        i += 1;
    }
    out
}

/// Descending radius order: larger balls first, so the smaller ones are
/// drawn in front.
pub open spec fn sorted_by_radius_desc(s: Seq<Ball>) -> bool {
    forall|a: int, b: int|
        0 <= a <= b < s.len() ==> (#[trigger] s[a]).radius >= (#[trigger] s[b]).radius
}

/// Index of a ball of largest radius.
fn largest_radius_index(balls: &Vec<Ball>) -> (r: usize)
    requires
        balls@.len() > 0,
    ensures
        (r as int) < balls@.len(),
        forall|k: int| 0 <= k < balls@.len()
            ==> balls@[r as int].radius >= (#[trigger] balls@[k]).radius,
{
    let mut best: usize = 0;
    let mut i: usize = 1;
    while i < balls.len()
        invariant
            (best as int) < balls@.len(),
            i <= balls@.len(),
            forall|k: int| 0 <= k < i as int
                ==> balls@[best as int].radius >= (#[trigger] balls@[k]).radius,
        decreases balls@.len() - i,
    {
        if balls[i].radius > balls[best].radius {
            best = i;
        }
        i += 1;
    }
    best
}

/// Sort the balls by falling radius, keeping exactly the given balls
/// (the same multiset): what a reset does before the first tick, so the
/// draw order shows small balls in front.
pub fn sort_balls_by_radius(balls: &mut Vec<Ball>)
    ensures
        sorted_by_radius_desc(final(balls)@),
        final(balls)@.to_multiset() == old(balls)@.to_multiset(),
        final(balls)@.len() == old(balls)@.len(),
{
    let ghost orig = balls@;
    let mut out: Vec<Ball> = Vec::new();
    proof {
        broadcast use vstd::seq_lib::group_to_multiset_ensures;
        broadcast use vstd::multiset::group_multiset_axioms;
        assert(out@.to_multiset().add(balls@.to_multiset()) =~= orig.to_multiset());
    }
    while balls.len() > 0
        invariant
            sorted_by_radius_desc(out@),
            forall|a: int, b: int|
                0 <= a < out@.len() && 0 <= b < balls@.len()
                    ==> (#[trigger] out@[a]).radius >= (#[trigger] balls@[b]).radius,
            out@.to_multiset().add(balls@.to_multiset()) == orig.to_multiset(),
            out@.len() + balls@.len() == orig.len(),
        decreases balls@.len(),
    {
        let ghost out_pre = out@;
        let ghost balls_pre = balls@;
        let idx = largest_radius_index(balls);
        let b = balls.remove(idx);
        out.push(b);
        proof {
            broadcast use vstd::seq_lib::group_to_multiset_ensures;
            broadcast use vstd::multiset::group_multiset_axioms;
            assert(balls_pre.contains(b));
            assert(balls_pre.to_multiset().count(b) > 0);
            assert(balls@.to_multiset() =~= balls_pre.to_multiset().remove(b));
            assert(out@ =~= out_pre.push(b));
            assert(out@.to_multiset() =~= out_pre.to_multiset().insert(b));
            assert forall|e: Ball|
                (out@.to_multiset().add(balls@.to_multiset())).count(e)
                    == (out_pre.to_multiset().add(balls_pre.to_multiset())).count(e) by {
            }
            assert(out@.to_multiset().add(balls@.to_multiset())
                =~= out_pre.to_multiset().add(balls_pre.to_multiset()));
            assert forall|x: int, y: int|
                0 <= x <= y < out@.len() implies (out@[x]).radius >= (out@[y]).radius by {
                if y < out_pre.len() as int {
                } else {
                    assert(out@[y] == b);
                    if x < out_pre.len() as int {
                        assert(balls_pre[idx as int] == b);
                    }
                }
            }
            assert forall|x: int, y: int|
                0 <= x < out@.len() && 0 <= y < balls@.len()
                    implies (out@[x]).radius >= (balls@[y]).radius by {
                if y < idx as int {
                    assert(balls@[y] == balls_pre[y]);
                } else {
                    assert(balls@[y] == balls_pre[y + 1]);
                }
                if x < out_pre.len() as int {
                } else {
                    assert(out@[x] == b);
                }
            }
        }
    }
    proof {
        broadcast use vstd::seq_lib::group_to_multiset_ensures;
        broadcast use vstd::multiset::group_multiset_axioms;
        assert(balls@.to_multiset().len() == 0);
        assert(out@.to_multiset().add(balls@.to_multiset()) =~= out@.to_multiset());
    }
    *balls = out;
}

/// Simulation state: the ball collection, in a draw order fixed at
/// creation, and the optional index of the grabbed ball.
pub struct Game {
    /// All balls in game
    pub balls: Vec<Ball>,
    /// Active ball, which is selected (an index into `balls`)
    pub active_ball: Option<usize>,
}

/// The balls after the snap modifier is applied: while a ball is grabbed
/// and the modifier is held, its center goes straight to the pointer.
pub open spec fn snapped_balls(balls: Seq<Ball>, active: Option<usize>, input: Input) -> Seq<Ball> {
    match active {
        Some(a) => if input.snap_held && (a as int) < balls.len() {
            balls.update(a as int, (Ball { x: input.pointer_x, y: input.pointer_y, ..balls[a as int] }))
        } else {
            balls
        },
        None => balls,
    }
}

/// The balls after a release launches the grabbed ball.
pub open spec fn released_balls(balls: Seq<Ball>, active: Option<usize>, input: Input) -> Seq<Ball> {
    match active {
        Some(a) => if (a as int) < balls.len() {
            let b = balls[a as int];
            balls.update(a as int, (Ball {
                velocity: AngleVec {
                    direction: launch_direction(b.x as int, b.y as int, input.pointer_x as int, input.pointer_y as int) as i64,
                    magnitude: launch_magnitude(b.x as int, b.y as int, input.pointer_x as int, input.pointer_y as int) as i64,
                },
                ..b
            }))
        } else {
            balls
        },
        None => balls,
    }
}

/// The balls handed to the collision pass: input phase, then one
/// integration step for every ball.
pub open spec fn pre_collision_balls(balls: Seq<Ball>, active: Option<usize>, input: Input, w: int, h: int) -> Seq<Ball> {
    let snapped = snapped_balls(balls, active, input);
    let launched = if !input.pressed && input.released {
        released_balls(snapped, active, input)
    } else {
        snapped
    };
    launched.map_values(|b: Ball| step_ball_spec(b, input.slow_held, w, h))
}

impl Game {
    /// Every ball within bounds, and the grabbed index, if any, in range.
    pub open spec fn valid(self) -> bool {
        &&& forall|k: int| 0 <= k < self.balls@.len() ==> (#[trigger] self.balls@[k]).valid()
        &&& match self.active_ball {
            Some(a) => (a as int) < self.balls@.len(),
            None => true,
        }
    }

    /// A fresh simulation over the given balls, with nothing grabbed.
    pub fn new(balls: Vec<Ball>) -> (g: Game)
        requires
            forall|k: int| 0 <= k < balls@.len() ==> (#[trigger] balls@[k]).valid(),
        ensures
            g.balls == balls,
            g.active_ball is None,
            g.valid(),
    {
        Game { balls, active_ball: None }
    }

    /// Atomically replace the whole collection and drop any grab: the
    /// one discontinuity the simulation knows. No index from before a
    /// reset is valid after it.
    pub fn reset(&mut self, balls: Vec<Ball>)
        requires
            forall|k: int| 0 <= k < balls@.len() ==> (#[trigger] balls@[k]).valid(),
        ensures
            final(self).balls == balls,
            final(self).active_ball is None,
            final(self).valid(),
    {
        self.balls = balls;
        self.active_ball = None;
    }

    /// One simulation tick against the input snapshot and canvas size:
    /// snap, grab or launch, integrate every ball, then resolve
    /// collisions into a fresh collection, published atomically.
    pub fn update(&mut self, input: Input, width: i64, height: i64)
        requires
            old(self).valid(),
            input.valid(),
            0 <= width <= CANVAS_LIMIT,
            0 <= height <= CANVAS_LIMIT,
        ensures
            final(self).valid(),
            final(self).balls@.len() == old(self).balls@.len(),
            ({
                let staged = pre_collision_balls(
                    old(self).balls@, old(self).active_ball, input, width as int, height as int);
                forall|i: int| 0 <= i < staged.len()
                    ==> #[trigger] final(self).balls@[i] == resolved_ball(staged, i)
            }),
            input.pressed ==> match final(self).active_ball {
                Some(i) => first_hit_from(
                    snapped_balls(old(self).balls@, old(self).active_ball, input),
                    input.pointer_x as int, input.pointer_y as int, 0) == Some(i as int),
                None => first_hit_from(
                    snapped_balls(old(self).balls@, old(self).active_ball, input),
                    input.pointer_x as int, input.pointer_y as int, 0) is None,
            },
            !input.pressed && input.released ==> final(self).active_ball is None,
            !input.pressed && !input.released ==> final(self).active_ball == old(self).active_ball,
    {
        // Move the grabbed ball to the pointer while the snap modifier is held.
        if input.snap_held {
            if let Some(a) = self.active_ball {
                let mut b = self.balls[a];
                b.x = input.pointer_x;
                b.y = input.pointer_y;
                self.balls[a] = b;
            }
        }
        proof {
            assert(self.balls@ =~= snapped_balls(old(self).balls@, old(self).active_ball, input));
        }
        let ghost snapped = self.balls@;

        // Grab on press; launch and let go on release.
        if input.pressed {
            self.active_ball = select_ball(&self.balls, input.pointer_x, input.pointer_y);
            proof {
                lemma_first_hit_in_range(snapped, input.pointer_x as int, input.pointer_y as int, 0);
            }
        } else if input.released {
            if let Some(a) = self.active_ball {
                let b = self.balls[a];
                let v = launch_velocity(b.x, b.y, input.pointer_x, input.pointer_y);
                let mut nb = b;
                nb.velocity = v;
                self.balls[a] = nb;
            }
            self.active_ball = None;
            proof {
                assert(self.balls@ =~= released_balls(snapped, old(self).active_ball, input));
            }
        }
        let ghost launched = self.balls@;
        let ghost active_after_input = self.active_ball;

        // Integrate every ball against the current canvas.
        let n = self.balls.len();
        let mut i: usize = 0;
        while i < n
            invariant
                self.active_ball == active_after_input,
                n == self.balls@.len(),
                i <= n,
                0 <= width <= CANVAS_LIMIT,
                0 <= height <= CANVAS_LIMIT,
                launched.len() == n,
                forall|k: int| 0 <= k < n ==> (#[trigger] launched[k]).valid(),
                forall|k: int| i as int <= k < n ==> #[trigger] self.balls@[k] == launched[k],
                forall|k: int| 0 <= k < i as int
                    ==> #[trigger] self.balls@[k]
                        == step_ball_spec(launched[k], input.slow_held, width as int, height as int),
                forall|k: int| 0 <= k < i as int ==> (#[trigger] self.balls@[k]).valid(),
            decreases n - i,
        {
            let mut b = self.balls[i];
            step_ball(&mut b, input.slow_held, width, height);
            self.balls[i] = b;
            i += 1;
        }
        proof {
            assert(self.balls@ =~= launched.map_values(
                |b: Ball| step_ball_spec(b, input.slow_held, width as int, height as int)));
        }

        // Resolve collisions against the integrated snapshot and publish
        // the fresh collection.
        let resolved = resolve_collisions(&self.balls);
        self.balls = resolved;
    }
}

} // verus!
