//! Unit-level checks of the scalar helpers, the conversions, and the
//! overlap test, on concrete fixed-point values (1000 units per pixel).

use balls_game::{clamp, slow, AngleVec, Ball, Collides};
use balls_game::trig::isqrt;

#[test]
fn clamp_leaves_inside_values_alone() {
    let mut v: i64 = 500;
    clamp(&mut v, -1000, 1000);
    assert_eq!(v, 500);
}

#[test]
fn clamp_pins_to_the_upper_bound() {
    let mut v: i64 = 150_000;
    clamp(&mut v, -120_000, 120_000);
    assert_eq!(v, 120_000);
}

#[test]
fn clamp_pins_to_the_lower_bound() {
    let mut v: i64 = -150_000;
    clamp(&mut v, -120_000, 120_000);
    assert_eq!(v, -120_000);
}

#[test]
fn slow_subtracts_from_a_positive_value() {
    let mut v: i64 = 50_000;
    slow(&mut v, 1_500);
    assert_eq!(v, 48_500);
}

#[test]
fn slow_adds_to_a_negative_value() {
    let mut v: i64 = -50_000;
    slow(&mut v, 1_500);
    assert_eq!(v, -48_500);
}

#[test]
fn slow_zeroes_a_value_smaller_than_the_deceleration() {
    let mut v: i64 = 1_000;
    slow(&mut v, 1_500);
    assert_eq!(v, 0);
}

#[test]
fn slow_zeroes_a_value_equal_to_the_deceleration() {
    let mut v: i64 = 1_500;
    slow(&mut v, 1_500);
    assert_eq!(v, 0);
}

#[test]
fn slow_never_flips_the_sign() {
    let mut v: i64 = -800;
    slow(&mut v, 1_500);
    assert_eq!(v, 0);
}

#[test]
fn isqrt_is_exact_on_squares() {
    assert_eq!(isqrt(0), 0);
    assert_eq!(isqrt(1), 1);
    assert_eq!(isqrt(144), 12);
    assert_eq!(isqrt(10_000_000_000), 100_000);
    assert_eq!(isqrt(99), 9);
}

#[test]
fn from_xy_on_the_positive_x_axis_points_right() {
    let v = AngleVec::from_xy(100_000, 0);
    assert_eq!(v.direction, 0);
    assert_eq!(v.magnitude, 100_000);
}

#[test]
fn from_xy_on_the_negative_x_axis_points_back() {
    let v = AngleVec::from_xy(-100_000, 0);
    assert_eq!(v.direction, 3_142);
    assert_eq!(v.magnitude, 100_000);
}

#[test]
fn from_xy_of_a_pythagorean_triple_has_the_exact_length() {
    // 300 and 400 pixels give a 500 pixel hypotenuse.
    let v = AngleVec::from_xy(300_000, 400_000);
    assert_eq!(v.magnitude, 500_000);
}

#[test]
fn to_xy_of_a_rightward_vector_is_exact() {
    let v = AngleVec { direction: 0, magnitude: 75_000 };
    let (x, y) = v.to_xy();
    assert_eq!(x, 75_000);
    assert_eq!(y, 0);
}

#[test]
fn to_xy_of_a_leftward_vector_is_exact() {
    let v = AngleVec { direction: 3_142, magnitude: 75_000 };
    let (x, y) = v.to_xy();
    assert_eq!(x, -75_000);
    assert_eq!(y, 0);
}

#[test]
fn round_trip_through_polar_form_stays_within_tolerance() {
    // A general direction: the quadratic approximations may be off by
    // under a percent, so allow four pixels on a 500 pixel vector.
    let v = AngleVec::from_xy(300_000, 400_000);
    let (x, y) = v.to_xy();
    assert!((x - 300_000).abs() <= 4_000, "x came back as {x}");
    assert!((y - 400_000).abs() <= 4_000, "y came back as {y}");
}

#[test]
fn round_trip_on_the_axes_is_exact() {
    let v = AngleVec::from_xy(0, -250_000);
    assert_eq!(v.direction, -1_571);
    let (x, y) = v.to_xy();
    assert_eq!(x, 0);
    assert_eq!(y, -250_000);
}

#[test]
fn new_ball_starts_at_rest() {
    let b = Ball::new(300_000, 300_000, 30_000, 0xff0000);
    assert_eq!(b.x, 300_000);
    assert_eq!(b.y, 300_000);
    assert_eq!(b.radius, 30_000);
    assert_eq!(b.color, 0xff0000);
    assert_eq!(b.velocity.direction, 0);
    assert_eq!(b.velocity.magnitude, 0);
    assert!(!b.is_colliding);
}

#[test]
fn balls_touching_within_the_radius_sum_collide() {
    // Centers 15 pixels apart, radii 10 and 10: 225 <= 400.
    let a = Ball::new(0, 0, 10_000, 0);
    let b = Ball::new(15_000, 0, 10_000, 0);
    assert!(a.collides(&b));
}

#[test]
fn balls_farther_than_the_radius_sum_do_not_collide() {
    // Centers 25 pixels apart, radii 10 and 10: 625 > 400.
    let a = Ball::new(0, 0, 10_000, 0);
    let b = Ball::new(25_000, 0, 10_000, 0);
    assert!(!a.collides(&b));
}

#[test]
fn overlap_is_symmetric_on_concrete_balls() {
    let a = Ball::new(100_000, 120_000, 30_000, 0);
    let b = Ball::new(130_000, 100_000, 20_000, 0);
    assert_eq!(a.collides(&b), b.collides(&a));
    let c = Ball::new(500_000, 500_000, 10_000, 0);
    assert_eq!(a.collides(&c), c.collides(&a));
}

#[test]
fn touching_exactly_at_the_radius_sum_counts_as_collision() {
    // Centers 20 pixels apart, radii 10 and 10: 400 <= 400.
    let a = Ball::new(0, 0, 10_000, 0);
    let b = Ball::new(20_000, 0, 10_000, 0);
    assert!(a.collides(&b));
}
