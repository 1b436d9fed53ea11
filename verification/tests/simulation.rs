//! Tick-level checks of the simulation: grabbing, snapping, launching,
//! integration with boundary reflection, and the collision pass.

use balls_game::{Ball, Game, Input};
use balls_game::game::{sort_balls_by_radius, step_ball};

const WIDTH: i64 = 1_600_000;
const HEIGHT: i64 = 900_000;

fn idle_input() -> Input {
    Input {
        pointer_x: 0,
        pointer_y: 0,
        pressed: false,
        released: false,
        snap_held: false,
        slow_held: false,
    }
}

#[test]
fn a_leftward_ball_bounces_off_the_left_wall() {
    // A ball 5 pixels in with a 30 pixel radius, moving left at 50
    // pixels per tick on a 1600 pixel canvas: one tick clamps it to
    // x == radius, turns the direction around, and costs it both the
    // friction and the bounce deceleration.
    let mut b = Ball::new(5_000, 450_000, 30_000, 0);
    b.velocity.direction = 3_142;
    b.velocity.magnitude = 50_000;
    step_ball(&mut b, false, WIDTH, HEIGHT);
    assert_eq!(b.x, 30_000);
    assert_eq!(b.y, 450_000);
    assert_eq!(b.velocity.direction, 0);
    assert_eq!(b.velocity.magnitude, 46_500);
}

#[test]
fn a_rightward_ball_just_moves_and_rubs_off_friction() {
    let mut b = Ball::new(300_000, 450_000, 30_000, 0);
    b.velocity.magnitude = 50_000;
    step_ball(&mut b, false, WIDTH, HEIGHT);
    assert_eq!(b.x, 350_000);
    assert_eq!(b.y, 450_000);
    assert_eq!(b.velocity.direction, 0);
    assert_eq!(b.velocity.magnitude, 48_500);
}

#[test]
fn slow_mode_scales_the_displacement_and_the_friction() {
    let mut b = Ball::new(300_000, 450_000, 30_000, 0);
    b.velocity.magnitude = 50_000;
    step_ball(&mut b, true, WIDTH, HEIGHT);
    // One fifth of the displacement, one fifth of the friction.
    assert_eq!(b.x, 310_000);
    assert_eq!(b.velocity.magnitude, 49_700);
}

#[test]
fn the_velocity_clamp_caps_a_runaway_magnitude() {
    let mut b = Ball::new(300_000, 450_000, 30_000, 0);
    b.velocity.magnitude = 500_000;
    step_ball(&mut b, false, WIDTH, HEIGHT);
    // Clamped to 120 pixels per tick before moving, then friction.
    assert_eq!(b.x, 420_000);
    assert_eq!(b.velocity.magnitude, 118_500);
}

#[test]
fn grabbing_then_releasing_left_launches_the_ball_rightward() {
    // Press inside the ball's bounding square, release 100 pixels to its
    // left: the launch points right (toward the ball), 100 pixels scaled
    // by the 0.3 acceleration, and one tick of friction then applies.
    let balls = vec![Ball::new(300_000, 300_000, 30_000, 0)];
    let mut game = Game::new(balls);

    let mut press = idle_input();
    press.pointer_x = 300_000;
    press.pointer_y = 300_000;
    press.pressed = true;
    game.update(press, WIDTH, HEIGHT);
    assert_eq!(game.active_ball, Some(0));

    let mut release = idle_input();
    release.pointer_x = 200_000;
    release.pointer_y = 300_000;
    release.released = true;
    game.update(release, WIDTH, HEIGHT);
    assert_eq!(game.active_ball, None);
    assert_eq!(game.balls[0].velocity.direction, 0);
    // Launch magnitude 100 * 0.3 = 30 pixels, minus 1.5 friction.
    assert_eq!(game.balls[0].velocity.magnitude, 28_500);
    // The ball already moved one tick's worth to the right.
    assert_eq!(game.balls[0].x, 330_000);
}

#[test]
fn a_press_outside_every_ball_grabs_nothing() {
    let balls = vec![Ball::new(300_000, 300_000, 30_000, 0)];
    let mut game = Game::new(balls);
    let mut press = idle_input();
    press.pointer_x = 800_000;
    press.pointer_y = 800_000;
    press.pressed = true;
    game.update(press, WIDTH, HEIGHT);
    assert_eq!(game.active_ball, None);
}

#[test]
fn a_press_inside_two_balls_grabs_the_first_in_storage_order() {
    let balls = vec![
        Ball::new(300_000, 300_000, 50_000, 0),
        Ball::new(310_000, 300_000, 50_000, 0),
    ];
    let mut game = Game::new(balls);
    let mut press = idle_input();
    press.pointer_x = 305_000;
    press.pointer_y = 300_000;
    press.pressed = true;
    game.update(press, WIDTH, HEIGHT);
    assert_eq!(game.active_ball, Some(0));
}

#[test]
fn the_snap_modifier_drags_the_grabbed_ball_to_the_pointer() {
    let balls = vec![Ball::new(300_000, 300_000, 30_000, 0)];
    let mut game = Game::new(balls);

    let mut press = idle_input();
    press.pointer_x = 300_000;
    press.pointer_y = 300_000;
    press.pressed = true;
    game.update(press, WIDTH, HEIGHT);
    assert_eq!(game.active_ball, Some(0));

    let mut snap = idle_input();
    snap.pointer_x = 700_000;
    snap.pointer_y = 400_000;
    snap.snap_held = true;
    game.update(snap, WIDTH, HEIGHT);
    assert_eq!(game.balls[0].x, 700_000);
    assert_eq!(game.balls[0].y, 400_000);
    assert_eq!(game.active_ball, Some(0));
}

#[test]
fn without_a_grab_the_snap_modifier_does_nothing() {
    let balls = vec![Ball::new(300_000, 300_000, 30_000, 0)];
    let mut game = Game::new(balls);
    let mut snap = idle_input();
    snap.pointer_x = 700_000;
    snap.pointer_y = 400_000;
    snap.snap_held = true;
    game.update(snap, WIDTH, HEIGHT);
    assert_eq!(game.balls[0].x, 300_000);
    assert_eq!(game.balls[0].y, 300_000);
}

#[test]
fn overlapping_balls_are_flagged_and_kicked_apart() {
    // Ball 0 (radius 20) and ball 1 (radius 10), centers 15 pixels apart
    // on the x axis, both at rest: both are flagged, ball 0 gets half of
    // a 5 pixel kick pointing left (half turn), ball 1 half of a 20
    // pixel kick pointing right.
    let balls = vec![
        Ball::new(100_000, 100_000, 20_000, 0),
        Ball::new(115_000, 100_000, 10_000, 0),
    ];
    let mut game = Game::new(balls);
    game.update(idle_input(), WIDTH, HEIGHT);
    assert!(game.balls[0].is_colliding);
    assert!(game.balls[1].is_colliding);
    assert_eq!(game.balls[0].velocity.direction, 1_571);
    assert_eq!(game.balls[0].velocity.magnitude, 2_500);
    assert_eq!(game.balls[1].velocity.direction, 0);
    assert_eq!(game.balls[1].velocity.magnitude, 10_000);
}

#[test]
fn separated_balls_lose_the_collision_flag() {
    let balls = vec![
        Ball::new(100_000, 100_000, 20_000, 0),
        Ball::new(500_000, 500_000, 10_000, 0),
    ];
    let mut game = Game::new(balls);
    game.update(idle_input(), WIDTH, HEIGHT);
    assert!(!game.balls[0].is_colliding);
    assert!(!game.balls[1].is_colliding);
}

#[test]
fn reset_replaces_the_collection_and_drops_the_grab() {
    let balls = vec![Ball::new(300_000, 300_000, 30_000, 0)];
    let mut game = Game::new(balls);
    let mut press = idle_input();
    press.pointer_x = 300_000;
    press.pointer_y = 300_000;
    press.pressed = true;
    game.update(press, WIDTH, HEIGHT);
    assert_eq!(game.active_ball, Some(0));

    let fresh = vec![
        Ball::new(400_000, 400_000, 40_000, 1),
        Ball::new(600_000, 200_000, 50_000, 2),
    ];
    game.reset(fresh);
    assert_eq!(game.active_ball, None);
    assert_eq!(game.balls.len(), 2);
    assert_eq!(game.balls[0].x, 400_000);
    assert_eq!(game.balls[1].radius, 50_000);
}

#[test]
fn sorting_puts_the_largest_balls_first() {
    let mut balls = vec![
        Ball::new(1_000, 1_000, 30_000, 1),
        Ball::new(2_000, 2_000, 80_000, 2),
        Ball::new(3_000, 3_000, 10_000, 3),
        Ball::new(4_000, 4_000, 50_000, 4),
    ];
    sort_balls_by_radius(&mut balls);
    assert_eq!(balls.len(), 4);
    assert_eq!(balls[0].radius, 80_000);
    assert_eq!(balls[1].radius, 50_000);
    assert_eq!(balls[2].radius, 30_000);
    assert_eq!(balls[3].radius, 10_000);
    // The same balls, recognizable by color, just reordered.
    assert_eq!(balls[0].color, 2);
    assert_eq!(balls[1].color, 4);
    assert_eq!(balls[2].color, 1);
    assert_eq!(balls[3].color, 3);
}

#[test]
fn the_bottom_wall_clamps_position_but_keeps_the_direction() {
    // The vertical clamp moves the ball back in and the out-of-bounds
    // check negates the direction, but no half turn is added: the
    // horizontal and vertical walls are deliberately asymmetric.
    let mut b = Ball::new(800_000, 860_000, 30_000, 0);
    b.velocity.direction = 1_571;
    b.velocity.magnitude = 50_000;
    step_ball(&mut b, false, WIDTH, HEIGHT);
    assert_eq!(b.x, 800_000);
    assert_eq!(b.y, 870_000);
    assert_eq!(b.velocity.direction, -1_571);
    assert_eq!(b.velocity.magnitude, 46_500);
}

#[test]
fn a_press_and_release_on_the_same_tick_only_grabs() {
    let balls = vec![Ball::new(300_000, 300_000, 30_000, 0)];
    let mut game = Game::new(balls);
    let mut both = idle_input();
    both.pointer_x = 300_000;
    both.pointer_y = 300_000;
    both.pressed = true;
    both.released = true;
    game.update(both, WIDTH, HEIGHT);
    assert_eq!(game.active_ball, Some(0));
    assert_eq!(game.balls[0].velocity.magnitude, 0);
}

#[test]
fn a_tick_never_changes_the_ball_count() {
    let balls = vec![
        Ball::new(100_000, 100_000, 20_000, 0),
        Ball::new(115_000, 100_000, 10_000, 0),
        Ball::new(800_000, 450_000, 60_000, 0),
    ];
    let mut game = Game::new(balls);
    game.update(idle_input(), WIDTH, HEIGHT);
    assert_eq!(game.balls.len(), 3);
}

#[test]
fn ticks_wind_a_free_ball_down_to_rest() {
    let mut b = Ball::new(800_000, 450_000, 30_000, 0);
    b.velocity.magnitude = 4_000;
    let balls = vec![b];
    let mut game = Game::new(balls);
    game.update(idle_input(), WIDTH, HEIGHT);
    assert_eq!(game.balls[0].velocity.magnitude, 2_500);
    game.update(idle_input(), WIDTH, HEIGHT);
    assert_eq!(game.balls[0].velocity.magnitude, 1_000);
    game.update(idle_input(), WIDTH, HEIGHT);
    assert_eq!(game.balls[0].velocity.magnitude, 0);
    let x = game.balls[0].x;
    game.update(idle_input(), WIDTH, HEIGHT);
    assert_eq!(game.balls[0].x, x);
}
