use breakout::ball::{integrate, reflect_walls, speed_up, Ball};
use breakout::geometry::Vec2;

fn ball(x: i64, y: i64, hx: i64, hy: i64, speed: i64) -> Ball {
    Ball::new(Vec2::new(x, y), Vec2::new(hx, hy), speed, 10)
}

#[test]
fn integrate_along_an_axis() {
    let mut b = ball(0, 0, 0, 5, 600);
    integrate(&mut b, 60);
    assert_eq!(b.pos, Vec2::new(0, 10));
    assert_eq!(b.speed, 600);
}

#[test]
fn integrate_diagonally() {
    // heading (3, -4) has length 5: velocity (360, -480) at speed 600
    let mut b = ball(100, 100, 3, -4, 600);
    integrate(&mut b, 60);
    assert_eq!(b.pos, Vec2::new(106, 92));
}

#[test]
fn integrate_rounds_toward_zero() {
    // velocity (-250, 0) over 1/120 s is -2.08
    let mut b = ball(0, 0, -1, 0, 250);
    integrate(&mut b, 120);
    assert_eq!(b.pos, Vec2::new(-2, 0));
}

#[test]
fn right_wall_sends_ball_left() {
    let mut b = ball(395, 0, 3, 2, 100);
    reflect_walls(&mut b, Vec2::new(400, 300));
    assert_eq!(b.heading, Vec2::new(-3, 2));
}

#[test]
fn wall_reflection_is_sign_forcing() {
    // already moving away from the right wall: stays moving away
    let mut b = ball(395, 0, -3, 2, 100);
    reflect_walls(&mut b, Vec2::new(400, 300));
    assert_eq!(b.heading, Vec2::new(-3, 2));
    reflect_walls(&mut b, Vec2::new(400, 300));
    assert_eq!(b.heading, Vec2::new(-3, 2));
}

#[test]
fn bottom_and_left_walls_reflect() {
    let mut b = ball(-390, -295, -3, -2, 100);
    reflect_walls(&mut b, Vec2::new(400, 300));
    assert_eq!(b.heading, Vec2::new(3, 2));
}

#[test]
fn top_wall_reflects_only_y() {
    let mut b = ball(0, 290, 1, 1, 100);
    reflect_walls(&mut b, Vec2::new(400, 300));
    assert_eq!(b.heading, Vec2::new(1, -1));
}

#[test]
fn ball_away_from_walls_keeps_heading() {
    let mut b = ball(0, 0, 1, 1, 100);
    reflect_walls(&mut b, Vec2::new(400, 300));
    assert_eq!(b.heading, Vec2::new(1, 1));
}

#[test]
fn speed_up_by_a_tenth() {
    assert_eq!(speed_up(300, 750), 330);
    assert_eq!(speed_up(424, 750), 466);
}

#[test]
fn speed_up_stops_at_cap() {
    assert_eq!(speed_up(700, 750), 750);
    assert_eq!(speed_up(750, 750), 750);
    assert_eq!(speed_up(0, 750), 0);
}
