use breakout::ball::Ball;
use breakout::collision::{resolve_contact, ColliderKind};
use breakout::geometry::{Aabb, Vec2};

fn ball_at(x: i64, y: i64, hx: i64, hy: i64) -> Ball {
    Ball::new(Vec2::new(x, y), Vec2::new(hx, hy), 500, 10)
}

fn brick() -> Aabb {
    Aabb::new(Vec2::new(0, 0), Vec2::new(40, 10))
}

#[test]
fn degenerate_normal_points_up() {
    // the ball's center lies on the box: its own nearest point
    let c = resolve_contact(&ball_at(5, 10, 3, -4), &brick(), ColliderKind::Brick);
    assert_eq!(c.nudge, Vec2::new(0, 10));
    assert_eq!(c.heading, Vec2::new(3, 4));
}

#[test]
fn hit_from_below_reflects_y() {
    let c = resolve_contact(&ball_at(0, -16, 2, 5), &brick(), ColliderKind::Brick);
    assert_eq!(c.heading, Vec2::new(2, -5));
    assert_eq!(c.nudge, Vec2::new(0, -4));
}

#[test]
fn hit_from_the_side_reflects_x() {
    let c = resolve_contact(&ball_at(47, 0, -5, 1), &brick(), ColliderKind::Brick);
    assert_eq!(c.heading, Vec2::new(5, 1));
    assert_eq!(c.nudge, Vec2::new(3, 0));
}

#[test]
fn equal_normal_components_reflect_y() {
    // offset (4, 4) from the corner (40, 10): a tie goes to the y axis
    let c = resolve_contact(&ball_at(44, 14, -1, -1), &brick(), ColliderKind::Brick);
    assert_eq!(c.heading, Vec2::new(-1, 1));
    // distance isqrt(32) = 5, overlap 5: nudge 4 * 5 / 5 on each axis
    assert_eq!(c.nudge, Vec2::new(4, 4));
}

#[test]
fn paddle_center_hit_goes_straight_up() {
    let paddle = Aabb::new(Vec2::new(0, -250), Vec2::new(50, 11));
    let b = ball_at(0, -235, 1, -1);
    let c = resolve_contact(&b, &paddle, ColliderKind::Paddle);
    assert_eq!(c.heading, Vec2::new(0, 250));
    assert_eq!(c.nudge, Vec2::new(0, 6));
    assert_eq!(b.speed, 500);
}

#[test]
fn paddle_edge_hit_steers() {
    // relative impact 1: aim (0.8, 1), scaled by 5 * 50
    let paddle = Aabb::new(Vec2::new(0, -250), Vec2::new(50, 11));
    let c = resolve_contact(&ball_at(50, -235, 1, -1), &paddle, ColliderKind::Paddle);
    assert_eq!(c.heading, Vec2::new(200, 250));
    let c = resolve_contact(&ball_at(-25, -235, 1, -1), &paddle, ColliderKind::Paddle);
    assert_eq!(c.heading, Vec2::new(-100, 250));
}
