use breakout::ball::Ball;
use breakout::geometry::{Aabb, Vec2};
use breakout::state::{splash_timer, toggle_pause, GameState, Session};
use breakout::world::{Brick, CollisionEvent, Config, PaddleInput, Target, World};

/// A 800 x 600 pixel field in thousandths of a pixel.
fn field() -> Vec2 {
    Vec2::new(400_000, 300_000)
}

fn config(rows: usize, columns: usize) -> Config {
    Config {
        rows,
        columns,
        gutter: 10_000,
        gap: 5_000,
        brick_height: 20_000,
        paddle_half: Vec2::new(50_000, 11_000),
        paddle_lift: 50_000,
        paddle_speed: 600_000,
        ball_radius: 10_000,
        ball_heading: Vec2::new(1_000_000, 1_000_000),
        ball_speed: 424_264,
        ball_lift: 70_000,
        speed_cap: 750_000,
    }
}

/// A world with one brick straight above a ball that moves up.
fn one_brick_world(ball_y: i64) -> World {
    let brick = Brick { bounds: Aabb::new(Vec2::new(0, 100), Vec2::new(40, 10)), alive: true };
    let ball = Ball::new(Vec2::new(0, ball_y), Vec2::new(0, 1), 600, 10);
    let paddle = Aabb::new(Vec2::new(0, -250), Vec2::new(50, 11));
    World::from_parts(Vec2::new(400, 300), paddle, ball, vec![brick], 750, 600)
}

const NO_KEYS: PaddleInput = PaddleInput::Keys { left: false, right: false };

#[test]
fn new_session_lays_out_the_grid() {
    let w = World::new(field(), &config(5, 20));
    assert_eq!(w.brick_slots(), 100);
    assert_eq!(w.brick_count(), 100);
    // half width: (800000 - 20000 - 19 * 5000) / 40
    let first = w.brick(0).bounds;
    assert_eq!(first.half, Vec2::new(17_125, 10_000));
    assert_eq!(first.center, Vec2::new(-372_875, 280_000));
    let second_row = w.brick(21).bounds;
    assert_eq!(second_row.center, Vec2::new(-333_625, 255_000));
    assert_eq!(w.paddle().center, Vec2::new(0, -250_000));
    assert_eq!(w.ball().pos, Vec2::new(0, -230_000));
    assert_eq!(w.ball().speed, 424_264);
}

#[test]
fn empty_grid() {
    let w = World::new(field(), &config(0, 20));
    assert_eq!(w.brick_slots(), 0);
    assert_eq!(w.brick_count(), 0);
}

#[test]
fn brick_event_despawns_nudges_and_speeds_up() {
    let mut w = one_brick_world(85);
    let e = CollisionEvent { target: Target::Brick(0), nudge: Vec2::new(0, -5) };
    w.apply_event(e);
    assert_eq!(w.brick_count(), 0);
    assert!(!w.brick(0).alive);
    assert_eq!(w.ball().pos, Vec2::new(0, 80));
    assert_eq!(w.ball().speed, 660);
}

#[test]
fn second_event_for_a_gone_brick_changes_nothing() {
    let mut w = one_brick_world(85);
    let e = CollisionEvent { target: Target::Brick(0), nudge: Vec2::new(0, -5) };
    w.apply_event(e);
    let ball = w.ball();
    w.apply_event(e);
    assert_eq!(w.ball(), ball);
    assert_eq!(w.brick_count(), 0);
}

#[test]
fn event_for_no_slot_changes_nothing() {
    let mut w = one_brick_world(85);
    w.apply_event(CollisionEvent { target: Target::Brick(7), nudge: Vec2::new(0, -5) });
    assert_eq!(w.ball().speed, 600);
    assert_eq!(w.brick_count(), 1);
}

#[test]
fn paddle_event_nudges_and_speeds_up() {
    let mut w = one_brick_world(85);
    w.apply_event(CollisionEvent { target: Target::Paddle, nudge: Vec2::new(1, 2) });
    assert_eq!(w.ball().pos, Vec2::new(1, 87));
    assert_eq!(w.ball().speed, 660);
    assert_eq!(w.brick_count(), 1);
}

#[test]
fn tick_hits_brick_once() {
    // moves 10 up to y = 85: 5 below the brick's bottom edge at 90
    let mut w = one_brick_world(75);
    w.tick(NO_KEYS, 60);
    assert_eq!(w.brick_count(), 0);
    let b = w.ball();
    assert_eq!(b.heading, Vec2::new(0, -1));
    assert_eq!(b.pos, Vec2::new(0, 80));
    assert_eq!(b.speed, 660);
    // the next tick finds no brick to hit
    w.tick(NO_KEYS, 60);
    assert_eq!(w.ball().speed, 660);
    assert_eq!(w.ball().pos, Vec2::new(0, 69));
}

#[test]
fn tick_without_contact_only_moves() {
    let mut w = one_brick_world(0);
    w.tick(PaddleInput::Keys { left: false, right: true }, 60);
    assert_eq!(w.ball().pos, Vec2::new(0, 10));
    assert_eq!(w.ball().speed, 600);
    assert_eq!(w.paddle().center, Vec2::new(10, -250));
    assert_eq!(w.brick_count(), 1);
}

#[test]
fn tick_with_pointer_input() {
    let mut w = one_brick_world(0);
    w.tick(PaddleInput::Pointer(Some(100)), 60);
    assert_eq!(w.paddle().center, Vec2::new(100, -250));
    w.tick(PaddleInput::Pointer(Some(390)), 60);
    assert_eq!(w.paddle().center, Vec2::new(100, -250));
    w.tick(PaddleInput::Pointer(None), 60);
    assert_eq!(w.paddle().center, Vec2::new(100, -250));
}

#[test]
fn bottom_wall_reflects_the_ball() {
    let paddle = Aabb::new(Vec2::new(300, -250), Vec2::new(50, 11));
    let ball = Ball::new(Vec2::new(0, -285), Vec2::new(0, -1), 600, 10);
    let mut w = World::from_parts(Vec2::new(400, 300), paddle, ball, vec![], 750, 600);
    w.tick(NO_KEYS, 60);
    assert_eq!(w.ball().pos, Vec2::new(0, -295));
    assert_eq!(w.ball().heading, Vec2::new(0, 1));
    assert_eq!(w.ball().speed, 600);
}

#[test]
fn splash_gives_way_to_play() {
    assert_eq!(splash_timer(GameState::Splash, 1_999, 2_000), GameState::Splash);
    assert_eq!(splash_timer(GameState::Splash, 2_000, 2_000), GameState::Play);
    assert_eq!(splash_timer(GameState::Pause, 5_000, 2_000), GameState::Pause);
}

#[test]
fn pause_toggles() {
    assert_eq!(toggle_pause(GameState::Play), GameState::Pause);
    assert_eq!(toggle_pause(GameState::Pause), GameState::Play);
    assert_eq!(toggle_pause(GameState::Splash), GameState::Splash);
    assert_eq!(toggle_pause(GameState::Menu), GameState::Menu);
}

#[test]
fn session_runs_only_in_play() {
    let mut s = Session::new(one_brick_world(0));
    s.step(NO_KEYS, 60);
    assert_eq!(s.world.ball().pos, Vec2::new(0, 0));
    s.state = GameState::Play;
    s.step(NO_KEYS, 60);
    assert_eq!(s.world.ball().pos, Vec2::new(0, 10));
    s.state = toggle_pause(s.state);
    s.step(NO_KEYS, 60);
    assert_eq!(s.world.ball().pos, Vec2::new(0, 10));
    s.state = toggle_pause(s.state);
    s.step(NO_KEYS, 60);
    assert_eq!(s.world.ball().pos, Vec2::new(0, 20));
}

#[test]
fn full_grid_is_cleared() {
    let w = World::new(field(), &config(10, 20));
    assert_eq!(w.brick_count(), 200);
    let mut s = Session::new(w);
    s.state = splash_timer(s.state, 2_000, 2_000);
    let mut ticks = 0;
    let mut speed = s.world.ball().speed;
    let mut count = s.world.brick_count();
    while count > 0 && ticks < 40_000 {
        s.step(NO_KEYS, 120);
        ticks += 1;
        let b = s.world.ball();
        assert!(b.speed >= speed && b.speed <= 750_000);
        assert!(b.pos.x.abs() <= 400_000 && b.pos.y.abs() <= 300_000);
        let now = s.world.brick_count();
        assert!(now <= count);
        speed = b.speed;
        count = now;
    }
    assert_eq!(count, 0);
}
