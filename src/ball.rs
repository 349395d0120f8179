use vstd::prelude::*;
use crate::geometry::{
    abs_spec, clamp, clamp_spec, div_trunc, isqrt, isqrt_spec, len_sq, Vec2, MAX_COORD,
};

verus! {

/// Largest magnitude of a heading component.
pub const MAX_HEADING: i64 = 0x8000_0000;

/// The ball: its center, its radius, and its velocity kept as a heading (a
/// non-zero vector giving the direction only) and a speed in units per second.
/// Keeping the speed apart lets reflections and paddle steering preserve it
/// exactly.
#[derive(Clone, Copy, Debug, PartialEq, Eq, Structural)]
pub struct Ball {
    pub pos: Vec2,
    pub heading: Vec2,
    pub speed: i64,
    pub radius: i64,
}

/// A heading: non-zero, each component at most `MAX_HEADING` in magnitude.
pub open spec fn heading_wf(h: Vec2) -> bool {
    -MAX_HEADING <= h.x <= MAX_HEADING && -MAX_HEADING <= h.y <= MAX_HEADING && (h.x != 0
        || h.y != 0)
}

impl Ball {
    pub open spec fn wf(self) -> bool {
        self.pos.in_range() && heading_wf(self.heading) && 0 <= self.speed <= MAX_COORD && 0
            < self.radius <= MAX_COORD
    }

    pub fn new(pos: Vec2, heading: Vec2, speed: i64, radius: i64) -> (r: Ball)
        ensures
            r == (Ball { pos, heading, speed, radius }),
    {
        Ball { pos, heading, speed, radius }
    }
}

/// A heading has a squared length of at least one.
pub proof fn lemma_heading_len_pos(h: Vec2)
    requires
        heading_wf(h),
    ensures
        h.len_sq() >= 1,
{
    let x = h.x as int;
    let y = h.y as int;
    assert(x * x + y * y >= 1) by (nonlinear_arith)
        requires
            x != 0 || y != 0,
    ;
}

/// The distance covered along one axis in one tick of a `hz`-per-second
/// clock, by a ball moving at `speed` along heading `h`, with heading
/// component `c`; rounded toward zero.
pub open spec fn step_spec(c: int, h: Vec2, speed: int, hz: int) -> int {
    div_trunc(div_trunc(c * speed, isqrt_spec(h.len_sq())), hz)
}

/// The ball's center after one tick, kept in the coordinate range.
pub open spec fn integrate_spec(b: Ball, hz: int) -> Vec2 {
    Vec2 {
        x: clamp_spec(b.pos.x + step_spec(b.heading.x as int, b.heading, b.speed as int, hz), -MAX_COORD as int, MAX_COORD as int) as i64,
        y: clamp_spec(b.pos.y + step_spec(b.heading.y as int, b.heading, b.speed as int, hz), -MAX_COORD as int, MAX_COORD as int) as i64,
    }
}

/// The distance along one axis, for heading component `c` of a heading whose
/// integer length is `n`.
fn axis_step(c: i64, n: u64, speed: i64, hz: u64) -> (r: i64)
    requires
        -MAX_HEADING <= c <= MAX_HEADING,
        n > 0,
        hz > 0,
        0 <= speed <= MAX_COORD,
    ensures
        r == div_trunc(div_trunc(c * speed, n as int), hz as int),
        -MAX_HEADING * MAX_COORD <= r <= MAX_HEADING * MAX_COORD,
{
    let m: u64 = if c < 0 {
        (-c) as u64
    } else {
        c as u64
    };
    assert(m * speed <= MAX_HEADING * MAX_COORD) by (nonlinear_arith)
        requires
            0 <= m <= MAX_HEADING,
            0 <= speed <= MAX_COORD,
    ;
    let p = m * (speed as u64);
    let q = p / n / hz;
    proof {
        if c < 0 {
            assert(c * speed == -(m * speed)) by (nonlinear_arith)
                requires
                    m == -c,
            ;
        } else {
            assert(c * speed == m * speed);
        }
    }
    if c < 0 {
        -(q as i64)
    } else {
        q as i64
    }
}

/// Moves the ball by its velocity over one tick of a `hz`-per-second clock:
/// `position += velocity * (1 / hz)`, each axis rounded toward zero and kept
/// in the coordinate range.
pub fn integrate(b: &mut Ball, hz: u64)
    requires
        old(b).wf(),
        hz > 0,
    ensures
        final(b).pos == integrate_spec(*old(b), hz as int),
        final(b).heading == old(b).heading,
        final(b).speed == old(b).speed,
        final(b).radius == old(b).radius,
        final(b).wf(),
{
    let n = isqrt(len_sq(&b.heading));
    proof {
        lemma_heading_len_pos(b.heading);
        assert(n > 0);
    }
    let dx = axis_step(b.heading.x, n, b.speed, hz);
    let dy = axis_step(b.heading.y, n, b.speed, hz);
    b.pos = Vec2 {
        x: clamp(b.pos.x + dx, -MAX_COORD, MAX_COORD),
        y: clamp(b.pos.y + dy, -MAX_COORD, MAX_COORD),
    };
}

/// Heading component `c` after the wall test along one axis, for a ball at
/// coordinate `p` of radius `r` in a field of half size `half`: pointed back
/// inward when the ball touches or passes a wall.
pub open spec fn wall_axis_spec(p: int, r: int, half: int, c: int) -> int {
    if p + r >= half {
        -abs_spec(c)
    } else if p - r <= -half {
        abs_spec(c)
    } else {
        c
    }
}

/// The ball's heading after the wall tests of a field centered on the
/// origin with half size `field`.
pub open spec fn reflect_walls_spec(b: Ball, field: Vec2) -> Vec2 {
    Vec2 {
        x: wall_axis_spec(b.pos.x as int, b.radius as int, field.x as int, b.heading.x as int) as i64,
        y: wall_axis_spec(b.pos.y as int, b.radius as int, field.y as int, b.heading.y as int) as i64,
    }
}

fn wall_axis(p: i64, r: i64, half: i64, c: i64) -> (res: i64)
    requires
        -MAX_COORD <= p <= MAX_COORD,
        0 < r <= MAX_COORD,
        0 < half <= MAX_COORD,
        -MAX_HEADING <= c <= MAX_HEADING,
    ensures
        res == wall_axis_spec(p as int, r as int, half as int, c as int),
{
    let m = if c < 0 {
        -c
    } else {
        c
    };
    if p + r >= half {
        -m
    } else if p - r <= -half {
        m
    } else {
        c
    }
}

/// The wall test: where the ball touches or passes a wall of the field
/// (centered on the origin, half size `field`), the heading component across
/// that wall is forced to point back into the field; its magnitude and the
/// speed are kept.
pub fn reflect_walls(b: &mut Ball, field: Vec2)
    requires
        old(b).wf(),
        0 < field.x <= MAX_COORD,
        0 < field.y <= MAX_COORD,
    ensures
        final(b).heading == reflect_walls_spec(*old(b), field),
        final(b).pos == old(b).pos,
        final(b).speed == old(b).speed,
        final(b).radius == old(b).radius,
        final(b).wf(),
        final(b).pos.x + final(b).radius >= field.x ==> final(b).heading.x <= 0,
        final(b).pos.x - final(b).radius <= -field.x && final(b).pos.x + final(b).radius < field.x
            ==> final(b).heading.x >= 0,
        final(b).pos.y + final(b).radius >= field.y ==> final(b).heading.y <= 0,
        final(b).pos.y - final(b).radius <= -field.y && final(b).pos.y + final(b).radius < field.y
            ==> final(b).heading.y >= 0,
{
    b.heading = Vec2 {
        x: wall_axis(b.pos.x, b.radius, field.x, b.heading.x),
        y: wall_axis(b.pos.y, b.radius, field.y, b.heading.y),
    };
}

/// Testing the walls again right after a reflection changes nothing: the
/// corrected heading already points back into the field, so a ball still
/// touching a wall is not sent back into it.
pub proof fn lemma_reflect_walls_idempotent(b: Ball, field: Vec2)
    requires
        b.wf(),
    ensures
        reflect_walls_spec(Ball { heading: reflect_walls_spec(b, field), ..b }, field)
            == reflect_walls_spec(b, field),
{
}

/// Speed after one collision: raised by a tenth (rounded down), at most `cap`.
pub open spec fn speed_up_spec(speed: int, cap: int) -> int {
    if speed * 11 / 10 <= cap {
        speed * 11 / 10
    } else {
        cap
    }
}

/// Raises the speed by a tenth, at most to `cap`; the heading is kept.
pub fn speed_up(speed: i64, cap: i64) -> (r: i64)
    requires
        0 <= speed <= cap <= MAX_COORD,
    ensures
        r == speed_up_spec(speed as int, cap as int),
        speed <= r <= cap,
{
    let raised = speed * 11 / 10;
    if raised <= cap {
        raised
    } else {
        cap
    }
}

} // verus!
