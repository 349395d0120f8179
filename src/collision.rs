use vstd::prelude::*;
use crate::ball::{heading_wf, Ball, MAX_HEADING};
use crate::geometry::{
    abs_spec, div_trunc, intersects_spec, isqrt, isqrt_spec, len_sq, offset_from,
    offset_spec, with_sign_of, Aabb, Vec2, MAX_COORD,
};

verus! {

/// The kind of box the ball touched.
#[derive(Clone, Copy, Debug, PartialEq, Eq, Structural)]
pub enum ColliderKind {
    Paddle,
    Brick,
}

/// What one contact does to the ball: its new heading and the nudge (the
/// correction along the contact normal that takes it out of the box).
#[derive(Clone, Copy, Debug, PartialEq, Eq, Structural)]
pub struct Contact {
    pub heading: Vec2,
    pub nudge: Vec2,
}

/// The heading after the generic reflection off a box, where `off` is the
/// ball center minus the nearest point of the box. The dominant component of
/// the normal picks the axis: `|off.x| > |off.y|` corrects x, anything else
/// (ties included) corrects y; the corrected component keeps its magnitude and
/// takes the sign of the normal. A zero offset stands for the upward normal
/// `(0, 1)`.
pub open spec fn reflect_heading_spec(h: Vec2, off: (int, int)) -> Vec2 {
    if abs_spec(off.0) > abs_spec(off.1) {
        Vec2 { x: with_sign_of(h.x as int, off.0) as i64, y: h.y }
    } else {
        Vec2 { x: h.x, y: with_sign_of(h.y as int, off.1) as i64 }
    }
}

/// The nudge for a ball of radius `r` whose center is `off` from the nearest
/// point of the box: `normal * (r - distance)`, with the distance taken as the
/// integer square root and each component rounded toward zero. A zero offset
/// takes the upward normal: `(0, r)`.
pub open spec fn nudge_spec(off: (int, int), r: int) -> (int, int) {
    if off.0 == 0 && off.1 == 0 {
        (0, r)
    } else {
        let d = isqrt_spec(off.0 * off.0 + off.1 * off.1);
        (div_trunc(off.0 * (r - d), d), div_trunc(off.1 * (r - d), d))
    }
}

/// The heading after a paddle hit: `(0.8 * relative_impact, 1)` scaled by
/// `5 * half width`, where `relative_impact` is the ball's x offset from the
/// paddle's center over the paddle's half width.
pub open spec fn paddle_heading_spec(ball_x: int, paddle: Aabb) -> Vec2 {
    Vec2 { x: (4 * (ball_x - paddle.center.x)) as i64, y: (5 * paddle.half.x) as i64 }
}

/// The full effect of a contact between the ball and a box of the given kind.
pub open spec fn contact_spec(b: Ball, bx: Aabb, kind: ColliderKind) -> Contact {
    let off = offset_spec(bx, b.pos);
    let n = nudge_spec(off, b.radius as int);
    Contact {
        heading: match kind {
            ColliderKind::Paddle => paddle_heading_spec(b.pos.x as int, bx),
            ColliderKind::Brick => reflect_heading_spec(b.heading, off),
        },
        nudge: Vec2 { x: n.0 as i64, y: n.1 as i64 },
    }
}

/// A box may be hit as the given kind: a paddle needs a positive half width.
pub open spec fn collider_wf(bx: Aabb, kind: ColliderKind) -> bool {
    bx.wf() && (kind == ColliderKind::Paddle ==> bx.half.x > 0)
}

/// One component of the nudge: `c * (r - d) / d` rounded toward zero.
fn nudge_axis(c: i64, r: i64, d: u64) -> (res: i64)
    requires
        -MAX_COORD <= c <= MAX_COORD,
        0 < d <= r <= MAX_COORD,
        -d <= c <= d,
    ensures
        res == div_trunc(c * (r - d), d as int),
        -(r - d) <= res <= r - d,
{
    let m: u64 = if c < 0 {
        (-c) as u64
    } else {
        c as u64
    };
    let k: u64 = (r as u64) - d;
    assert(m * k <= MAX_COORD * MAX_COORD) by (nonlinear_arith)
        requires
            0 <= m <= MAX_COORD,
            0 <= k <= MAX_COORD,
    ;
    let q = m * k / d;
    assert(q <= k) by (nonlinear_arith)
        requires
            q == (m * k) / (d as int),
            d > 0,
            0 <= m <= d,
            k >= 0,
    ;
    proof {
        if c < 0 {
            assert(c * (r - d) == -(m * k)) by (nonlinear_arith)
                requires
                    m == -c,
                    k == r - d,
            ;
        } else {
            assert(c * (r - d) == m * k) by (nonlinear_arith)
                requires
                    m == c,
                    k == r - d,
            ;
        }
    }
    if c < 0 {
        -(q as i64)
    } else {
        q as i64
    }
}

/// `m` with its magnitude kept and the sign of `s` (non-negative for `s == 0`).
fn with_sign(m: i64, s: i64) -> (r: i64)
    requires
        -MAX_HEADING <= m <= MAX_HEADING,
    ensures
        r == with_sign_of(m as int, s as int),
{
    let a = if m < 0 {
        -m
    } else {
        m
    };
    if s < 0 {
        -a
    } else {
        a
    }
}

/// Resolves a contact between the ball and a box it touches or overlaps: the
/// generic reflection for a brick, the aimed bounce for the paddle (which keeps
/// the speed, since only the heading changes), and the nudge for either.
pub fn resolve_contact(b: &Ball, bx: &Aabb, kind: ColliderKind) -> (c: Contact)
    requires
        b.wf(),
        collider_wf(*bx, kind),
        intersects_spec(b.pos, b.radius as int, *bx),
    ensures
        c == contact_spec(*b, *bx, kind),
        heading_wf(c.heading),
        -MAX_COORD <= c.nudge.x <= MAX_COORD,
        -MAX_COORD <= c.nudge.y <= MAX_COORD,
{
    let off = offset_from(bx, &b.pos);
    let r = b.radius;
    proof {
        let x = off.x as int;
        let y = off.y as int;
        assert(-r <= x <= r && -r <= y <= r) by (nonlinear_arith)
            requires
                x * x + y * y <= r * r,
                r > 0,
        ;
    }
    let nudge = if off.x == 0 && off.y == 0 {
        Vec2 { x: 0, y: r }
    } else {
        let d = isqrt(len_sq(&off));
        proof {
            let x = off.x as int;
            let y = off.y as int;
            assert(x * x + y * y >= 1) by (nonlinear_arith)
                requires
                    x != 0 || y != 0,
            ;
            if d == 0 {
                assert((d + 1) * (d + 1) == 1);
            }
            assert(-d <= x <= d && -d <= y <= d) by (nonlinear_arith)
                requires
                    x * x + y * y < (d + 1) * (d + 1),
                    d >= 0,
            ;
            assert(d <= r) by (nonlinear_arith)
                requires
                    d * d <= x * x + y * y,
                    x * x + y * y <= r * r,
                    d >= 0,
                    r > 0,
            ;
        }
        let nx = nudge_axis(off.x, r, d);
        let ny = nudge_axis(off.y, r, d);
        Vec2 { x: nx, y: ny }
    };
    let heading = match kind {
        ColliderKind::Paddle => Vec2 { x: 4 * (b.pos.x - bx.center.x), y: 5 * bx.half.x },
        ColliderKind::Brick => {
            let ax = if off.x < 0 {
                -off.x
            } else {
                off.x
            };
            let ay = if off.y < 0 {
                -off.y
            } else {
                off.y
            };
            if ax > ay {
                Vec2 { x: with_sign(b.heading.x, off.x), y: b.heading.y }
            } else {
                Vec2 { x: b.heading.x, y: with_sign(b.heading.y, off.y) }
            }
        },
    };
    Contact { heading, nudge }
}

/// When the ball's center is the box's nearest point (zero offset), the
/// normal falls back to `(0, 1)`: the nudge is `(0, radius)` and a brick sends
/// the ball upward, its other heading component kept.
pub proof fn lemma_degenerate_normal(b: Ball, bx: Aabb)
    requires
        offset_spec(bx, b.pos) == (0int, 0int),
    ensures
        contact_spec(b, bx, ColliderKind::Brick).nudge == (Vec2 { x: 0, y: b.radius }),
        contact_spec(b, bx, ColliderKind::Brick).heading == (Vec2 {
            x: b.heading.x,
            y: abs_spec(b.heading.y as int) as i64,
        }),
{
}

/// A hit at the paddle's center sends the ball straight up: the heading
/// becomes `(0, 5 * half width)`, and the speed, kept apart from the heading,
/// is untouched by the bounce.
pub proof fn lemma_centered_paddle_hit(b: Ball, paddle: Aabb)
    requires
        b.pos.x == paddle.center.x,
        collider_wf(paddle, ColliderKind::Paddle),
    ensures
        contact_spec(b, paddle, ColliderKind::Paddle).heading.x == 0,
        contact_spec(b, paddle, ColliderKind::Paddle).heading.y > 0,
{
}

} // verus!
