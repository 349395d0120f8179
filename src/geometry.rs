use vstd::prelude::*;

verus! {

/// Largest magnitude of a coordinate, an extent, a radius or a speed, in the
/// simulation's integer units.
pub const MAX_COORD: i64 = 0x1000_0000;

/// A 2D vector of integer units.
#[derive(Clone, Copy, Debug, PartialEq, Eq, Structural)]
pub struct Vec2 {
    pub x: i64,
    pub y: i64,
}

impl Vec2 {
    /// Both components lie in `[-MAX_COORD, MAX_COORD]`.
    pub open spec fn in_range(self) -> bool {
        -MAX_COORD <= self.x <= MAX_COORD && -MAX_COORD <= self.y <= MAX_COORD
    }

    /// The squared Euclidean length.
    pub open spec fn len_sq(self) -> int {
        self.x * self.x + self.y * self.y
    }

    pub fn new(x: i64, y: i64) -> (r: Vec2)
        ensures
            r.x == x,
            r.y == y,
    {
        Vec2 { x, y }
    }
}

/// An axis-aligned box given by its center and its (non-negative) half extents.
#[derive(Clone, Copy, Debug, PartialEq, Eq, Structural)]
pub struct Aabb {
    pub center: Vec2,
    pub half: Vec2,
}

impl Aabb {
    pub open spec fn wf(self) -> bool {
        self.center.in_range() && 0 <= self.half.x <= MAX_COORD && 0 <= self.half.y
            <= MAX_COORD
    }

    pub open spec fn min_x(self) -> int {
        self.center.x - self.half.x
    }

    pub open spec fn max_x(self) -> int {
        self.center.x + self.half.x
    }

    pub open spec fn min_y(self) -> int {
        self.center.y - self.half.y
    }

    pub open spec fn max_y(self) -> int {
        self.center.y + self.half.y
    }

    pub fn new(center: Vec2, half: Vec2) -> (r: Aabb)
        ensures
            r.center == center,
            r.half == half,
    {
        Aabb { center, half }
    }
}

/// `v` brought into `[lo, hi]` (where `lo <= hi`).
pub open spec fn clamp_spec(v: int, lo: int, hi: int) -> int {
    if v < lo {
        lo
    } else if v > hi {
        hi
    } else {
        v
    }
}

/// `v` brought into `[lo, hi]`.
pub fn clamp(v: i64, lo: i64, hi: i64) -> (r: i64)
    requires
        lo <= hi,
    ensures
        r == clamp_spec(v as int, lo as int, hi as int),
{
    if v < lo {
        lo
    } else if v > hi {
        hi
    } else {
        v
    }
}

/// The point of box `b` nearest to `p`.
pub open spec fn closest_point_spec(b: Aabb, p: Vec2) -> (int, int) {
    (clamp_spec(p.x as int, b.min_x(), b.max_x()), clamp_spec(p.y as int, b.min_y(), b.max_y()))
}

/// `p` minus the point of box `b` nearest to it.
pub open spec fn offset_spec(b: Aabb, p: Vec2) -> (int, int) {
    (p.x - closest_point_spec(b, p).0, p.y - closest_point_spec(b, p).1)
}

/// The squared distance from `p` to box `b` (zero inside the box).
pub open spec fn dist_sq_spec(b: Aabb, p: Vec2) -> int {
    let o = offset_spec(b, p);
    o.0 * o.0 + o.1 * o.1
}

/// A circle of center `c` and radius `r` touches or overlaps box `b`.
pub open spec fn intersects_spec(c: Vec2, r: int, b: Aabb) -> bool {
    dist_sq_spec(b, c) <= r * r
}

/// The point of box `b` nearest to `p`.
pub fn closest_point(b: &Aabb, p: &Vec2) -> (r: Vec2)
    requires
        b.wf(),
        p.in_range(),
    ensures
        (r.x as int, r.y as int) == closest_point_spec(*b, *p),
        -2 * MAX_COORD <= r.x <= 2 * MAX_COORD,
        -2 * MAX_COORD <= r.y <= 2 * MAX_COORD,
{
    let x = clamp(p.x, b.center.x - b.half.x, b.center.x + b.half.x);
    let y = clamp(p.y, b.center.y - b.half.y, b.center.y + b.half.y);
    Vec2 { x, y }
}

/// `p` minus the point of box `b` nearest to it.
pub fn offset_from(b: &Aabb, p: &Vec2) -> (r: Vec2)
    requires
        b.wf(),
        p.in_range(),
    ensures
        (r.x as int, r.y as int) == offset_spec(*b, *p),
        -3 * MAX_COORD <= r.x <= 3 * MAX_COORD,
        -3 * MAX_COORD <= r.y <= 3 * MAX_COORD,
{
    let c = closest_point(b, p);
    Vec2 { x: p.x - c.x, y: p.y - c.y }
}

/// The squared length of a vector whose components are at most `8 * MAX_COORD`
/// in magnitude.
pub fn len_sq(v: &Vec2) -> (r: u64)
    requires
        -8 * MAX_COORD <= v.x <= 8 * MAX_COORD,
        -8 * MAX_COORD <= v.y <= 8 * MAX_COORD,
    ensures
        r == v.len_sq(),
{
    let x = v.x;
    let y = v.y;
    assert(0 <= x * x <= 0x4000_0000_0000_0000) by (nonlinear_arith)
        requires
            -0x8000_0000 <= x <= 0x8000_0000,
    ;
    assert(0 <= y * y <= 0x4000_0000_0000_0000) by (nonlinear_arith)
        requires
            -0x8000_0000 <= y <= 0x8000_0000,
    ;
    let xx = (x as i128) * (x as i128);
    let yy = (y as i128) * (y as i128);
    (xx + yy) as u64
}

/// Whether the circle of center `c` and radius `r` touches or overlaps box `b`;
/// touching counts as intersecting.
pub fn intersects(c: &Vec2, r: i64, b: &Aabb) -> (res: bool)
    requires
        c.in_range(),
        0 <= r <= MAX_COORD,
        b.wf(),
    ensures
        res == intersects_spec(*c, r as int, *b),
{
    let o = offset_from(b, c);
    let d = len_sq(&o);
    assert(0 <= r * r <= MAX_COORD * MAX_COORD) by (nonlinear_arith)
        requires
            0 <= r <= MAX_COORD,
    ;
    let rr = (r as u64) * (r as u64);
    d <= rr
}

/// `r` is the integer square root of `n`.
pub open spec fn is_isqrt(n: int, r: int) -> bool {
    0 <= r && r * r <= n < (r + 1) * (r + 1)
}

/// The integer square root of `n`.
pub open spec fn isqrt_spec(n: int) -> int {
    choose|r: int| is_isqrt(n, r)
}

/// At most one integer is the square root of `n`.
pub proof fn lemma_isqrt_unique(n: int, a: int, b: int)
    requires
        is_isqrt(n, a),
        is_isqrt(n, b),
    ensures
        a == b,
{
    if a < b {
        assert((a + 1) * (a + 1) <= b * b) by (nonlinear_arith)
            requires
                0 <= a + 1 <= b,
        ;
    } else if b < a {
        assert((b + 1) * (b + 1) <= a * a) by (nonlinear_arith)
            requires
                0 <= b + 1 <= a,
        ;
    }
}

/// The integer square root: the largest `r` with `r * r <= n`.
pub fn isqrt(n: u64) -> (r: u64)
    ensures
        is_isqrt(n as int, r as int),
        r == isqrt_spec(n as int),
{
    let mut lo: u64 = 0;
    let mut hi: u64 = 0x1_0000_0000;
    assert(hi * hi > n) by (nonlinear_arith)
        requires
            hi == 0x1_0000_0000,
            n <= u64::MAX,
    ;
    while hi - lo > 1
        invariant
            lo < hi <= 0x1_0000_0000,
            lo * lo <= n,
            n < hi * hi,
        decreases hi - lo,
    {
        let mid = lo + (hi - lo) / 2;
        assert(mid * mid <= 0xFFFF_FFFE_0000_0001) by (nonlinear_arith)
            requires
                mid < 0x1_0000_0000,
        ;
        if mid * mid <= n {
            lo = mid;
        } else {
            hi = mid;
        }
    }
    assert(hi == lo + 1);
    proof {
        assert(is_isqrt(n as int, lo as int));
        let c = isqrt_spec(n as int);
        lemma_isqrt_unique(n as int, c, lo as int);
    }
    lo
}

/// The magnitude `|m|` with the sign of `s`, taken as positive for `s == 0`.
pub open spec fn with_sign_of(m: int, s: int) -> int {
    if s < 0 {
        -abs_spec(m)
    } else {
        abs_spec(m)
    }
}

/// The absolute value.
pub open spec fn abs_spec(v: int) -> int {
    if v < 0 {
        -v
    } else {
        v
    }
}

/// `a / b` rounded toward zero, for `b > 0`.
pub open spec fn div_trunc(a: int, b: int) -> int {
    if a >= 0 {
        a / b
    } else {
        -((-a) / b)
    }
}

} // verus!
