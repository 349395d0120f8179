use vstd::prelude::*;
use crate::ball::{
    heading_wf, integrate, integrate_spec, reflect_walls, reflect_walls_spec, speed_up,
    speed_up_spec, Ball,
};
use crate::paddle::{follow_pointer, follow_pointer_spec, move_by_keys, move_by_keys_spec};
use crate::collision::{collider_wf, contact_spec, resolve_contact, ColliderKind};
use crate::geometry::{clamp, clamp_spec, intersects, intersects_spec, Aabb, Vec2, MAX_COORD};

verus! {

/// A brick of the grid; a despawned brick stays in its slot with `alive`
/// cleared, so that slot numbers stay stable.
#[derive(Clone, Copy, Debug, PartialEq, Eq, Structural)]
pub struct Brick {
    pub bounds: Aabb,
    pub alive: bool,
}

/// What a collision event is about.
#[derive(Clone, Copy, Debug, PartialEq, Eq, Structural)]
pub enum Target {
    Paddle,
    /// The brick in this slot.
    Brick(usize),
}

/// A collision raised by the detector: the collider hit and the nudge that
/// takes the ball out of it.
#[derive(Clone, Copy, Debug, PartialEq, Eq, Structural)]
pub struct CollisionEvent {
    pub target: Target,
    pub nudge: Vec2,
}

/// The mathematical state of a world.
pub struct WorldView {
    pub field: Vec2,
    pub paddle: Aabb,
    pub ball: Ball,
    pub bricks: Seq<Brick>,
    pub speed_cap: int,
    pub paddle_speed: int,
}

/// The play field (centered on the origin, `field` being its half size), the
/// paddle, the ball and the bricks, with the speed cap.
pub struct World {
    field: Vec2,
    paddle: Aabb,
    ball: Ball,
    bricks: Vec<Brick>,
    speed_cap: i64,
    paddle_speed: i64,
}

impl View for World {
    type V = WorldView;

    closed spec fn view(&self) -> WorldView {
        WorldView {
            field: self.field,
            paddle: self.paddle,
            ball: self.ball,
            bricks: self.bricks@,
            speed_cap: self.speed_cap as int,
            paddle_speed: self.paddle_speed as int,
        }
    }
}

impl WorldView {
    pub open spec fn wf(self) -> bool {
        &&& 0 < self.field.x <= MAX_COORD
        &&& 0 < self.field.y <= MAX_COORD
        &&& collider_wf(self.paddle, ColliderKind::Paddle)
        &&& self.paddle.half.x <= self.field.x
        &&& self.ball.wf()
        &&& self.ball.speed <= self.speed_cap <= MAX_COORD
        &&& 0 <= self.paddle_speed <= MAX_COORD
        &&& forall|i: int| 0 <= i < self.bricks.len() ==> (#[trigger] self.bricks[i]).bounds.wf()
    }
}

/// The number of bricks still alive.
pub open spec fn alive_count(s: Seq<Brick>) -> nat
    decreases s.len(),
{
    if s.len() == 0 {
        0
    } else {
        alive_count(s.drop_last()) + if s.last().alive {
            1nat
        } else {
            0nat
        }
    }
}

/// The brick with `alive` cleared.
pub open spec fn despawned(b: Brick) -> Brick {
    Brick { bounds: b.bounds, alive: false }
}

/// Despawning a live brick lowers the count of live bricks by exactly one.
pub proof fn lemma_despawn_count(s: Seq<Brick>, i: int)
    requires
        0 <= i < s.len(),
        s[i].alive,
    ensures
        alive_count(s.update(i, despawned(s[i]))) == alive_count(s) - 1,
    decreases s.len(),
{
    let u = s.update(i, despawned(s[i]));
    if i == s.len() - 1 {
        assert(u.drop_last() =~= s.drop_last());
    } else {
        assert(u.drop_last() =~= s.drop_last().update(i, despawned(s[i])));
        lemma_despawn_count(s.drop_last(), i);
    }
}

/// The ball after the reactions to a collision: moved by the nudge (kept in
/// the coordinate range) and sped up.
pub open spec fn react_spec(b: Ball, nudge: Vec2, cap: int) -> Ball {
    Ball {
        pos: Vec2 {
            x: clamp_spec(b.pos.x + nudge.x, -MAX_COORD as int, MAX_COORD as int) as i64,
            y: clamp_spec(b.pos.y + nudge.y, -MAX_COORD as int, MAX_COORD as int) as i64,
        },
        heading: b.heading,
        speed: speed_up_spec(b.speed as int, cap) as i64,
        radius: b.radius,
    }
}

/// The world after one collision event. An event for a brick that is no
/// longer alive (or for no brick slot at all) changes nothing; otherwise the
/// brick is despawned, and for every event the ball is nudged and sped up.
pub open spec fn event_spec(v: WorldView, e: CollisionEvent) -> WorldView {
    match e.target {
        Target::Brick(i) => if i < v.bricks.len() && v.bricks[i as int].alive {
            WorldView {
                bricks: v.bricks.update(i as int, despawned(v.bricks[i as int])),
                ball: react_spec(v.ball, e.nudge, v.speed_cap),
                ..v
            }
        } else {
            v
        },
        Target::Paddle => WorldView { ball: react_spec(v.ball, e.nudge, v.speed_cap), ..v },
    }
}

/// The world after the events, handled in order.
pub open spec fn events_spec(v: WorldView, evs: Seq<CollisionEvent>) -> WorldView
    decreases evs.len(),
{
    if evs.len() == 0 {
        v
    } else {
        events_spec(event_spec(v, evs[0]), evs.drop_first())
    }
}

/// Handling the same brick event twice does what handling it once does: the
/// second finds the brick gone and leaves the world, the ball's velocity
/// included, as it was.
pub proof fn lemma_brick_event_idempotent(v: WorldView, e: CollisionEvent)
    requires
        e.target is Brick,
    ensures
        event_spec(event_spec(v, e), e) == event_spec(v, e),
{
}

/// A brick event lowers the count of live bricks by exactly one when its
/// brick is alive, and leaves it as it is when the brick is already gone.
pub proof fn lemma_brick_event_count(v: WorldView, e: CollisionEvent)
    requires
        e.target is Brick,
    ensures
        e.target->Brick_0 < v.bricks.len() && v.bricks[e.target->Brick_0 as int].alive ==> alive_count(
            event_spec(v, e).bricks,
        ) == alive_count(v.bricks) - 1,
        !(e.target->Brick_0 < v.bricks.len() && v.bricks[e.target->Brick_0 as int].alive)
            ==> event_spec(v, e) == v,
{
    let i = e.target->Brick_0;
    if i < v.bricks.len() && v.bricks[i as int].alive {
        lemma_despawn_count(v.bricks, i as int);
    }
}

/// A nudge as the resolver makes it: each component at most `MAX_COORD`.
pub open spec fn nudge_wf(n: Vec2) -> bool {
    -MAX_COORD <= n.x <= MAX_COORD && -MAX_COORD <= n.y <= MAX_COORD
}

/// The ball with its heading replaced.
pub open spec fn with_heading(b: Ball, h: Vec2) -> Ball {
    Ball { heading: h, ..b }
}

/// The ball touches or overlaps the box.
pub open spec fn touches(b: Ball, bx: Aabb) -> bool {
    intersects_spec(b.pos, b.radius as int, bx)
}

/// The heading and the events after testing the bricks in slots `0..n` in
/// order: each live brick the ball touches corrects the heading in turn and
/// raises one event.
pub open spec fn sweep_bricks(b: Ball, s: Seq<Brick>, n: nat) -> (Vec2, Seq<CollisionEvent>)
    decreases n,
{
    if n == 0 {
        (b.heading, Seq::empty())
    } else {
        let (h, evs) = sweep_bricks(b, s, (n - 1) as nat);
        let br = s[n - 1];
        if br.alive && touches(b, br.bounds) {
            let c = contact_spec(with_heading(b, h), br.bounds, ColliderKind::Brick);
            (
                c.heading,
                evs.push(CollisionEvent { target: Target::Brick((n - 1) as usize), nudge: c.nudge }),
            )
        } else {
            (h, evs)
        }
    }
}

/// The heading and the events of the collider sweep: every brick in slot
/// order, then the paddle.
pub open spec fn detect_spec(v: WorldView) -> (Vec2, Seq<CollisionEvent>) {
    let (h, evs) = sweep_bricks(v.ball, v.bricks, v.bricks.len());
    if touches(v.ball, v.paddle) {
        let c = contact_spec(with_heading(v.ball, h), v.paddle, ColliderKind::Paddle);
        (c.heading, evs.push(CollisionEvent { target: Target::Paddle, nudge: c.nudge }))
    } else {
        (h, evs)
    }
}

/// The events name live bricks of `s` in strictly increasing slot order,
/// with nudges as the resolver makes them.
pub open spec fn events_ok(evs: Seq<CollisionEvent>, s: Seq<Brick>) -> bool {
    &&& forall|k: int| 0 <= k < evs.len() ==> nudge_wf(#[trigger] evs[k].nudge)
    &&& forall|k: int|
        0 <= k < evs.len() && (#[trigger] evs[k]).target is Brick ==> evs[k].target->Brick_0
            < s.len() && s[evs[k].target->Brick_0 as int].alive
    &&& forall|k1: int, k2: int|
        0 <= k1 < k2 < evs.len() && (#[trigger] evs[k1]).target is Brick && (
        #[trigger] evs[k2]).target is Brick ==> evs[k1].target->Brick_0
            < evs[k2].target->Brick_0
}

/// The number of events that name a brick.
pub open spec fn brick_event_count(evs: Seq<CollisionEvent>) -> nat
    decreases evs.len(),
{
    if evs.len() == 0 {
        0
    } else {
        brick_event_count(evs.drop_last()) + if evs.last().target is Brick {
            1nat
        } else {
            0nat
        }
    }
}

/// Field, paddle, speed cap, paddle speed and the number of brick slots are
/// the same in both.
pub open spec fn unchanged_but_ball_and_bricks(a: WorldView, b: WorldView) -> bool {
    &&& b.field == a.field
    &&& b.paddle == a.paddle
    &&& b.speed_cap == a.speed_cap
    &&& b.paddle_speed == a.paddle_speed
    &&& b.bricks.len() == a.bricks.len()
}

/// Every brick keeps its bounds, and none comes back once gone.
pub open spec fn bricks_only_vanish(before: Seq<Brick>, after: Seq<Brick>) -> bool {
    &&& after.len() == before.len()
    &&& forall|i: int|
        0 <= i < before.len() ==> (#[trigger] after[i]).bounds == before[i].bounds && (after[i].alive
            ==> before[i].alive)
}

/// How the paddle is driven this tick.
#[derive(Clone, Copy, Debug, PartialEq, Eq, Structural)]
pub enum PaddleInput {
    /// Directional keys: moves at the paddle's speed, always clamped.
    Keys { left: bool, right: bool },
    /// Pointer x in world units, if a pointer is present: followed only
    /// while strictly inside the paddle's range.
    Pointer(Option<i64>),
}

/// The paddle's x after this tick's input.
pub open spec fn paddle_x_spec(v: WorldView, input: PaddleInput, hz: int) -> int {
    match input {
        PaddleInput::Keys { left, right } => move_by_keys_spec(
            v.paddle.center.x as int,
            left,
            right,
            v.paddle_speed,
            hz,
            v.field.x as int,
            v.paddle.half.x as int,
        ),
        PaddleInput::Pointer(p) => follow_pointer_spec(
            v.paddle.center.x as int,
            p,
            v.field.x as int,
            v.paddle.half.x as int,
        ),
    }
}

/// The world as the collider sweep finds it: paddle moved, ball integrated,
/// walls tested.
pub open spec fn pre_sweep_spec(v: WorldView, input: PaddleInput, hz: int) -> WorldView {
    let paddle = Aabb {
        center: Vec2 { x: paddle_x_spec(v, input, hz) as i64, y: v.paddle.center.y },
        half: v.paddle.half,
    };
    let moved = Ball { pos: integrate_spec(v.ball, hz), ..v.ball };
    WorldView { paddle, ball: with_heading(moved, reflect_walls_spec(moved, v.field)), ..v }
}

/// The events raised in a tick.
pub open spec fn tick_events_spec(v: WorldView, input: PaddleInput, hz: int) -> Seq<CollisionEvent> {
    detect_spec(pre_sweep_spec(v, input, hz)).1
}

/// The world after one tick: paddle, integration, walls, collider sweep, then
/// the reactions to each event in order.
pub open spec fn tick_spec(v: WorldView, input: PaddleInput, hz: int) -> WorldView {
    let w = pre_sweep_spec(v, input, hz);
    let d = detect_spec(w);
    events_spec(WorldView { ball: with_heading(w.ball, d.0), ..w }, d.1)
}

/// The layout and starting values of a session, in world units.
#[derive(Clone, Copy, Debug, PartialEq, Eq, Structural)]
pub struct Config {
    /// Brick grid: rows and columns.
    pub rows: usize,
    pub columns: usize,
    /// Margin between the field's edges and the grid.
    pub gutter: i64,
    /// Space between neighbouring bricks.
    pub gap: i64,
    /// Height of a brick; half of it (rounded down) is its half height.
    pub brick_height: i64,
    /// The paddle's half size, and the height of its center above the
    /// field's bottom.
    pub paddle_half: Vec2,
    pub paddle_lift: i64,
    /// The paddle's speed under the directional keys.
    pub paddle_speed: i64,
    /// The ball's radius, heading and speed, and the height of its center
    /// above the field's bottom.
    pub ball_radius: i64,
    pub ball_heading: Vec2,
    pub ball_speed: i64,
    pub ball_lift: i64,
    /// The most the speed-up may raise the ball's speed to.
    pub speed_cap: i64,
}

/// A brick's half width: the field's width less the two gutters and the
/// gaps, shared among the columns (halved, rounded down).
pub open spec fn brick_half_width(field: Vec2, c: Config) -> int {
    (2 * field.x - 2 * c.gutter - c.gap * (c.columns - 1)) / (2 * c.columns as int)
}

/// The brick in grid row `row` (counted from the top) and column `col`
/// (counted from the left).
pub open spec fn grid_brick(field: Vec2, c: Config, row: int, col: int) -> Brick {
    let hw = brick_half_width(field, c);
    let hh = c.brick_height / 2;
    Brick {
        bounds: Aabb {
            center: Vec2 {
                x: (-field.x + c.gutter + hw + col * (2 * hw + c.gap)) as i64,
                y: (field.y - c.gutter - hh - row * (2 * hh + c.gap)) as i64,
            },
            half: Vec2 { x: hw as i64, y: hh as i64 },
        },
        alive: true,
    }
}

/// The values a session can start from in a field of half size `field`.
pub open spec fn config_wf(field: Vec2, c: Config) -> bool {
    &&& 0 < field.x <= MAX_COORD
    &&& 0 < field.y <= MAX_COORD
    &&& 1 <= c.columns <= MAX_COORD
    &&& c.rows <= MAX_COORD
    &&& c.rows * c.columns <= usize::MAX
    &&& 0 <= c.gutter <= MAX_COORD
    &&& 0 <= c.gap <= MAX_COORD
    &&& 0 <= c.brick_height <= MAX_COORD
    &&& 2 * field.x - 2 * c.gutter - c.gap * (c.columns - 1) >= 0
    &&& c.rows >= 1 ==> field.y - c.gutter - c.brick_height / 2 - (c.rows - 1) * (2 * (
    c.brick_height / 2) + c.gap) >= -MAX_COORD
    &&& 0 < c.paddle_half.x <= field.x
    &&& 0 <= c.paddle_half.y <= MAX_COORD
    &&& -MAX_COORD <= -field.y + c.paddle_lift <= MAX_COORD
    &&& 0 <= c.paddle_speed <= MAX_COORD
    &&& 0 < c.ball_radius <= MAX_COORD
    &&& heading_wf(c.ball_heading)
    &&& 0 <= c.ball_speed <= c.speed_cap <= MAX_COORD
    &&& -MAX_COORD <= -field.y + c.ball_lift <= MAX_COORD
}

/// Row and column bounds of the grid layout keep every brick in range.
proof fn lemma_grid_brick_wf(field: Vec2, c: Config, row: int, col: int)
    requires
        config_wf(field, c),
        0 <= row < c.rows,
        0 <= col < c.columns,
    ensures
        grid_brick(field, c, row, col).bounds.wf(),
        0 <= brick_half_width(field, c) <= MAX_COORD,
        0 <= col * (2 * brick_half_width(field, c) + c.gap) <= 2 * MAX_COORD,
        0 <= row * (2 * (c.brick_height / 2) + c.gap) <= 3 * MAX_COORD,
{
    let hw = brick_half_width(field, c);
    let hh = c.brick_height / 2;
    let n = c.columns as int;
    let room = 2 * field.x - 2 * c.gutter - c.gap * (n - 1);
    assert(0 <= hw && 2 * n * hw <= room) by (nonlinear_arith)
        requires
            hw == room / (2 * n),
            room >= 0,
            n >= 1,
    ;
    assert(0 <= col * (2 * hw + c.gap) <= (n - 1) * (2 * hw + c.gap)) by (nonlinear_arith)
        requires
            0 <= col <= n - 1,
            hw >= 0,
            c.gap >= 0,
    ;
    assert((n - 1) * (2 * hw + c.gap) == 2 * n * hw - 2 * hw + c.gap * (n - 1)) by (
    nonlinear_arith);
    assert(0 <= row * (2 * hh + c.gap) <= (c.rows - 1) * (2 * hh + c.gap)) by (nonlinear_arith)
        requires
            0 <= row <= c.rows - 1,
            hh >= 0,
            c.gap >= 0,
    ;
    assert(hw <= MAX_COORD) by (nonlinear_arith)
        requires
            2 * n * hw <= room,
            room <= 2 * MAX_COORD,
            n >= 1,
            hw >= 0,
    ;
}

impl World {
    pub open spec fn wf(&self) -> bool {
        self@.wf()
    }

    /// The number of bricks still alive.
    pub fn brick_count(&self) -> (r: usize)
        ensures
            r == alive_count(self@.bricks),
    {
        let mut n: usize = 0;
        let mut i: usize = 0;
        while i < self.bricks.len()
            invariant
                0 <= i <= self.bricks.len(),
                n == alive_count(self.bricks@.subrange(0, i as int)),
                n <= i,
            decreases self.bricks.len() - i,
        {
            proof {
                let s = self.bricks@.subrange(0, i as int + 1);
                assert(s.drop_last() =~= self.bricks@.subrange(0, i as int));
            }
            if self.bricks[i].alive {
                n = n + 1;
            }
            i = i + 1;
        }
        assert(self.bricks@.subrange(0, i as int) =~= self.bricks@);
        n
    }

    /// Handles one collision event: despawns the brick it names (if still
    /// alive), nudges the ball and speeds it up; an event for a brick already
    /// gone does nothing.
    pub fn apply_event(&mut self, e: CollisionEvent)
        requires
            old(self).wf(),
            nudge_wf(e.nudge),
        ensures
            final(self)@ == event_spec(old(self)@, e),
            final(self).wf(),
    {
        match e.target {
            Target::Brick(i) => {
                if i >= self.bricks.len() || !self.bricks[i].alive {
                    return;
                }
                let b = self.bricks[i];
                self.bricks.set(i, Brick { bounds: b.bounds, alive: false });
            },
            Target::Paddle => {},
        }
        let pos = Vec2 {
            x: clamp(self.ball.pos.x + e.nudge.x, -MAX_COORD, MAX_COORD),
            y: clamp(self.ball.pos.y + e.nudge.y, -MAX_COORD, MAX_COORD),
        };
        self.ball = Ball {
            pos,
            heading: self.ball.heading,
            speed: speed_up(self.ball.speed, self.speed_cap),
            radius: self.ball.radius,
        };
    }

    /// The collider sweep: tests every live brick in slot order, then the
    /// paddle, against the ball where it stands; each contact corrects the
    /// ball's heading and raises one event. Positions are left to the
    /// reactions.
    pub fn detect(&mut self) -> (evs: Vec<CollisionEvent>)
        requires
            old(self).wf(),
        ensures
            final(self)@ == (WorldView {
                ball: with_heading(old(self)@.ball, detect_spec(old(self)@).0),
                ..old(self)@
            }),
            evs@ == detect_spec(old(self)@).1,
            events_ok(evs@, old(self)@.bricks),
            final(self).wf(),
    {
        let ghost v = self@;
        let mut evs: Vec<CollisionEvent> = Vec::new();
        let mut i: usize = 0;
        while i < self.bricks.len()
            invariant
                0 <= i <= self.bricks.len(),
                v.wf(),
                self@ == (WorldView { ball: with_heading(v.ball, self.ball.heading), ..v }),
                (self.ball.heading, evs@) == sweep_bricks(v.ball, v.bricks, i as nat),
                heading_wf(self.ball.heading),
                events_ok(evs@, v.bricks),
                forall|k: int|
                    0 <= k < evs.len() ==> (#[trigger] evs@[k]).target is Brick
                        && evs@[k].target->Brick_0 < i,
            decreases self.bricks.len() - i,
        {
            let br = self.bricks[i];
            if br.alive && intersects(&self.ball.pos, self.ball.radius, &br.bounds) {
                let c = resolve_contact(&self.ball, &br.bounds, ColliderKind::Brick);
                self.ball.heading = c.heading;
                evs.push(CollisionEvent { target: Target::Brick(i), nudge: c.nudge });
            }
            i = i + 1;
        }
        if intersects(&self.ball.pos, self.ball.radius, &self.paddle) {
            let c = resolve_contact(&self.ball, &self.paddle, ColliderKind::Paddle);
            self.ball.heading = c.heading;
            evs.push(CollisionEvent { target: Target::Paddle, nudge: c.nudge });
        }
        evs
    }

    /// Handles the events of one sweep in order. Each names a distinct live
    /// brick, so the count of live bricks falls by exactly the number of
    /// brick events, each of those bricks is gone afterwards, and the speed
    /// never falls nor passes the cap.
    pub fn dispatch(&mut self, evs: &Vec<CollisionEvent>)
        requires
            old(self).wf(),
            events_ok(evs@, old(self)@.bricks),
        ensures
            final(self)@ == events_spec(old(self)@, evs@),
            final(self).wf(),
            alive_count(final(self)@.bricks) + brick_event_count(evs@) == alive_count(
                old(self)@.bricks,
            ),
            forall|k: int|
                0 <= k < evs@.len() && (#[trigger] evs@[k]).target is Brick
                    ==> !final(self)@.bricks[evs@[k].target->Brick_0 as int].alive,
            old(self)@.ball.speed <= final(self)@.ball.speed <= final(self)@.speed_cap,
            unchanged_but_ball_and_bricks(old(self)@, final(self)@),
            final(self)@.ball.radius == old(self)@.ball.radius,
            final(self)@.ball.heading == old(self)@.ball.heading,
            bricks_only_vanish(old(self)@.bricks, final(self)@.bricks),
    {
        let ghost v = self@;
        let mut j: usize = 0;
        assert(evs@.skip(0) =~= evs@);
        while j < evs.len()
            invariant
                0 <= j <= evs.len(),
                self.wf(),
                events_ok(evs@, v.bricks),
                events_spec(self@, evs@.skip(j as int)) == events_spec(v, evs@),
                unchanged_but_ball_and_bricks(v, self@),
                self@.ball.radius == v.ball.radius,
                self@.ball.heading == v.ball.heading,
                bricks_only_vanish(v.bricks, self@.bricks),
                v.ball.speed <= self@.ball.speed,
                alive_count(self@.bricks) + brick_event_count(evs@.subrange(0, j as int))
                    == alive_count(v.bricks),
                forall|k: int|
                    j <= k < evs@.len() && (#[trigger] evs@[k]).target is Brick
                        ==> self@.bricks[evs@[k].target->Brick_0 as int] == v.bricks[evs@[k].target->Brick_0 as int],
                forall|k: int|
                    0 <= k < j && (#[trigger] evs@[k]).target is Brick
                        ==> !self@.bricks[evs@[k].target->Brick_0 as int].alive,
            decreases evs.len() - j,
        {
            let e = evs[j];
            let ghost before = self@;
            proof {
                assert(evs@.skip(j as int)[0] == e);
                assert(evs@.skip(j as int).drop_first() =~= evs@.skip(j as int + 1));
                assert(evs@.subrange(0, j as int + 1).drop_last() =~= evs@.subrange(0, j as int));
                assert(nudge_wf(evs@[j as int].nudge));
            }
            self.apply_event(e);
            proof {
                if e.target is Brick {
                    let t = e.target->Brick_0 as int;
                    assert(before.bricks[t].alive);
                    lemma_despawn_count(before.bricks, t);
                    assert forall|k: int|
                        j < k < evs@.len() && (#[trigger] evs@[k]).target is Brick implies self@.bricks[evs@[k].target->Brick_0 as int]
                            == v.bricks[evs@[k].target->Brick_0 as int] by {
                        assert(evs@[j as int].target->Brick_0 < evs@[k].target->Brick_0);
                    }
                    assert forall|k: int|
                        0 <= k < j + 1 && (#[trigger] evs@[k]).target is Brick implies !self@.bricks[evs@[k].target->Brick_0 as int].alive by {
                        if k < j {
                            assert(evs@[k].target->Brick_0 < evs@[j as int].target->Brick_0);
                        }
                    }
                }
            }
            j = j + 1;
        }
        proof {
            assert(evs@.skip(j as int) =~= Seq::<CollisionEvent>::empty());
            assert(evs@.subrange(0, j as int) =~= evs@);
        }
    }

    /// One fixed tick of play at `hz` ticks per second: the paddle follows the
    /// input, the ball moves by its velocity, the walls and then the colliders
    /// correct its heading, and the events are handled in order.
    pub fn tick(&mut self, input: PaddleInput, hz: u64)
        requires
            old(self).wf(),
            hz > 0,
        ensures
            final(self)@ == tick_spec(old(self)@, input, hz as int),
            final(self).wf(),
            old(self)@.ball.speed <= final(self)@.ball.speed <= final(self)@.speed_cap,
            alive_count(final(self)@.bricks) + brick_event_count(
                tick_events_spec(old(self)@, input, hz as int),
            ) == alive_count(old(self)@.bricks),
            forall|k: int|
                0 <= k < tick_events_spec(old(self)@, input, hz as int).len() && (#[trigger] tick_events_spec(old(self)@, input, hz as int)[k]).target is Brick
                    ==> old(self)@.bricks[tick_events_spec(old(self)@, input, hz as int)[k].target->Brick_0 as int].alive
                    && !final(self)@.bricks[tick_events_spec(old(self)@, input, hz as int)[k].target->Brick_0 as int].alive,
            events_ok(tick_events_spec(old(self)@, input, hz as int), old(self)@.bricks),
            bricks_only_vanish(old(self)@.bricks, final(self)@.bricks),
            final(self)@.field == old(self)@.field,
            final(self)@.paddle.half == old(self)@.paddle.half,
            final(self)@.ball.radius == old(self)@.ball.radius,
            final(self)@.speed_cap == old(self)@.speed_cap,
    {
        let x = match input {
            PaddleInput::Keys { left, right } => move_by_keys(
                self.paddle.center.x,
                left,
                right,
                self.paddle_speed,
                hz,
                self.field.x,
                self.paddle.half.x,
            ),
            PaddleInput::Pointer(p) => follow_pointer(
                self.paddle.center.x,
                p,
                self.field.x,
                self.paddle.half.x,
            ),
        };
        self.paddle = Aabb { center: Vec2 { x, y: self.paddle.center.y }, half: self.paddle.half };
        integrate(&mut self.ball, hz);
        reflect_walls(&mut self.ball, self.field);
        let evs = self.detect();
        self.dispatch(&evs);
    }

    /// A new session in a field of half size `field`: the paddle and the
    /// ball centered horizontally at their heights above the field's bottom,
    /// and the full grid of live bricks, row by row from the top, each row
    /// from the left.
    pub fn new(field: Vec2, c: &Config) -> (w: World)
        requires
            config_wf(field, *c),
        ensures
            w.wf(),
            w@.field == field,
            w@.paddle == (Aabb { center: Vec2 { x: 0, y: (-field.y + c.paddle_lift) as i64 }, half: c.paddle_half }),
            w@.ball == (Ball {
                pos: Vec2 { x: 0, y: (-field.y + c.ball_lift) as i64 },
                heading: c.ball_heading,
                speed: c.ball_speed,
                radius: c.ball_radius,
            }),
            w@.speed_cap == c.speed_cap,
            w@.paddle_speed == c.paddle_speed,
            w@.bricks.len() == c.rows * c.columns,
            forall|i: int|
                0 <= i < w@.bricks.len() ==> #[trigger] w@.bricks[i] == grid_brick(
                    field,
                    *c,
                    i / c.columns as int,
                    i % c.columns as int,
                ),
    {
        let n = c.columns;
        assert(0 <= c.gap * (n - 1) <= MAX_COORD * MAX_COORD) by (nonlinear_arith)
            requires
                0 <= c.gap <= MAX_COORD,
                1 <= n <= MAX_COORD,
        ;
        let room = 2 * field.x - 2 * c.gutter - c.gap * ((n - 1) as i64);
        let hw = room / (2 * (n as i64));
        let hh = c.brick_height / 2;
        let mut bricks: Vec<Brick> = Vec::new();
        let mut row: usize = 0;
        while row < c.rows
            invariant
                config_wf(field, *c),
                n == c.columns,
                hw == brick_half_width(field, *c),
                hh == c.brick_height / 2,
                0 <= row <= c.rows,
                bricks.len() == row * n,
                forall|i: int|
                    0 <= i < bricks.len() ==> #[trigger] bricks@[i] == grid_brick(
                        field,
                        *c,
                        i / n as int,
                        i % n as int,
                    ),
            decreases c.rows - row,
        {
            let mut col: usize = 0;
            while col < n
                invariant
                    config_wf(field, *c),
                    n == c.columns,
                    hw == brick_half_width(field, *c),
                    hh == c.brick_height / 2,
                    0 <= row < c.rows,
                    0 <= col <= n,
                    bricks.len() == row * n + col,
                    forall|i: int|
                        0 <= i < bricks.len() ==> #[trigger] bricks@[i] == grid_brick(
                            field,
                            *c,
                            i / n as int,
                            i % n as int,
                        ),
                decreases n - col,
            {
                let ghost g = grid_brick(field, *c, row as int, col as int);
                proof {
                    lemma_grid_brick_wf(field, *c, row as int, col as int);
                    assert(row * n + col < c.rows * n) by (nonlinear_arith)
                        requires
                            row < c.rows,
                            col < n,
                    ;
                    vstd::arithmetic::div_mod::lemma_fundamental_div_mod_converse(
                        (row * n + col) as int,
                        n as int,
                        row as int,
                        col as int,
                    );
                }
                let x = -field.x + c.gutter + hw + (col as i64) * (2 * hw + c.gap);
                let y = field.y - c.gutter - hh - (row as i64) * (2 * hh + c.gap);
                let b = Brick {
                    bounds: Aabb { center: Vec2 { x, y }, half: Vec2 { x: hw, y: hh } },
                    alive: true,
                };
                assert(b == g);
                bricks.push(b);
                col = col + 1;
            }
            proof {
                assert((row + 1) * n == row * n + n) by (nonlinear_arith);
            }
            row = row + 1;
        }
        let w = World {
            field,
            paddle: Aabb { center: Vec2 { x: 0, y: -field.y + c.paddle_lift }, half: c.paddle_half },
            ball: Ball {
                pos: Vec2 { x: 0, y: -field.y + c.ball_lift },
                heading: c.ball_heading,
                speed: c.ball_speed,
                radius: c.ball_radius,
            },
            bricks,
            speed_cap: c.speed_cap,
            paddle_speed: c.paddle_speed,
        };
        proof {
            assert forall|i: int| 0 <= i < w@.bricks.len() implies (#[trigger] w@.bricks[i]).bounds.wf() by {
                vstd::arithmetic::div_mod::lemma_fundamental_div_mod(i, n as int);
                assert(0 <= i / (n as int)) by (nonlinear_arith)
                    requires
                        i >= 0,
                        n >= 1,
                ;
                assert(i / (n as int) < c.rows) by (nonlinear_arith)
                    requires
                        0 <= i < c.rows * n,
                        n >= 1,
                ;
                lemma_grid_brick_wf(field, *c, i / n as int, i % n as int);
            }
        }
        w
    }

    /// A world from its parts, which must already be consistent.
    pub fn from_parts(
        field: Vec2,
        paddle: Aabb,
        ball: Ball,
        bricks: Vec<Brick>,
        speed_cap: i64,
        paddle_speed: i64,
    ) -> (w: World)
        requires
            (WorldView {
                field,
                paddle,
                ball,
                bricks: bricks@,
                speed_cap: speed_cap as int,
                paddle_speed: paddle_speed as int,
            }).wf(),
        ensures
            w@ == (WorldView {
                field,
                paddle,
                ball,
                bricks: bricks@,
                speed_cap: speed_cap as int,
                paddle_speed: paddle_speed as int,
            }),
            w.wf(),
    {
        World { field, paddle, ball, bricks, speed_cap, paddle_speed }
    }

    pub fn ball(&self) -> (r: Ball)
        ensures
            r == self@.ball,
    {
        self.ball
    }

    pub fn paddle(&self) -> (r: Aabb)
        ensures
            r == self@.paddle,
    {
        self.paddle
    }

    pub fn field(&self) -> (r: Vec2)
        ensures
            r == self@.field,
    {
        self.field
    }

    pub fn speed_cap(&self) -> (r: i64)
        ensures
            r == self@.speed_cap,
    {
        self.speed_cap
    }

    /// The number of brick slots, live or not.
    pub fn brick_slots(&self) -> (r: usize)
        ensures
            r == self@.bricks.len(),
    {
        self.bricks.len()
    }

    /// The brick in slot `i`.
    pub fn brick(&self, i: usize) -> (r: Brick)
        requires
            i < self@.bricks.len(),
        ensures
            r == self@.bricks[i as int],
    {
        self.bricks[i]
    }
}

} // verus!
