use vstd::prelude::*;
use crate::world::{alive_count, bricks_only_vanish, tick_spec, PaddleInput, World};

verus! {

/// The mode of the game; gameplay runs only in `Play`. `Menu` is a mode that
/// no transition leads to.
#[derive(Clone, Copy, Debug, PartialEq, Eq, Structural)]
pub enum GameState {
    Splash,
    Menu,
    Play,
    Pause,
}

/// The mode once `elapsed` of a splash lasting `duration` has passed: the
/// splash gives way to play once, when its time is up.
pub open spec fn splash_timer_spec(s: GameState, elapsed: u64, duration: u64) -> GameState {
    if s == GameState::Splash && elapsed >= duration {
        GameState::Play
    } else {
        s
    }
}

pub fn splash_timer(s: GameState, elapsed: u64, duration: u64) -> (r: GameState)
    ensures
        r == splash_timer_spec(s, elapsed, duration),
{
    match s {
        GameState::Splash => if elapsed >= duration {
            GameState::Play
        } else {
            GameState::Splash
        },
        _ => s,
    }
}

/// The pause action: play and pause swap; other modes ignore it.
pub open spec fn toggle_pause_spec(s: GameState) -> GameState {
    match s {
        GameState::Play => GameState::Pause,
        GameState::Pause => GameState::Play,
        _ => s,
    }
}

pub fn toggle_pause(s: GameState) -> (r: GameState)
    ensures
        r == toggle_pause_spec(s),
{
    match s {
        GameState::Play => GameState::Pause,
        GameState::Pause => GameState::Play,
        _ => s,
    }
}

/// Toggling twice comes back to the mode toggled from: no state is lost
/// across a pause.
pub proof fn lemma_pause_round_trip(s: GameState)
    requires
        s == GameState::Play || s == GameState::Pause,
    ensures
        toggle_pause_spec(toggle_pause_spec(s)) == s,
{
}

/// A play session: the mode and the world it gates.
pub struct Session {
    pub state: GameState,
    pub world: World,
}

impl Session {
    /// A session starts on the splash screen.
    pub fn new(world: World) -> (r: Session)
        ensures
            r.state == GameState::Splash,
            r.world@ == world@,
    {
        Session { state: GameState::Splash, world }
    }

    /// One fixed tick: the world advances only in play; in any other mode it
    /// is left exactly as it was. The ball's speed never falls and never
    /// passes the cap.
    pub fn step(&mut self, input: PaddleInput, hz: u64)
        requires
            old(self).world.wf(),
            hz > 0,
        ensures
            final(self).state == old(self).state,
            final(self).world.wf(),
            old(self).state == GameState::Play ==> final(self).world@ == tick_spec(
                old(self).world@,
                input,
                hz as int,
            ),
            old(self).state != GameState::Play ==> final(self).world@ == old(self).world@,
            old(self).world@.ball.speed <= final(self).world@.ball.speed
                <= final(self).world@.speed_cap,
            alive_count(final(self).world@.bricks) <= alive_count(old(self).world@.bricks),
            bricks_only_vanish(old(self).world@.bricks, final(self).world@.bricks),
    {
        if let GameState::Play = self.state {
            self.world.tick(input, hz);
        }
    }
}

} // verus!
