//! A fixed-timestep 2D ball-and-brick physics core: geometry, paddle input
//! mapping, integration, collision detection and response, the reactions to
//! each collision, and the splash/play/pause state machine.
//!
//! All quantities are integers in a unit the caller picks (a thousandth of a
//! pixel works well), bounded by `geometry::MAX_COORD`. Divisions round toward
//! zero and lengths are integer square roots. The ball's velocity is kept as
//! a heading and a speed, so that reflections and paddle steering keep the
//! speed exactly; a heading with large components (around a million) keeps
//! the rounding of its direction small.

pub mod geometry;
pub mod ball;
pub mod paddle;
pub mod collision;
pub mod world;
pub mod state;
