//! The core of a small arcade game: a boat moves along the bottom of the
//! screen and catches seagulls that fall from the top.
//!
//! The world is integer-valued. Positions are in sub-units, a sixtieth of a
//! world unit, and the simulation advances in fixed steps of a sixtieth of a
//! second, so a velocity in world units per second moves an entity by exactly
//! that many sub-units per step.
//!
//! - `geometry`: points, axis-aligned rectangles and their overlap test.
//! - `physics`: fixed-step motion and the interpolated position to draw.
//! - `game`: the game state and its systems: input, spawning, collision,
//!   scoring and removal of fallen seagulls.
//! - `laws`: properties of the game that hold across several steps.

pub mod game;
pub mod geometry;
pub mod laws;
pub mod physics;
mod random;
