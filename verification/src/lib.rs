//! Column Clearer: a fixed-tick arcade shooter simulation.
//!
//! The simulation core owns all game state: a player that slides along the
//! bottom of a bounded playfield, projectiles fired upward on a fixed cadence,
//! enemies drifting down from the top, and static multiplier lines that split
//! a crossing projectile into a fan of new ones.
//!
//! All coordinates are integer fixed-point units, `SUBPIXELS` units per screen
//! pixel. The scale is chosen so that every speed, size and fan offset in the
//! design is a whole number of units. Rendering and input-device handling are
//! external collaborators: a renderer reads the public fields of [`game::App`]
//! between frames, and an input source calls its mutation entry points.

pub mod frame;
pub mod game;
pub mod laws;
pub mod update;
