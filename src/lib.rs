//! Simulation core of a side-scrolling arcade game: a player sprite falls
//! under a saturating gravity factor, jumps on a key press, and must pass
//! through the gaps of obstacles that scroll in from the right.
//!
//! Positions and factors are kept as exact fixed-point integers: the player's
//! vertical position in units of 1/600 of a pixel and the velocity factor in
//! units of 1/400, so that every step of the motion is integral.
pub mod blocks;
pub mod game;
pub mod laws;
pub mod render;
