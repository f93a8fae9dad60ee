//! Conway's Game of Life on a fixed-size toroidal grid.
//!
//! The engine stores one bit per cell in a packed bitset, advances the grid
//! one generation at a time against a snapshot of the previous generation,
//! and records every cell whose state changed so a renderer can repaint only
//! what moved.

pub mod bitset;
pub mod life;
pub mod universe;

pub use universe::Change;
pub use universe::Universe;
