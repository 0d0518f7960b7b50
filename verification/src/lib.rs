//! A verified cellular-automaton engine: a Game of Life variant with a
//! three-state cell lifecycle (dead / alive / recently dead) on a fixed-size
//! toroidal grid.
//!
//! The engine owns the cell buffer and all transition logic. Rendering,
//! DOM/canvas access and the random source live outside the engine; they
//! exchange plain values with it.

pub mod cell;
pub mod color;
pub mod grid;

pub use cell::Cell;
pub use color::Color;
pub use grid::Universe;
