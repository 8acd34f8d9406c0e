//! Conway's Game of Life on a fixed-size rectangular grid.
//!
//! The `board` module holds the executable grid type; the `rules` module
//! holds the mathematical model of the transition rule and the lemmas
//! proved about it.

pub mod board;
pub mod rules;
