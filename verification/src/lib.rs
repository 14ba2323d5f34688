//! Conway's Game of Life on a torus, with machine-checked contracts.

pub mod grid;
pub mod patterns;
pub mod universe;

pub use grid::Grid;
pub use universe::{ConfigError, Universe};
