//! Conway's Game of Life on a sparse grid of tracked cells.
//!
//! The grid maps integer coordinates to a live/dead flag; a coordinate without an
//! entry is dead. One generation evaluates the rule on every tracked coordinate
//! against the grid as it was before the step and applies all changes at once.

pub mod coord;
pub mod engine;
pub mod grid;
pub mod rule;

pub use coord::{Bounds, Cell};
pub use engine::{AutomatonEngine, GameState};
pub use grid::{Cells, Change};
