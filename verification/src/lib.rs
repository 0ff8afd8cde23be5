//! Two Kings: a puzzle played on a coloured grid. Every cell is cycled by the
//! player through three marks, and after each change the engine decides which
//! of the placed kings break a placement rule and whether the board is full.

pub mod color;
pub mod definition;
pub mod grid;
pub mod laws;
pub mod marker;
pub mod position;
pub mod rules;

pub use color::Color;
pub use definition::LoadError;
pub use grid::{Grid, ShapeError};
pub use marker::ClickState;
pub use position::{touching_neighbors, Position};
pub use rules::MAX_KINGS;
