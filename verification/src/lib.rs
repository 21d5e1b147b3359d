//! A toroidal Game of Life board with an optional "drylife" birth rule.
//!
//! The executable type is [`ConwayBoard`]. Its contracts are stated over
//! [`Grid`], a mathematical model of the board, where one generation is the
//! spec function [`Grid::step`].

pub mod board;
pub mod grid;
pub mod laws;
mod random;
pub mod rule;
pub mod torus;

pub use board::ConwayBoard;
pub use grid::Grid;
pub use rule::{next_state, Variant};
