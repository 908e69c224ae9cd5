//! Conway's Game of Life on a fixed-size toroidal grid, one bit per cell.
//!
//! The grid is a [`Universe`]: its cells live in a packed bit set and are
//! addressed in row-major order. Every operation carries a contract over the
//! grid's view, the sequence of its cell states, and the generational update
//! rule is proved against a mathematical model of the game.

pub mod bitset;
pub mod laws;
pub mod model;
pub mod universe;

pub use universe::Cell;
pub use universe::Universe;
