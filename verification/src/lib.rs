//! Noughts and crosses for two players on a grid of three rows and three
//! columns, with the rules of play stated as contracts and proved.
//!
//! - [`player`]: the two sides, their symbols, and whose turn is next.
//! - [`board`]: the cells, the legal moves, and the placing of marks.
//! - [`lines`]: the eight winning lines, and the tests for a win and a draw.
//! - [`session`]: one game, from the empty grid to its end.
//! - [`input`]: the cell number that a line of text names.
//! - [`render`]: the board as text.

pub mod board;
pub mod input;
pub mod lines;
pub mod player;
pub mod render;
pub mod session;
