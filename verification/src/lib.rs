//! Core logic of a Minesweeper game: a reproducible pseudo-random generator
//! and the board engine that places mines, counts adjacent mines and applies
//! reveal and flag moves.

pub mod board;
pub mod cascade;
pub mod cell;
pub mod error;
pub mod grid;
pub mod laws;
pub mod minesweeper;
pub mod placement;
pub mod random;
pub mod render;
