//! Rules engine for a 5x5 placement-and-flick game: board state, move
//! generation, move application, static evaluation and alpha-beta search.

pub mod board;
pub mod action;
pub mod movegen;
pub mod eval;
pub mod search;
