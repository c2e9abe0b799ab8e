//! Pseudo-legal chess move generation on bitboards, with magic-number
//! perfect hashing for the sliding pieces.

pub mod board;
pub mod evaluation;
pub mod movegen;
pub mod utils;
