//! Small helpers shared by the board and the move generator.

pub mod bits;
