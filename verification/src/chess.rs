//! The chess engine: pieces, the board and its rules.

pub mod error;
pub mod text;
pub mod sequences;
pub mod piece;
pub mod board;
pub mod state;
