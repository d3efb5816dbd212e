//! Moves and the state of play.

pub mod movement;
pub mod chess_move;
