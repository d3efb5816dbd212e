//! The board, its squares and the text notations that describe them.

pub mod coordinates;
pub mod notation;
pub mod board;
pub mod rules;
pub mod movegen;
pub mod legality;
pub mod executor;
pub mod laws;
pub mod game_state;
pub mod fen;
pub mod fen_laws;
pub mod moving;
pub mod notation_parser;
pub mod diagram;
pub mod fen_diagram;
