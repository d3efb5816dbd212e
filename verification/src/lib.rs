//! A chess position and move-legality engine.
//!
//! The crate models a chess position, reads and writes Forsyth–Edwards
//! Notation, enumerates the moves that are legal under the full rules
//! (castling, en passant and promotion included), applies a move to a
//! position and classifies a position as normal, check, checkmate or
//! stalemate. Every function carries a contract over a mathematical model of
//! the position.

pub mod chess;
