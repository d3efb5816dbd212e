//! The classification of a position for one side.

use vstd::prelude::*;
use crate::chess::board::board::{Board, Position};
use crate::chess::board::rules::{in_check, no_legal_move};
use crate::chess::piece::piece::Color;

verus! {

/// How a side stands in a position.
#[derive(Debug, Clone, Copy, PartialEq, Eq, Structural)]
pub enum GameState {
    /// Not in check, and a legal move exists.
    Normal,
    /// In check, and a legal move exists.
    Check,
    /// In check, and no legal move exists.
    Checkmate,
    /// Not in check, and no legal move exists.
    Stalemate,
}

/// How side `color` stands in `pos`, by whether it is in check and whether
/// it has a legal move.
pub open spec fn state_of(pos: Position, color: Color) -> GameState {
    if in_check(pos, color) {
        if no_legal_move(pos, color) {
            GameState::Checkmate
        } else {
            GameState::Check
        }
    } else {
        if no_legal_move(pos, color) {
            GameState::Stalemate
        } else {
            GameState::Normal
        }
    }
}

impl Board {
    /// Classifies the position for side `color`. The position is only read.
    pub fn game_state(&self, color: Color) -> (state: GameState)
        ensures
            state == state_of(self@, color),
    {
        let check = self.is_king_in_check(color);
        let stuck = self.legal_moves_of(color).len() == 0;
        if check && stuck {
            GameState::Checkmate
        } else if check {
            GameState::Check
        } else if stuck {
            GameState::Stalemate
        } else {
            GameState::Normal
        }
    }
}

} // verus!
