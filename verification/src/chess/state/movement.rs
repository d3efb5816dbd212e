//! A move as the engine enumerates it.

use vstd::prelude::*;
use crate::chess::board::coordinates::Coordinates;
use crate::chess::piece::piece::PieceType;

verus! {

/// A move: the square left, the square reached and the kind of the piece
/// that moves.
#[derive(Debug, Clone, Copy, PartialEq, Eq, Structural)]
pub struct Move {
    pub piece_type: PieceType,
    pub from: Coordinates,
    pub to: Coordinates,
}

impl Move {
    /// A move of a piece of kind `piece_type` from `from` to `to`.
    pub fn new(from: Coordinates, to: Coordinates, piece_type: PieceType) -> (m: Move)
        ensures
            m == (Move { piece_type, from, to }),
    {
        Move { from, to, piece_type }
    }

    /// The square that the piece leaves.
    pub fn from(&self) -> (c: Coordinates)
        ensures
            c == self.from,
    {
        self.from
    }

    /// The square that the piece reaches.
    pub fn to(&self) -> (c: Coordinates)
        ensures
            c == self.to,
    {
        self.to
    }

    /// The kind of the piece that moves.
    pub fn piece_type(&self) -> (t: PieceType)
        ensures
            t == self.piece_type,
    {
        self.piece_type
    }
}

} // verus!
