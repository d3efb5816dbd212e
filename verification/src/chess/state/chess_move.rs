//! A move together with the way it is written down.

use vstd::prelude::*;
use crate::chess::board::board::{kind_letter, Board, Position};
use crate::chess::board::coordinates::Coordinates;
use crate::chess::board::notation::Notation;
use crate::chess::piece::piece::PieceType;

verus! {

/// A move: the square left, the square reached and the kind of the piece
/// that moves.
#[derive(Debug, Clone, Copy, PartialEq, Eq, Structural)]
pub struct ChessMove {
    pub piece_type: PieceType,
    pub from: Coordinates,
    pub to: Coordinates,
}

/// The letter that a move of a piece of kind `kind` begins with: none for
/// a pawn, the capital letter of the kind for every other piece.
pub open spec fn kind_prefix(kind: PieceType) -> Seq<char> {
    if kind == PieceType::Pawn {
        Seq::empty()
    } else {
        seq![(kind_letter(kind) as int - 'a' as int + 'A' as int) as char]
    }
}

/// The mark of a capture: the file left and an `x`, where the square
/// reached is occupied; nothing where it is empty.
pub open spec fn capture_mark(pos: Position, m: ChessMove) -> Seq<char> {
    if pos.is_empty(m.to) {
        Seq::empty()
    } else {
        seq![Notation::of(m.from).file, 'x']
    }
}

/// The move as it is written down: the letter of the piece, the mark of a
/// capture and the name of the square reached, as in `Nf3` and `exd5`.
pub open spec fn san_text(pos: Position, m: ChessMove) -> Seq<char> {
    kind_prefix(m.piece_type) + capture_mark(pos, m) + seq![
        Notation::of(m.to).file,
        Notation::of(m.to).rank,
    ]
}

impl ChessMove {
    /// A move of a piece of kind `piece_type` from `from` to `to`.
    pub fn new(from: Coordinates, to: Coordinates, piece_type: PieceType) -> (m: ChessMove)
        ensures
            m == (ChessMove { piece_type, from, to }),
    {
        ChessMove { from, to, piece_type }
    }

    /// Writes the move down as it is played on `board`. Both squares of
    /// the move must lie on the board.
    pub fn to_san(&self, board: &Board) -> (san: String)
        requires
            self.from.on_board(),
            self.to.on_board(),
        ensures
            san@ == san_text(board@, *self),
    {
        let mut san = String::new();
        match self.piece_type {
            PieceType::Pawn => {},
            PieceType::Knight => {
                san.push('N');
            },
            PieceType::Bishop => {
                san.push('B');
            },
            PieceType::Rook => {
                san.push('R');
            },
            PieceType::Queen => {
                san.push('Q');
            },
            PieceType::King => {
                san.push('K');
            },
        }
        assert(san@ =~= kind_prefix(self.piece_type));
        if board.get(self.to).is_some() {
            san.push((('a' as u8) + (self.from.x - 1) as u8) as char);
            san.push('x');
        }
        assert(san@ =~= kind_prefix(self.piece_type) + capture_mark(board@, *self));
        san.push((('a' as u8) + (self.to.x - 1) as u8) as char);
        san.push((('1' as u8) + (self.to.y - 1) as u8) as char);
        assert(san@ =~= san_text(board@, *self));
        san
    }

    /// The square that the piece leaves.
    pub fn from(&self) -> (c: Coordinates)
        ensures
            c == self.from,
    {
        self.from
    }

    /// The square that the piece reaches.
    pub fn to(&self) -> (c: Coordinates)
        ensures
            c == self.to,
    {
        self.to
    }

    /// The kind of the piece that moves.
    pub fn piece_type(&self) -> (t: PieceType)
        ensures
            t == self.piece_type,
    {
        self.piece_type
    }
}

} // verus!
