//! A located piece of any kind.

use vstd::prelude::*;
use crate::chess::board::board::{letter_of, Board, Piece};
use crate::chess::board::coordinates::Coordinates;
use crate::chess::board::rules::valid_move;
use crate::chess::piece::piece::{ChessPiece, Color, PieceType};
use crate::chess::piece::types::bishop::Bishop;
use crate::chess::piece::types::king::King;
use crate::chess::piece::types::knight::Knight;
use crate::chess::piece::types::pawn::Pawn;
use crate::chess::piece::types::queen::Queen;
use crate::chess::piece::types::rook::Rook;
use crate::chess::text::text_of;

verus! {

/// A piece of one of the six kinds, with its side and its square.
#[derive(Debug, Clone, Copy, PartialEq, Eq, Structural)]
pub enum ChessPieceEnum {
    Pawn(Pawn),
    Knight(Knight),
    Bishop(Bishop),
    Rook(Rook),
    Queen(Queen),
    King(King),
}

impl ChessPieceEnum {
    /// The kind and the side of the piece.
    pub open spec fn piece(self) -> Piece {
        match self {
            ChessPieceEnum::Pawn(p) => Piece { piece_type: PieceType::Pawn, color: p.color },
            ChessPieceEnum::Knight(p) => Piece { piece_type: PieceType::Knight, color: p.color },
            ChessPieceEnum::Bishop(p) => Piece { piece_type: PieceType::Bishop, color: p.color },
            ChessPieceEnum::Rook(p) => Piece { piece_type: PieceType::Rook, color: p.color },
            ChessPieceEnum::Queen(p) => Piece { piece_type: PieceType::Queen, color: p.color },
            ChessPieceEnum::King(p) => Piece { piece_type: PieceType::King, color: p.color },
        }
    }

    /// The square that the piece takes itself to stand on.
    pub open spec fn place(self) -> Coordinates {
        match self {
            ChessPieceEnum::Pawn(p) => p.coordinates,
            ChessPieceEnum::Knight(p) => p.coordinates,
            ChessPieceEnum::Bishop(p) => p.coordinates,
            ChessPieceEnum::Rook(p) => p.coordinates,
            ChessPieceEnum::Queen(p) => p.coordinates,
            ChessPieceEnum::King(p) => p.coordinates,
        }
    }

    /// The located piece of kind and side `piece` on the square `place`.
    pub open spec fn located(piece: Piece, place: Coordinates) -> ChessPieceEnum {
        match piece.piece_type {
            PieceType::Pawn => ChessPieceEnum::Pawn(Pawn { color: piece.color, coordinates: place }),
            PieceType::Knight => ChessPieceEnum::Knight(
                Knight { color: piece.color, coordinates: place },
            ),
            PieceType::Bishop => ChessPieceEnum::Bishop(
                Bishop { color: piece.color, coordinates: place },
            ),
            PieceType::Rook => ChessPieceEnum::Rook(Rook { color: piece.color, coordinates: place }),
            PieceType::Queen => ChessPieceEnum::Queen(
                Queen { color: piece.color, coordinates: place },
            ),
            PieceType::King => ChessPieceEnum::King(King { color: piece.color, coordinates: place }),
        }
    }

    /// Builds the located piece of kind and side `piece` on `place`.
    pub fn locate(piece: Piece, place: Coordinates) -> (located: ChessPieceEnum)
        ensures
            located == Self::located(piece, place),
            located.piece() == piece,
            located.place() == place,
    {
        match piece.piece_type {
            PieceType::Pawn => ChessPieceEnum::Pawn(Pawn::new(piece.color, place)),
            PieceType::Knight => ChessPieceEnum::Knight(Knight::new(piece.color, place)),
            PieceType::Bishop => ChessPieceEnum::Bishop(Bishop::new(piece.color, place)),
            PieceType::Rook => ChessPieceEnum::Rook(Rook::new(piece.color, place)),
            PieceType::Queen => ChessPieceEnum::Queen(Queen::new(piece.color, place)),
            PieceType::King => ChessPieceEnum::King(King::new(piece.color, place)),
        }
    }

    /// Returns the kind of the piece.
    pub fn piece_type(&self) -> (kind: PieceType)
        ensures
            kind == self.piece().piece_type,
    {
        match self {
            ChessPieceEnum::Pawn(_) => PieceType::Pawn,
            ChessPieceEnum::Knight(_) => PieceType::Knight,
            ChessPieceEnum::Bishop(_) => PieceType::Bishop,
            ChessPieceEnum::Rook(_) => PieceType::Rook,
            ChessPieceEnum::Queen(_) => PieceType::Queen,
            ChessPieceEnum::King(_) => PieceType::King,
        }
    }

    /// Returns the kind of the piece.
    pub fn get_piece_type(&self) -> (kind: PieceType)
        ensures
            kind == self.piece().piece_type,
    {
        self.piece_type()
    }

    /// Returns the side of the piece.
    pub fn color(&self) -> (side: Color)
        ensures
            side == self.piece().color,
    {
        match self {
            ChessPieceEnum::Pawn(pawn) => pawn.color,
            ChessPieceEnum::Knight(knight) => knight.color,
            ChessPieceEnum::Bishop(bishop) => bishop.color,
            ChessPieceEnum::Rook(rook) => rook.color,
            ChessPieceEnum::Queen(queen) => queen.color,
            ChessPieceEnum::King(king) => king.color,
        }
    }

    /// Returns the square of the piece.
    pub fn coordinates(&self) -> (place: Coordinates)
        ensures
            place == self.place(),
    {
        match self {
            ChessPieceEnum::Pawn(pawn) => pawn.coordinates,
            ChessPieceEnum::Knight(knight) => knight.coordinates,
            ChessPieceEnum::Bishop(bishop) => bishop.coordinates,
            ChessPieceEnum::Rook(rook) => rook.coordinates,
            ChessPieceEnum::Queen(queen) => queen.coordinates,
            ChessPieceEnum::King(king) => king.coordinates,
        }
    }

    /// Tells whether the piece may move to `destination` on `board`:
    /// whether `destination` is one of its pseudo-legal targets and, with
    /// `check_for_check` set, the move leaves the king of its side out of
    /// check.
    pub fn is_valid_move(&self, destination: Coordinates, board: &Board, check_for_check: bool) -> (valid:
        bool)
        ensures
            valid == valid_move(board@, self.place(), self.piece(), destination, check_for_check),
    {
        match self {
            ChessPieceEnum::Pawn(pawn) => pawn.is_valid_move(destination, board, check_for_check),
            ChessPieceEnum::Knight(knight) => knight.is_valid_move(
                destination,
                board,
                check_for_check,
            ),
            ChessPieceEnum::Bishop(bishop) => bishop.is_valid_move(
                destination,
                board,
                check_for_check,
            ),
            ChessPieceEnum::Rook(rook) => rook.is_valid_move(destination, board, check_for_check),
            ChessPieceEnum::Queen(queen) => queen.is_valid_move(
                destination,
                board,
                check_for_check,
            ),
            ChessPieceEnum::King(king) => king.is_valid_move(destination, board, check_for_check),
        }
    }

    /// Gives the piece to side `color` and puts it on `coordinates`; its
    /// kind stays.
    pub fn change_color_and_coordinates(&mut self, color: Color, coordinates: Coordinates)
        ensures
            *final(self) == Self::located(
                Piece { piece_type: old(self).piece().piece_type, color },
                coordinates,
            ),
    {
        let kind = self.piece_type();
        *self = Self::locate(Piece { piece_type: kind, color }, coordinates);
    }

    /// Puts the piece on `coordinates`; its kind and side stay.
    pub fn set_coordinates(&mut self, coordinates: Coordinates)
        ensures
            *final(self) == Self::located(old(self).piece(), coordinates),
    {
        let piece = Piece { piece_type: self.piece_type(), color: self.color() };
        *self = Self::locate(piece, coordinates);
    }

    /// The letter of the piece as a text of one character: `PNBRQK` for
    /// White, `pnbrqk` for Black.
    pub fn to_string(&self) -> (text: String)
        ensures
            text@ == seq![letter_of(self.piece())],
    {
        let piece = Piece { piece_type: self.piece_type(), color: self.color() };
        let mut letters: Vec<char> = Vec::new();
        letters.push(piece.symbol());
        assert(letters@ =~= seq![letter_of(self.piece())]);
        text_of(&letters)
    }
}

} // verus!
