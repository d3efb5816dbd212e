//! The kinds of piece, the two colors and castling bookkeeping.

use vstd::prelude::*;
use crate::chess::board::board::{Board, Piece};
use crate::chess::board::coordinates::{distance, Coordinates};
use crate::chess::board::moving::moved_by_rule;
use crate::chess::board::rules::valid_move;
use crate::chess::error::ChessError;
use crate::chess::piece::piece_enum::ChessPieceEnum;

verus! {

/// The six kinds of chess piece.
#[derive(Debug, Clone, Copy, PartialEq, Eq, Structural)]
pub enum PieceType {
    Pawn,
    Knight,
    Bishop,
    Rook,
    Queen,
    King,
}

/// The two sides.
#[derive(Debug, Clone, Copy, PartialEq, Eq, Structural)]
pub enum Color {
    White,
    Black,
}

impl Color {
    /// The opposite side.
    pub open spec fn opposite(self) -> Color {
        match self {
            Color::White => Color::Black,
            Color::Black => Color::White,
        }
    }

    /// The rank on which this side's king and rooks start.
    pub open spec fn back_rank(self) -> int {
        match self {
            Color::White => 1,
            Color::Black => 8,
        }
    }

    /// The rank on which this side's pawns start.
    pub open spec fn pawn_rank(self) -> int {
        match self {
            Color::White => 2,
            Color::Black => 7,
        }
    }

    /// The change of rank when a pawn of this side advances by one.
    pub open spec fn forward(self) -> int {
        match self {
            Color::White => 1,
            Color::Black => -1,
        }
    }

    /// Returns the opposite side.
    pub fn reverse(&self) -> (other: Color)
        ensures
            other == self.opposite(),
    {
        match self {
            Color::White => Color::Black,
            Color::Black => Color::White,
        }
    }
}

/// The four castling rights of a position.
#[derive(Debug, Clone, Copy, PartialEq, Eq, Structural)]
pub struct CastlingRights {
    pub white_kingside: bool,
    pub white_queenside: bool,
    pub black_kingside: bool,
    pub black_queenside: bool,
}

impl CastlingRights {
    /// The right of `color` to castle on the king's side.
    pub open spec fn kingside(self, color: Color) -> bool {
        match color {
            Color::White => self.white_kingside,
            Color::Black => self.black_kingside,
        }
    }

    /// The right of `color` to castle on the queen's side.
    pub open spec fn queenside(self, color: Color) -> bool {
        match color {
            Color::White => self.white_queenside,
            Color::Black => self.black_queenside,
        }
    }

    /// The rights with both of `color` withdrawn.
    pub open spec fn without(self, color: Color) -> CastlingRights {
        match color {
            Color::White => CastlingRights { white_kingside: false, white_queenside: false, ..self },
            Color::Black => CastlingRights { black_kingside: false, black_queenside: false, ..self },
        }
    }

    /// The rights with the king's side of `color` withdrawn.
    pub open spec fn without_kingside(self, color: Color) -> CastlingRights {
        match color {
            Color::White => CastlingRights { white_kingside: false, ..self },
            Color::Black => CastlingRights { black_kingside: false, ..self },
        }
    }

    /// The rights with the queen's side of `color` withdrawn.
    pub open spec fn without_queenside(self, color: Color) -> CastlingRights {
        match color {
            Color::White => CastlingRights { white_queenside: false, ..self },
            Color::Black => CastlingRights { black_queenside: false, ..self },
        }
    }
}

impl Default for CastlingRights {
    /// All four rights granted, as at the start of a game.
    fn default() -> (rights: CastlingRights)
        ensures
            rights.white_kingside,
            rights.white_queenside,
            rights.black_kingside,
            rights.black_queenside,
    {
        CastlingRights {
            white_kingside: true,
            white_queenside: true,
            black_kingside: true,
            black_queenside: true,
        }
    }
}

/// Castling rights behind private fields, read through `rights`.
#[derive(Debug, Clone, Copy, PartialEq, Eq)]
pub struct Castle {
    white_castle_king_side: bool,
    white_castle_queen_side: bool,
    black_castle_king_side: bool,
    black_castle_queen_side: bool,
}

impl View for Castle {
    type V = CastlingRights;

    closed spec fn view(&self) -> CastlingRights {
        CastlingRights {
            white_kingside: self.white_castle_king_side,
            white_queenside: self.white_castle_queen_side,
            black_kingside: self.black_castle_king_side,
            black_queenside: self.black_castle_queen_side,
        }
    }
}

impl Castle {
    /// Records the four rights as given.
    pub fn new(
        white_castle_king_side: bool,
        white_castle_queen_side: bool,
        black_castle_king_side: bool,
        black_castle_queen_side: bool,
    ) -> (castle: Castle)
        ensures
            castle@ == (CastlingRights {
                white_kingside: white_castle_king_side,
                white_queenside: white_castle_queen_side,
                black_kingside: black_castle_king_side,
                black_queenside: black_castle_queen_side,
            }),
    {
        Castle {
            white_castle_king_side,
            white_castle_queen_side,
            black_castle_king_side,
            black_castle_queen_side,
        }
    }

    /// Withdraws all four rights.
    pub fn reset(&mut self)
        ensures
            final(self)@ == (CastlingRights {
                white_kingside: false,
                white_queenside: false,
                black_kingside: false,
                black_queenside: false,
            }),
    {
        self.white_castle_king_side = false;
        self.white_castle_queen_side = false;
        self.black_castle_king_side = false;
        self.black_castle_queen_side = false;
    }

    /// Returns the rights that are recorded.
    pub fn rights(&self) -> (rights: CastlingRights)
        ensures
            rights == self@,
    {
        CastlingRights {
            white_kingside: self.white_castle_king_side,
            white_queenside: self.white_castle_queen_side,
            black_kingside: self.black_castle_king_side,
            black_queenside: self.black_castle_queen_side,
        }
    }
}

/// A piece of kind `kind` and side `side` on `place` could take a piece of
/// side `target_side` on `target_place`, the rest of the board left aside:
/// the two are of different sides, and for a pawn the target is one file
/// and one rank away.
pub open spec fn could_capture(
    kind: PieceType,
    side: Color,
    place: Coordinates,
    target_side: Color,
    target_place: Coordinates,
) -> bool {
    side != target_side && (kind == PieceType::Pawn ==> distance(
        place.x as int,
        target_place.x as int,
    ) == 1 && distance(place.y as int, target_place.y as int) == 1)
}

/// A piece that knows its side and the square it stands on.
pub trait ChessPiece {
    /// The kind of the piece.
    spec fn kind(&self) -> PieceType;

    /// The side of the piece.
    spec fn side(&self) -> Color;

    /// The square that the piece takes itself to stand on.
    spec fn place(&self) -> Coordinates;

    /// Returns the kind of the piece.
    fn piece_type(&self) -> (kind: PieceType)
        ensures
            kind == self.kind(),
    ;

    /// Returns the side of the piece.
    fn color(&self) -> (side: Color)
        ensures
            side == self.side(),
    ;

    /// Returns the square of the piece.
    fn coordinates(&self) -> (place: Coordinates)
        ensures
            place == self.place(),
    ;

    /// Gives the piece to side `color`; kind and square stay.
    fn change_color(&mut self, color: Color)
        ensures
            final(self).side() == color,
            final(self).kind() == old(self).kind(),
            final(self).place() == old(self).place(),
    ;

    /// Puts the piece on the square `coordinates`; kind and side stay.
    fn change_coordinates(&mut self, coordinates: Coordinates)
        ensures
            final(self).place() == coordinates,
            final(self).kind() == old(self).kind(),
            final(self).side() == old(self).side(),
    ;

    /// Tells whether the piece could take `target`, the rest of the board
    /// left aside; see `could_capture`.
    fn can_capture(&self, target: &ChessPieceEnum) -> (able: bool)
        ensures
            able == could_capture(
                self.kind(),
                self.side(),
                self.place(),
                target.piece().color,
                target.place(),
            ),
    ;

    /// Moves what stands on the piece's square of `board` to
    /// `destination`, as `Board::move_piece_with_coordinates` does.
    fn move_to(&self, destination: Coordinates, board: &mut Board) -> (done: Result<
        (),
        ChessError,
    >)
        ensures
            moved_by_rule(old(board)@, self.place(), destination, done, final(board)@),
    ;

    /// Tells whether the piece may move to `destination` on `board`:
    /// whether `destination` is one of its pseudo-legal targets and, with
    /// `filter_check` set, the move leaves the king of its side out of
    /// check.
    fn is_valid_move(&self, destination: Coordinates, board: &Board, filter_check: bool) -> (valid:
        bool)
        ensures
            valid == valid_move(
                board@,
                self.place(),
                Piece { piece_type: self.kind(), color: self.side() },
                destination,
                filter_check,
            ),
    ;
}

} // verus!
