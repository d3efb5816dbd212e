//! The pawn.

use vstd::prelude::*;
use crate::chess::board::board::Board;
use crate::chess::board::coordinates::Coordinates;
use crate::chess::error::ChessError;
use crate::chess::piece::piece::{ChessPiece, Color, PieceType};
use crate::chess::piece::piece_enum::ChessPieceEnum;

verus! {

/// A pawn of one side on one square.
#[derive(Debug, Clone, Copy, PartialEq, Eq, Structural)]
pub struct Pawn {
    pub color: Color,
    pub coordinates: Coordinates,
}

impl Pawn {
    /// A pawn of side `color` on the square `coordinates`.
    pub fn new(color: Color, coordinates: Coordinates) -> (pawn: Pawn)
        ensures
            pawn == (Pawn { color, coordinates }),
    {
        Pawn { color, coordinates }
    }
}

impl ChessPiece for Pawn {
    open spec fn kind(&self) -> PieceType {
        PieceType::Pawn
    }

    open spec fn side(&self) -> Color {
        self.color
    }

    open spec fn place(&self) -> Coordinates {
        self.coordinates
    }

    fn piece_type(&self) -> (kind: PieceType) {
        PieceType::Pawn
    }

    fn color(&self) -> (side: Color) {
        self.color
    }

    fn coordinates(&self) -> (place: Coordinates) {
        self.coordinates
    }

    fn change_color(&mut self, color: Color) {
        self.color = color;
    }

    fn change_coordinates(&mut self, coordinates: Coordinates) {
        self.coordinates = coordinates;
    }

    fn can_capture(&self, target: &ChessPieceEnum) -> (able: bool) {
        let there = target.coordinates();
        self.color != target.color() && Coordinates::gap(self.coordinates.x, there.x) == 1
            && Coordinates::gap(self.coordinates.y, there.y) == 1
    }

    fn move_to(&self, destination: Coordinates, board: &mut Board) -> (done: Result<
        (),
        ChessError,
    >) {
        board.move_piece_with_coordinates(self.coordinates, destination)
    }

    /// A pawn goes one square straight ahead onto an empty square, two
    /// from its starting rank over an empty square onto an empty square,
    /// and one square diagonally ahead onto an enemy piece or onto the
    /// empty en-passant target.
    fn is_valid_move(&self, destination: Coordinates, board: &Board, filter_check: bool) -> (valid:
        bool) {
        let from = self.coordinates;
        if !from.is_valid() || !destination.is_valid() {
            return false;
        }
        let ahead: i8 = match self.color {
            Color::White => 1,
            Color::Black => -1,
        };
        let home: i8 = match self.color {
            Color::White => 2,
            Color::Black => 7,
        };
        let dx: i16 = Coordinates::gap(from.x, destination.x);
        let target = board.get(destination);
        let by_rule = if dx == 0 && destination.y == from.y + ahead {
            target.is_none()
        } else if dx == 0 && from.y == home && destination.y == from.y + 2 * ahead {
            let between = Coordinates { x: from.x, y: from.y + ahead };
            target.is_none() && board.get(between).is_none()
        } else if dx == 1 && destination.y == from.y + ahead {
            match target {
                Some(piece) => piece.color != self.color,
                None => match board.en_passant {
                    Some(ep) => ep == destination,
                    None => false,
                },
            }
        } else {
            false
        };
        by_rule && (!filter_check || board.leaves_king_safe(from, destination, self.color))
    }
}

} // verus!
