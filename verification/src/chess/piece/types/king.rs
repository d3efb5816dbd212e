//! The king.

use vstd::prelude::*;
use crate::chess::board::board::Board;
use crate::chess::board::coordinates::Coordinates;
use crate::chess::board::movegen::contains_square;
use crate::chess::error::ChessError;
use crate::chess::piece::piece::{ChessPiece, Color, PieceType};
use crate::chess::piece::piece_enum::ChessPieceEnum;

verus! {

/// A king of one side on one square.
#[derive(Debug, Clone, Copy, PartialEq, Eq, Structural)]
pub struct King {
    pub color: Color,
    pub coordinates: Coordinates,
}

impl King {
    /// A king of side `color` on the square `coordinates`.
    pub fn new(color: Color, coordinates: Coordinates) -> (king: King)
        ensures
            king == (King { color, coordinates }),
    {
        King { color, coordinates }
    }

    /// Puts the king on `to` if `to` is at most one file and one rank
    /// away, the board left aside; `IllegalMove`, and the king left where
    /// it is, for any other square.
    pub fn move_piece(&mut self, to: Coordinates) -> (done: Result<(), ChessError>)
        ensures
            final(self).color == old(self).color,
            old(self).coordinates.near(to) ==> done == Ok::<(), ChessError>(()) && final(
                self
            ).coordinates == to,
            !old(self).coordinates.near(to) ==> done == Err::<(), ChessError>(
                ChessError::IllegalMove,
            ) && *final(self) == *old(self),
    {
        if self.can_move_one_square(to) {
            self.coordinates = to;
            Ok(())
        } else {
            Err(ChessError::IllegalMove)
        }
    }

    /// Tells whether `to` is at most one file and one rank away from the
    /// king's square, that square itself included.
    pub fn can_move_one_square(&self, to: Coordinates) -> (near: bool)
        ensures
            near == self.coordinates.near(to),
    {
        self.coordinates.is_adjacent(to)
    }
}

impl ChessPiece for King {
    open spec fn kind(&self) -> PieceType {
        PieceType::King
    }

    open spec fn side(&self) -> Color {
        self.color
    }

    open spec fn place(&self) -> Coordinates {
        self.coordinates
    }

    fn piece_type(&self) -> (kind: PieceType) {
        PieceType::King
    }

    fn color(&self) -> (side: Color) {
        self.color
    }

    fn coordinates(&self) -> (place: Coordinates) {
        self.coordinates
    }

    fn change_color(&mut self, color: Color) {
        self.color = color;
    }

    fn change_coordinates(&mut self, coordinates: Coordinates) {
        self.coordinates = coordinates;
    }

    fn can_capture(&self, target: &ChessPieceEnum) -> (able: bool) {
        self.color != target.color()
    }

    fn move_to(&self, destination: Coordinates, board: &mut Board) -> (done: Result<
        (),
        ChessError,
    >) {
        board.move_piece_with_coordinates(self.coordinates, destination)
    }

    /// A king steps onto one of the eight squares around it that holds no
    /// piece of its side, or castles.
    fn is_valid_move(&self, destination: Coordinates, board: &Board, filter_check: bool) -> (valid:
        bool) {
        let from = self.coordinates;
        if !from.is_valid() || !destination.is_valid() {
            return false;
        }
        let dx: i16 = Coordinates::gap(from.x, destination.x);
        let dy: i16 = Coordinates::gap(from.y, destination.y);
        let by_rule = if dx <= 1 && dy <= 1 {
            (dx != 0 || dy != 0) && board.may_land_on(self.color, destination)
        } else {
            let mut castlings: Vec<Coordinates> = Vec::new();
            board.add_castling(&mut castlings, from, self.color);
            contains_square(&castlings, destination)
        };
        by_rule && (!filter_check || board.leaves_king_safe(from, destination, self.color))
    }
}

} // verus!
