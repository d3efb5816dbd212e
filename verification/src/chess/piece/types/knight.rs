//! The knight.

use vstd::prelude::*;
use crate::chess::board::board::Board;
use crate::chess::board::coordinates::Coordinates;
use crate::chess::error::ChessError;
use crate::chess::piece::piece::{ChessPiece, Color, PieceType};
use crate::chess::piece::piece_enum::ChessPieceEnum;

verus! {

/// A knight of one side on one square.
#[derive(Debug, Clone, Copy, PartialEq, Eq, Structural)]
pub struct Knight {
    pub color: Color,
    pub coordinates: Coordinates,
}

impl Knight {
    /// A knight of side `color` on the square `coordinates`.
    pub fn new(color: Color, coordinates: Coordinates) -> (knight: Knight)
        ensures
            knight == (Knight { color, coordinates }),
    {
        Knight { color, coordinates }
    }
}

impl ChessPiece for Knight {
    open spec fn kind(&self) -> PieceType {
        PieceType::Knight
    }

    open spec fn side(&self) -> Color {
        self.color
    }

    open spec fn place(&self) -> Coordinates {
        self.coordinates
    }

    fn piece_type(&self) -> (kind: PieceType) {
        PieceType::Knight
    }

    fn color(&self) -> (side: Color) {
        self.color
    }

    fn coordinates(&self) -> (place: Coordinates) {
        self.coordinates
    }

    fn change_color(&mut self, color: Color) {
        self.color = color;
    }

    fn change_coordinates(&mut self, coordinates: Coordinates) {
        self.coordinates = coordinates;
    }

    fn can_capture(&self, target: &ChessPieceEnum) -> (able: bool) {
        self.color != target.color()
    }

    fn move_to(&self, destination: Coordinates, board: &mut Board) -> (done: Result<
        (),
        ChessError,
    >) {
        board.move_piece_with_coordinates(self.coordinates, destination)
    }

    /// A knight jumps two squares along a rank or file and one square
    /// aside, onto a square that holds no piece of its side.
    fn is_valid_move(&self, destination: Coordinates, board: &Board, filter_check: bool) -> (valid:
        bool) {
        let from = self.coordinates;
        if !from.is_valid() || !destination.is_valid() {
            return false;
        }
        let dx: i16 = Coordinates::gap(from.x, destination.x);
        let dy: i16 = Coordinates::gap(from.y, destination.y);
        let by_rule = ((dx == 2 && dy == 1) || (dx == 1 && dy == 2)) && board.may_land_on(
            self.color,
            destination,
        );
        by_rule && (!filter_check || board.leaves_king_safe(from, destination, self.color))
    }
}

} // verus!
