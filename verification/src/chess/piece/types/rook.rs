//! The rook.

use vstd::prelude::*;
use crate::chess::board::board::Board;
use crate::chess::board::coordinates::Coordinates;
use crate::chess::error::ChessError;
use crate::chess::piece::piece::{ChessPiece, Color, PieceType};
use crate::chess::piece::piece_enum::ChessPieceEnum;

verus! {

/// A rook of one side on one square.
#[derive(Debug, Clone, Copy, PartialEq, Eq, Structural)]
pub struct Rook {
    pub color: Color,
    pub coordinates: Coordinates,
}

impl Rook {
    /// A rook of side `color` on the square `coordinates`.
    pub fn new(color: Color, coordinates: Coordinates) -> (rook: Rook)
        ensures
            rook == (Rook { color, coordinates }),
    {
        Rook { color, coordinates }
    }
}

impl ChessPiece for Rook {
    open spec fn kind(&self) -> PieceType {
        PieceType::Rook
    }

    open spec fn side(&self) -> Color {
        self.color
    }

    open spec fn place(&self) -> Coordinates {
        self.coordinates
    }

    fn piece_type(&self) -> (kind: PieceType) {
        PieceType::Rook
    }

    fn color(&self) -> (side: Color) {
        self.color
    }

    fn coordinates(&self) -> (place: Coordinates) {
        self.coordinates
    }

    fn change_color(&mut self, color: Color) {
        self.color = color;
    }

    fn change_coordinates(&mut self, coordinates: Coordinates) {
        self.coordinates = coordinates;
    }

    fn can_capture(&self, target: &ChessPieceEnum) -> (able: bool) {
        self.color != target.color()
    }

    fn move_to(&self, destination: Coordinates, board: &mut Board) -> (done: Result<
        (),
        ChessError,
    >) {
        board.move_piece_with_coordinates(self.coordinates, destination)
    }

    /// A rook slides along a rank or a file over empty squares, onto a
    /// square that holds no piece of its side.
    fn is_valid_move(&self, destination: Coordinates, board: &Board, filter_check: bool) -> (valid:
        bool) {
        let from = self.coordinates;
        if !from.is_valid() || !destination.is_valid() {
            return false;
        }
        let dx: i16 = Coordinates::gap(from.x, destination.x);
        let dy: i16 = Coordinates::gap(from.y, destination.y);
        if !((dx == 0 || dy == 0) && dx != dy) {
            return false;
        }
        let by_rule = board.path_is_clear(from, destination) && board.may_land_on(
            self.color,
            destination,
        );
        by_rule && (!filter_check || board.leaves_king_safe(from, destination, self.color))
    }
}

} // verus!
