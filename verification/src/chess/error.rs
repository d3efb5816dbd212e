//! The ways in which an operation of the engine can fail.

use vstd::prelude::*;

verus! {

/// Why an operation was refused.
#[derive(Debug, Clone, Copy, PartialEq, Eq, Structural)]
pub enum ChessError {
    /// A text could not be read: fields are missing or a character is not
    /// allowed where it stands.
    ParseError,
    /// The requested move is not among the legal moves of the side to move.
    IllegalMove,
    /// A pawn was asked to promote to a king or to a pawn.
    InvalidPromotion,
    /// A file or rank lies outside `1..=8`.
    OutOfBounds,
}

} // verus!
