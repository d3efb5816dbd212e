//! Captures written out in full, as in `Pe4xpd5`: the piece that takes
//! with its square, a mark, and the piece that is taken with its square.

use vstd::prelude::*;
use crate::chess::board::board::{piece_of_letter, Piece};
use crate::chess::board::coordinates::Coordinates;
use crate::chess::board::notation::Notation;
use crate::chess::error::ChessError;
use crate::chess::piece::piece::{Color, PieceType};
use crate::chess::text::chars_of;

verus! {

/// A capture: the piece that takes and its square, the piece that is taken
/// and its square.
#[derive(Debug, Clone, Copy, PartialEq, Eq)]
pub struct ChessMove {
    pub source_piece: (PieceType, Color),
    pub source_location: Coordinates,
    pub captured_piece: Option<(PieceType, Color)>,
    pub captured_piece_location: Option<Coordinates>,
}

/// The text writes a capture out in full: seven characters at least, of
/// which the first and the fifth are piece letters and the two pairs after
/// them name squares of the board. The fourth character, the mark, may be
/// any; what follows the seventh is not read.
pub open spec fn writes_capture(text: Seq<char>) -> bool {
    &&& text.len() >= 7
    &&& piece_of_letter(text[0]) is Some
    &&& (Notation { file: text[1], rank: text[2] }).names_square()
    &&& piece_of_letter(text[4]) is Some
    &&& (Notation { file: text[5], rank: text[6] }).names_square()
}

/// The capture that such a text writes.
pub open spec fn capture_of(text: Seq<char>) -> ChessMove {
    let taker = piece_of_letter(text[0])->0;
    let taken = piece_of_letter(text[4])->0;
    ChessMove {
        source_piece: (taker.piece_type, taker.color),
        source_location: (Notation { file: text[1], rank: text[2] }).square(),
        captured_piece: Some((taken.piece_type, taken.color)),
        captured_piece_location: Some((Notation { file: text[5], rank: text[6] }).square()),
    }
}

impl ChessMove {
    /// A capture from its four parts.
    pub fn new(
        source_piece: (PieceType, Color),
        source_location: Coordinates,
        captured_piece: Option<(PieceType, Color)>,
        captured_piece_location: Option<Coordinates>,
    ) -> (m: ChessMove)
        ensures
            m == (ChessMove {
                source_piece,
                source_location,
                captured_piece,
                captured_piece_location,
            }),
    {
        ChessMove { source_piece, source_location, captured_piece, captured_piece_location }
    }
}

/// Reads a capture written out in full; `ParseError` for any other text.
pub fn parse_notation(input: &str) -> (m: Result<ChessMove, ChessError>)
    ensures
        writes_capture(input@) ==> m == Ok::<ChessMove, ChessError>(capture_of(input@)),
        !writes_capture(input@) ==> m == Err::<ChessMove, ChessError>(ChessError::ParseError),
{
    let chars = chars_of(input);
    if chars.len() < 7 {
        return Err(ChessError::ParseError);
    }
    let taker = match Piece::from_symbol(chars[0]) {
        Some(p) => p,
        None => {
            return Err(ChessError::ParseError);
        },
    };
    let taken = match Piece::from_symbol(chars[4]) {
        Some(p) => p,
        None => {
            return Err(ChessError::ParseError);
        },
    };
    let source = match (Notation { file: chars[1], rank: chars[2] }).to_coordinates() {
        Ok(c) => c,
        Err(_) => {
            return Err(ChessError::ParseError);
        },
    };
    let target = match (Notation { file: chars[5], rank: chars[6] }).to_coordinates() {
        Ok(c) => c,
        Err(_) => {
            return Err(ChessError::ParseError);
        },
    };
    Ok(
        ChessMove::new(
            (taker.piece_type, taker.color),
            source,
            Some((taken.piece_type, taken.color)),
            Some(target),
        ),
    )
}

/// The kind and the side of the piece that the letter `piece_char` stands
/// for, which must be one of `PNBRQKpnbrqk`.
pub fn get_piece_from_char(piece_char: char) -> (piece: (PieceType, Color))
    requires
        piece_of_letter(piece_char) is Some,
    ensures
        piece_of_letter(piece_char) == Some(Piece { piece_type: piece.0, color: piece.1 }),
{
    match Piece::from_symbol(piece_char) {
        Some(p) => (p.piece_type, p.color),
        None => vstd::pervasive::unreached(),
    }
}

/// The square that `notation` names, which must be a square of the board.
pub fn convert_to_coordinates(notation: Notation) -> (c: Coordinates)
    requires
        notation.names_square(),
    ensures
        c == notation.square(),
{
    match notation.to_coordinates() {
        Ok(c) => c,
        Err(_) => vstd::pervasive::unreached(),
    }
}

/// The name of the square `coordinates`, which must lie on the board.
pub fn convert_to_notation(coordinates: Coordinates) -> (n: Notation)
    requires
        coordinates.on_board(),
    ensures
        n == Notation::of(coordinates),
{
    match Notation::from_coordinates(coordinates) {
        Ok(n) => n,
        Err(_) => vstd::pervasive::unreached(),
    }
}

} // verus!
