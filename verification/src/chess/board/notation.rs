//! Algebraic names of squares: a file letter and a rank digit, as in `e4`.

use vstd::prelude::*;
use crate::chess::board::coordinates::{pair_of, Coordinates};
use crate::chess::error::ChessError;
use crate::chess::text::chars_of;

verus! {

/// The name of a square: a file letter and a rank digit.
///
/// `new` accepts any lower-case letter and any digit; only the letters `a`
/// to `h` and the digits `1` to `8` name a square of the board.
#[derive(Debug, Clone, Copy, PartialEq, Eq, Structural)]
pub struct Notation {
    /// The file, `a` to `h`.
    pub file: char,
    /// The rank, `1` to `8`.
    pub rank: char,
}

/// What a text of two characters denotes as a square name; any other text
/// is a `ParseError`.
pub open spec fn notation_of(text: Seq<char>) -> Result<Notation, ChessError> {
    if text.len() == 2 && Notation::accepts(text[0], text[1]) {
        Ok(Notation { file: text[0], rank: text[1] })
    } else {
        Err(ChessError::ParseError)
    }
}

impl Notation {
    /// `file` is a lower-case letter of the basic alphabet and `rank` a
    /// decimal digit.
    pub open spec fn accepts(file: char, rank: char) -> bool {
        'a' <= file <= 'z' && '0' <= rank <= '9'
    }

    /// The name denotes a square of the board.
    pub open spec fn names_square(self) -> bool {
        'a' <= self.file <= 'h' && '1' <= self.rank <= '8'
    }

    /// The square that the name denotes: file `a` is `1`, rank `1` is `1`.
    pub open spec fn square(self) -> Coordinates {
        Coordinates {
            x: (self.file as int - 'a' as int + 1) as i8,
            y: (self.rank as int - '1' as int + 1) as i8,
        }
    }

    /// The name of the on-board square `c`.
    pub open spec fn of(c: Coordinates) -> Notation {
        Notation { file: ('a' as int + c.x - 1) as char, rank: ('1' as int + c.y - 1) as char }
    }

    /// A name from a file letter and a rank digit; `ParseError` unless
    /// `file` is a lower-case letter and `rank` a digit.
    pub fn new(file: char, rank: char) -> (n: Result<Notation, ChessError>)
        ensures
            Self::accepts(file, rank) ==> n == Ok::<Notation, ChessError>(Notation { file, rank }),
            !Self::accepts(file, rank) ==> n == Err::<Notation, ChessError>(
                ChessError::ParseError,
            ),
    {
        if !('a' <= file && file <= 'z') {
            return Err(ChessError::ParseError);
        }
        if !('0' <= rank && rank <= '9') {
            return Err(ChessError::ParseError);
        }
        Ok(Notation { file, rank })
    }

    /// A name from a file letter and a rank digit; `None` unless `file` is
    /// a lower-case letter and `rank` a digit.
    pub fn from_char(file: char, rank: char) -> (n: Option<Notation>)
        ensures
            Self::accepts(file, rank) ==> n == Some(Notation { file, rank }),
            !Self::accepts(file, rank) ==> n is None,
    {
        match Notation::new(file, rank) {
            Ok(n) => Some(n),
            Err(_) => None,
        }
    }

    /// Reads a name from a text of exactly two characters.
    pub fn from_string(input: &str) -> (n: Result<Notation, ChessError>)
        ensures
            n == notation_of(input@),
    {
        let text = chars_of(input);
        if text.len() != 2 {
            return Err(ChessError::ParseError);
        }
        Notation::new(text[0], text[1])
    }

    /// The name of the square `coordinates`, or `OutOfBounds` for a square
    /// that is not on the board.
    pub fn from_coordinates(coordinates: Coordinates) -> (n: Result<Notation, ChessError>)
        ensures
            coordinates.on_board() ==> n == Ok::<Notation, ChessError>(Self::of(coordinates)),
            !coordinates.on_board() ==> n == Err::<Notation, ChessError>(ChessError::OutOfBounds),
    {
        if !coordinates.is_valid() {
            return Err(ChessError::OutOfBounds);
        }
        let file = (('a' as u8) + (coordinates.x - 1) as u8) as char;
        let rank = (('1' as u8) + (coordinates.y - 1) as u8) as char;
        Ok(Notation { file, rank })
    }

    /// Reads a square written as `x,y` and gives its name. What is refused
    /// is what `Coordinates::from_string` refuses, with the same error.
    pub fn from_coordinates_string(input: &str) -> (n: Result<Notation, ChessError>)
        ensures
            match pair_of(input@) {
                Ok(c) => n == Ok::<Notation, ChessError>(Self::of(c)),
                Err(e) => n == Err::<Notation, ChessError>(e),
            },
    {
        match Coordinates::from_string(input) {
            Ok(c) => Notation::from_coordinates(c),
            Err(e) => Err(e),
        }
    }

    /// The square that the name denotes, or `OutOfBounds` if the file is
    /// not a letter from `a` to `h` or the rank not a digit from `1` to
    /// `8`.
    pub fn to_coordinates(&self) -> (c: Result<Coordinates, ChessError>)
        ensures
            self.names_square() ==> c == Ok::<Coordinates, ChessError>(self.square()),
            !self.names_square() ==> c == Err::<Coordinates, ChessError>(ChessError::OutOfBounds),
    {
        if !('a' <= self.file && self.file <= 'h') {
            return Err(ChessError::OutOfBounds);
        }
        if !('1' <= self.rank && self.rank <= '8') {
            return Err(ChessError::OutOfBounds);
        }
        let x: u32 = self.file as u32 - 'a' as u32 + 1;
        let y: u32 = self.rank as u32 - '1' as u32 + 1;
        Ok(Coordinates { x: x as i8, y: y as i8 })
    }

    /// The name as text: the file letter, then the rank digit.
    pub fn to_string(&self) -> (text: String)
        ensures
            text@ == seq![self.file, self.rank],
    {
        let mut text = String::new();
        text.push(self.file);
        text.push(self.rank);
        assert(text@ =~= seq![self.file, self.rank]);
        text
    }
}

/// Naming a square of the board and reading the name back gives the
/// square; reading a name of a square and naming the square gives the
/// name.
pub proof fn law_names_and_squares_correspond(c: Coordinates, n: Notation)
    ensures
        c.on_board() ==> Notation::of(c).names_square() && Notation::of(c).square() == c,
        n.names_square() ==> n.square().on_board() && Notation::of(n.square()) == n,
{
}

} // verus!
