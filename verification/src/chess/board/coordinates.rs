//! Squares of the board as a pair of file and rank.

use vstd::prelude::*;
use crate::chess::board::notation::Notation;
use crate::chess::error::ChessError;
use crate::chess::text::{
    chars_of, find_char, integer_text, parse_i8, position_of, push_integer, signed_decimal,
    slice_of, trim, trimmed,
};

verus! {

/// A square: file `x` and rank `y`, each meant to lie in `1..=8`.
///
/// Construction does not check the range; `is_valid` does.
#[derive(Debug, Clone, Copy, PartialEq, Eq, Structural)]
pub struct Coordinates {
    /// The file, `1` for file a up to `8` for file h.
    pub x: i8,
    /// The rank, `1` up to `8`.
    pub y: i8,
}

/// The distance between two files or two ranks.
pub open spec fn distance(a: int, b: int) -> int {
    if a >= b {
        a - b
    } else {
        b - a
    }
}

/// What `text` of the form `x,y` denotes: the text holds one comma; what
/// stands before it and what stands after it, white space at their ends
/// left aside, are integers of 8 bits, the file and the rank. Any other
/// text is a `ParseError`; a file or a rank outside `1..=8` is
/// `OutOfBounds`.
pub open spec fn pair_of(text: Seq<char>) -> Result<Coordinates, ChessError> {
    let comma = position_of(text, ',', 0);
    if comma >= text.len() || position_of(text, ',', comma + 1) < text.len() {
        Err(ChessError::ParseError)
    } else {
        let x = signed_decimal(trimmed(text.subrange(0, comma)));
        let y = signed_decimal(trimmed(text.subrange(comma + 1, text.len() as int)));
        match (x, y) {
            (Some(x), Some(y)) => if -128 <= x <= 127 && -128 <= y <= 127 {
                if 1 <= x <= 8 && 1 <= y <= 8 {
                    Ok(Coordinates { x: x as i8, y: y as i8 })
                } else {
                    Err(ChessError::OutOfBounds)
                }
            } else {
                Err(ChessError::ParseError)
            },
            _ => Err(ChessError::ParseError),
        }
    }
}

/// What a square name such as `e4` denotes: a letter from `a` to `h`, in
/// either case, for the file, and a digit from `1` to `8` for the rank.
/// Any other text is a `ParseError`.
pub open spec fn named_square(text: Seq<char>) -> Result<Coordinates, ChessError> {
    if text.len() == 2 && (('a' <= text[0] <= 'h') || ('A' <= text[0] <= 'H')) && '1' <= text[1]
        <= '8' {
        let file = if 'a' <= text[0] <= 'h' {
            text[0] as int - 'a' as int + 1
        } else {
            text[0] as int - 'A' as int + 1
        };
        Ok(Coordinates { x: file as i8, y: (text[1] as int - '1' as int + 1) as i8 })
    } else {
        Err(ChessError::ParseError)
    }
}

impl Coordinates {
    /// Whether both file and rank lie on the board.
    pub open spec fn on_board(self) -> bool {
        1 <= self.x <= 8 && 1 <= self.y <= 8
    }

    /// The place of an on-board square when the squares are counted rank by
    /// rank from a1: `0` for a1, `7` for h1, `63` for h8.
    pub open spec fn linear_index(self) -> int {
        (self.y - 1) * 8 + (self.x - 1)
    }

    /// The two squares are at most one file and one rank apart; a square is
    /// near itself.
    pub open spec fn near(self, other: Coordinates) -> bool {
        distance(self.x as int, other.x as int) <= 1 && distance(self.y as int, other.y as int)
            <= 1
    }

    /// Builds a square from file and rank, without a range check.
    pub fn new(x: i8, y: i8) -> (c: Coordinates)
        ensures
            c.x == x,
            c.y == y,
    {
        Coordinates { x, y }
    }

    /// Tells whether the square lies on the board.
    pub fn is_valid(&self) -> (valid: bool)
        ensures
            valid == self.on_board(),
    {
        self.x >= 1 && self.x <= 8 && self.y >= 1 && self.y <= 8
    }

    /// The linear index of the square, or `OutOfBounds` for a square that is
    /// not on the board.
    pub fn to_index(&self) -> (index: Result<usize, ChessError>)
        ensures
            self.on_board() ==> index == Ok::<usize, ChessError>(self.linear_index() as usize),
            !self.on_board() ==> index == Err::<usize, ChessError>(ChessError::OutOfBounds),
    {
        if !self.is_valid() {
            return Err(ChessError::OutOfBounds);
        }
        let x: usize = (self.x - 1) as usize;
        let y: usize = (self.y - 1) as usize;
        Ok(y * 8 + x)
    }

    /// The square with the given linear index. An index of 64 or more
    /// yields a rank beyond the board, cut down to eight bits.
    pub fn from_index(index: usize) -> (c: Coordinates)
        ensures
            c.x == index % 8 + 1,
            c.y == (index / 8 + 1) as i8,
            index < 64 ==> c.on_board() && c.linear_index() == index,
    {
        let x: i8 = (index % 8 + 1) as i8;
        let y: i8 = #[verifier::truncate] ((index / 8 + 1) as i8);
        Coordinates { x, y }
    }

    /// Whether the two squares are equally far apart in file and in rank.
    /// A square is diagonal to itself.
    pub fn is_diagonal(&self, other: Coordinates) -> (diagonal: bool)
        ensures
            diagonal == (distance(self.x as int, other.x as int) == distance(
                self.y as int,
                other.y as int,
            )),
    {
        let dx: i16 = Self::gap(self.x, other.x);
        let dy: i16 = Self::gap(self.y, other.y);
        dx == dy
    }

    /// Whether the two squares share a file or a rank.
    pub fn is_straight(&self, other: Coordinates) -> (straight: bool)
        ensures
            straight == (self.x == other.x || self.y == other.y),
    {
        self.x == other.x || self.y == other.y
    }

    /// Whether the two squares are at most one file and one rank apart.
    /// A square is adjacent to itself.
    pub fn is_adjacent(&self, other: Coordinates) -> (adjacent: bool)
        ensures
            adjacent == self.near(other),
    {
        let dx: i16 = Self::gap(self.x, other.x);
        let dy: i16 = Self::gap(self.y, other.y);
        dx <= 1 && dy <= 1
    }

    /// Reads a square from text of the form `x,y`, such as `5,4`.
    pub fn from_string(input: &str) -> (c: Result<Coordinates, ChessError>)
        ensures
            c == pair_of(input@),
    {
        let text = chars_of(input);
        let comma = find_char(&text, ',', 0);
        if comma >= text.len() {
            return Err(ChessError::ParseError);
        }
        if find_char(&text, ',', comma + 1) < text.len() {
            return Err(ChessError::ParseError);
        }
        let left = trim(&slice_of(&text, 0, comma));
        let right = trim(&slice_of(&text, comma + 1, text.len()));
        let x = match parse_i8(&left) {
            Some(x) => x,
            None => {
                return Err(ChessError::ParseError);
            },
        };
        let y = match parse_i8(&right) {
            Some(y) => y,
            None => {
                return Err(ChessError::ParseError);
            },
        };
        if x < 1 || x > 8 || y < 1 || y > 8 {
            return Err(ChessError::OutOfBounds);
        }
        Ok(Coordinates { x, y })
    }

    /// Reads a square from its name, such as `e4` or `E4`.
    pub fn from_notation_string(s: &str) -> (c: Result<Coordinates, ChessError>)
        ensures
            c == named_square(s@),
    {
        let text = chars_of(s);
        if text.len() != 2 {
            return Err(ChessError::ParseError);
        }
        let file = text[0];
        let rank = text[1];
        let x: u32 = if 'a' <= file && file <= 'h' {
            file as u32 - 'a' as u32 + 1
        } else if 'A' <= file && file <= 'H' {
            file as u32 - 'A' as u32 + 1
        } else {
            return Err(ChessError::ParseError);
        };
        if !('1' <= rank && rank <= '8') {
            return Err(ChessError::ParseError);
        }
        let y: u32 = rank as u32 - '1' as u32 + 1;
        Ok(Coordinates { x: x as i8, y: y as i8 })
    }

    /// The file raised by one and the rank raised by one, written in base
    /// ten one after the other: `65` for the square e5.
    pub fn to_string(&self) -> (text: String)
        ensures
            text@ == integer_text(self.x + 1) + integer_text(self.y + 1),
    {
        let mut text = String::new();
        push_integer(&mut text, self.x as i16 + 1);
        push_integer(&mut text, self.y as i16 + 1);
        assert(Seq::<char>::empty() + integer_text(self.x + 1) =~= integer_text(self.x + 1));
        text
    }

    /// The square that `notation` names, or `OutOfBounds` if its file is
    /// not a letter from `a` to `h` or its rank not a digit from `1` to
    /// `8`.
    pub fn from_notation(notation: Notation) -> (c: Result<Coordinates, ChessError>)
        ensures
            notation.names_square() ==> c == Ok::<Coordinates, ChessError>(notation.square()),
            !notation.names_square() ==> c == Err::<Coordinates, ChessError>(
                ChessError::OutOfBounds,
            ),
    {
        notation.to_coordinates()
    }

    /// The name of the square, or `OutOfBounds` for a square that is not on
    /// the board.
    pub fn to_notation(&self) -> (n: Result<Notation, ChessError>)
        ensures
            self.on_board() ==> n == Ok::<Notation, ChessError>(Notation::of(*self)),
            !self.on_board() ==> n == Err::<Notation, ChessError>(ChessError::OutOfBounds),
    {
        Notation::from_coordinates(*self)
    }

    /// The distance between two files or ranks, in a type wide enough for
    /// every pair.
    pub(crate) fn gap(a: i8, b: i8) -> (d: i16)
        ensures
            d == distance(a as int, b as int),
    {
        let wide_a: i16 = a as i16;
        let wide_b: i16 = b as i16;
        if wide_a >= wide_b {
            wide_a - wide_b
        } else {
            wide_b - wide_a
        }
    }
}

} // verus!
