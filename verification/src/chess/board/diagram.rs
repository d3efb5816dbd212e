//! The board drawn as text: one line for each rank, one cell of three
//! characters for each square.

use vstd::prelude::*;
use crate::chess::board::board::{letter_of, Board, Piece, Position};
use crate::chess::board::coordinates::Coordinates;
use crate::chess::board::rules::square;
use crate::chess::text::digit_char;

verus! {

/// The cell of a square: the letter of its piece, or a space, between
/// square brackets.
pub open spec fn cell_text(content: Option<Piece>) -> Seq<char> {
    match content {
        Some(piece) => seq!['[', letter_of(piece), ']'],
        None => seq!['[', ' ', ']'],
    }
}

/// The cells of rank `rank` from file `file` to file h.
pub open spec fn cells_text(pos: Position, rank: int, file: int) -> Seq<char>
    decreases 9 - file,
{
    if file < 1 || file > 8 {
        Seq::empty()
    } else {
        cell_text(pos.at(square(file, rank))) + cells_text(pos, rank, file + 1)
    }
}

/// The line of rank `rank` with its number in front: the digit, a space,
/// the eight cells and a line break.
pub open spec fn numbered_line(pos: Position, rank: int) -> Seq<char> {
    seq![('0' as int + rank) as char, ' '] + cells_text(pos, rank, 1) + seq!['\n']
}

/// The numbered lines of the ranks from `rank` down to the first.
pub open spec fn lines_down(pos: Position, rank: int) -> Seq<char>
    decreases rank,
{
    if rank < 1 {
        Seq::empty()
    } else {
        numbered_line(pos, rank) + lines_down(pos, rank - 1)
    }
}

/// The lines of the ranks from `rank` up to the eighth, without numbers:
/// the eight cells and a line break each.
pub open spec fn lines_up(pos: Position, rank: int) -> Seq<char>
    decreases 9 - rank,
{
    if rank < 1 || rank > 8 {
        Seq::empty()
    } else {
        cells_text(pos, rank, 1) + seq!['\n'] + lines_up(pos, rank + 1)
    }
}

/// The letters of the files from `file` to h, each under its column: two
/// spaces and the letter.
pub open spec fn file_letters(file: int) -> Seq<char>
    decreases 9 - file,
{
    if file < 1 || file > 8 {
        Seq::empty()
    } else {
        seq![' ', ' ', ('a' as int + file - 1) as char] + file_letters(file + 1)
    }
}

/// The line of the file letters: a space, the letters and a line break.
pub open spec fn letters_line() -> Seq<char> {
    seq![' '] + file_letters(1) + seq!['\n']
}

/// The diagram of a position: the numbered lines from the eighth rank
/// down, then the line of the file letters.
pub open spec fn diagram_text(pos: Position) -> Seq<char> {
    lines_down(pos, 8) + letters_line()
}

/// The diagram with the file letters on top: the line of the file letters,
/// then the numbered lines from the eighth rank down.
pub open spec fn headed_diagram_text(pos: Position) -> Seq<char> {
    letters_line() + lines_down(pos, 8)
}

/// The bare grid: the lines from the first rank up, without numbers or
/// letters.
pub open spec fn grid_text(pos: Position) -> Seq<char> {
    lines_up(pos, 1)
}

/// Appends the line of the file letters.
pub(crate) fn push_letters_line(out: &mut String)
    ensures
        final(out)@ == old(out)@ + letters_line(),
{
    out.push(' ');
    let mut file: u8 = 1;
    while file <= 8
        invariant
            1 <= file <= 9,
            out@ + file_letters(file as int) == old(out)@ + seq![' '] + file_letters(1),
        decreases 9 - file,
    {
        let ghost before = out@;
        out.push(' ');
        out.push(' ');
        out.push((('a' as u8) + (file - 1)) as char);
        assert(out@ + file_letters(file + 1) =~= before + (seq![
            ' ',
            ' ',
            ('a' as int + file - 1) as char,
        ] + file_letters(file + 1)));
        file = file + 1;
    }
    let ghost before = out@;
    out.push('\n');
    assert(out@ =~= old(out)@ + letters_line());
}

impl Board {
    /// Appends the eight cells of rank `rank`.
    fn push_cells(&self, out: &mut String, rank: i8)
        requires
            1 <= rank <= 8,
        ensures
            final(out)@ == old(out)@ + cells_text(self@, rank as int, 1),
    {
        let mut file: i8 = 1;
        while file <= 8
            invariant
                1 <= rank <= 8,
                1 <= file <= 9,
                out@ + cells_text(self@, rank as int, file as int) == old(out)@ + cells_text(
                    self@,
                    rank as int,
                    1,
                ),
            decreases 9 - file,
        {
            let ghost before = out@;
            let content = self.get(Coordinates { x: file, y: rank });
            out.push('[');
            match content {
                Some(piece) => {
                    out.push(piece.symbol());
                },
                None => {
                    out.push(' ');
                },
            }
            out.push(']');
            assert(out@ + cells_text(self@, rank as int, file + 1) =~= before + (cell_text(content)
                + cells_text(self@, rank as int, file + 1)));
            file = file + 1;
        }
        assert(out@ + Seq::<char>::empty() =~= out@);
    }

    /// Appends the numbered lines from the eighth rank down.
    fn push_lines_down(&self, out: &mut String)
        ensures
            final(out)@ == old(out)@ + lines_down(self@, 8),
    {
        let mut rank: i8 = 8;
        while rank >= 1
            invariant
                0 <= rank <= 8,
                out@ + lines_down(self@, rank as int) == old(out)@ + lines_down(self@, 8),
            decreases rank,
        {
            let ghost before = out@;
            out.push(digit_char(rank as u8));
            out.push(' ');
            self.push_cells(out, rank);
            out.push('\n');
            assert(out@ + lines_down(self@, rank - 1) =~= before + (numbered_line(
                self@,
                rank as int,
            ) + lines_down(self@, rank - 1)));
            rank = rank - 1;
        }
        assert(out@ + Seq::<char>::empty() =~= out@);
    }

    /// Draws the board: a numbered line for each rank from the eighth
    /// down, then the file letters.
    pub fn diagram(&self) -> (text: String)
        ensures
            text@ == diagram_text(self@),
    {
        let mut text = String::new();
        self.push_lines_down(&mut text);
        push_letters_line(&mut text);
        assert(text@ =~= diagram_text(self@));
        text
    }

    /// Draws the board with the file letters on top.
    pub fn diagram_with_labels(&self) -> (text: String)
        ensures
            text@ == headed_diagram_text(self@),
    {
        let mut text = String::new();
        push_letters_line(&mut text);
        self.push_lines_down(&mut text);
        assert(text@ =~= headed_diagram_text(self@));
        text
    }

    /// Draws the bare grid: a line for each rank from the first up.
    pub fn grid(&self) -> (text: String)
        ensures
            text@ == grid_text(self@),
    {
        let mut text = String::new();
        let mut rank: i8 = 1;
        while rank <= 8
            invariant
                1 <= rank <= 9,
                text@ + lines_up(self@, rank as int) == lines_up(self@, 1),
            decreases 9 - rank,
        {
            let ghost before = text@;
            self.push_cells(&mut text, rank);
            text.push('\n');
            assert(text@ + lines_up(self@, rank + 1) =~= before + (cells_text(
                self@,
                rank as int,
                1,
            ) + seq!['\n'] + lines_up(self@, rank + 1)));
            rank = rank + 1;
        }
        assert(text@ + Seq::<char>::empty() =~= text@);
        text
    }
}

} // verus!
