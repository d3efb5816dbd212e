//! The placement field of a notation drawn as text, without building a
//! board.

use vstd::prelude::*;
use crate::chess::board::board::piece_of_letter;
use crate::chess::board::diagram::{letters_line, push_letters_line};
use crate::chess::board::fen::Fen;
use crate::chess::text::{chars_of, digit_value, find_char, position_of};

verus! {

/// `n` empty cells in braces, a space after each.
pub open spec fn empty_braces(n: int) -> Seq<char>
    decreases n,
{
    if n <= 0 {
        Seq::empty()
    } else {
        empty_braces(n - 1) + seq!['{', ' ', '}', ' ']
    }
}

/// What one character of a rank draws in braces: a digit its run of empty
/// cells and one more space, any other character its own cell.
pub open spec fn braces_cell(c: char) -> Seq<char> {
    if '1' <= c <= '8' {
        empty_braces(digit_value(c)) + seq![' ']
    } else {
        seq!['{', c, '}', ' ']
    }
}

/// What the characters of one rank draw in braces.
pub open spec fn braces_row(row: Seq<char>) -> Seq<char>
    decreases row.len(),
{
    if row.len() == 0 {
        Seq::empty()
    } else {
        braces_row(row.drop_last()) + braces_cell(row.last())
    }
}

/// The place of the last `/` of `text`, or `-1` if there is none.
pub open spec fn last_bar(text: Seq<char>) -> int
    decreases text.len(),
{
    if text.len() == 0 {
        -1
    } else if text.last() == '/' {
        text.len() - 1
    } else {
        last_bar(text.drop_last())
    }
}

/// The placement `text` drawn in braces: its ranks from the last to the
/// first, a line for each.
pub open spec fn boardified(text: Seq<char>) -> Seq<char>
    decreases text.len(),
{
    let bar = last_bar(text);
    if 0 <= bar < text.len() {
        braces_row(text.subrange(bar + 1, text.len() as int)) + seq!['\n'] + boardified(
            text.subrange(0, bar),
        )
    } else {
        braces_row(text) + seq!['\n']
    }
}

/// Every character of `text` may stand in a placement: a `/`, a digit from
/// `1` to `8` or a piece letter.
pub open spec fn placement_alphabet(text: Seq<char>) -> bool {
    forall|i: int|
        0 <= i < text.len() ==> (#[trigger] text[i]) == '/' || '1' <= text[i] <= '8'
            || piece_of_letter(text[i]) is Some
}

/// `n` empty cells in square brackets.
pub open spec fn empty_brackets(n: int) -> Seq<char>
    decreases n,
{
    if n <= 0 {
        Seq::empty()
    } else {
        empty_brackets(n - 1) + seq!['[', ' ', ']']
    }
}

/// What one character of a rank draws in square brackets: a digit from `1`
/// to `8` its run of empty cells, any other character its own cell.
pub open spec fn brackets_cell(c: char) -> Seq<char> {
    if '1' <= c <= '8' {
        empty_brackets(digit_value(c))
    } else {
        seq!['[', c, ']']
    }
}

/// What the characters of one rank draw in square brackets.
pub open spec fn brackets_row(row: Seq<char>) -> Seq<char>
    decreases row.len(),
{
    if row.len() == 0 {
        Seq::empty()
    } else {
        brackets_row(row.drop_last()) + brackets_cell(row.last())
    }
}

/// The number of ranks that `text` has from place `start` on: one more
/// than the number of `/`.
pub open spec fn ranks_from(text: Seq<char>, start: int) -> int
    decreases text.len() - start,
{
    let bar = position_of(text, '/', start);
    if 0 <= start <= bar < text.len() {
        1 + ranks_from(text, bar + 1)
    } else {
        1
    }
}

/// The ranks of `text` from place `start` on, a line for each: the number
/// `label`, one less for each further rank, a space, and the cells in
/// square brackets.
pub open spec fn numbered_ranks(text: Seq<char>, start: int, label: int) -> Seq<char>
    decreases text.len() - start,
{
    let bar = position_of(text, '/', start);
    if 0 <= start <= bar < text.len() {
        seq![('0' as int + label) as char, ' '] + brackets_row(text.subrange(start, bar)) + seq![
            '\n',
        ] + numbered_ranks(text, bar + 1, label - 1)
    } else if 0 <= start <= text.len() {
        seq![('0' as int + label) as char, ' '] + brackets_row(
            text.subrange(start, text.len() as int),
        ) + seq!['\n']
    } else {
        Seq::empty()
    }
}

/// The line that tells whose turn it is.
pub open spec fn turn_line(turn: Option<Seq<char>>) -> Seq<char> {
    if turn == Some(seq!['w']) {
        seq!['W', 'h', 'i', 't', 'e', '\'', 's', ' ', 't', 'u', 'r', 'n', '\n']
    } else if turn == Some(seq!['b']) {
        seq!['B', 'l', 'a', 'c', 'k', '\'', 's', ' ', 't', 'u', 'r', 'n', '\n']
    } else {
        seq!['U', 'n', 'k', 'n', 'o', 'w', 'n', '\n']
    }
}

/// Appends each character of `line`.
fn push_all(out: &mut String, line: &Vec<char>)
    ensures
        final(out)@ == old(out)@ + line@,
{
    let mut i: usize = 0;
    while i < line.len()
        invariant
            i <= line.len(),
            out@ == old(out)@ + line@.take(i as int),
        decreases line.len() - i,
    {
        out.push(line[i]);
        assert(old(out)@ + line@.take(i as int + 1) =~= (old(out)@ + line@.take(i as int)).push(
            line@[i as int],
        ));
        i += 1;
    }
    assert(line@.take(line.len() as int) =~= line@);
}

/// Appends what the characters of `text` from `start` up to `end` draw in
/// braces.
fn push_braces_row(out: &mut String, text: &Vec<char>, start: usize, end: usize)
    requires
        start <= end <= text.len(),
    ensures
        final(out)@ == old(out)@ + braces_row(text@.subrange(start as int, end as int)),
{
    let mut j: usize = start;
    assert(text@.subrange(start as int, start as int) =~= Seq::<char>::empty());
    assert(old(out)@ + Seq::<char>::empty() =~= old(out)@);
    while j < end
        invariant
            start <= j <= end <= text.len(),
            out@ == old(out)@ + braces_row(text@.subrange(start as int, j as int)),
        decreases end - j,
    {
        let c = text[j];
        let ghost before = out@;
        let ghost row = text@.subrange(start as int, j as int + 1);
        assert(row.drop_last() =~= text@.subrange(start as int, j as int));
        assert(row.last() == c);
        if '1' <= c && c <= '8' {
            let n: u32 = c as u32 - '0' as u32;
            let mut k: u32 = 0;
            while k < n
                invariant
                    k <= n <= 8,
                    out@ == before + empty_braces(k as int),
                decreases n - k,
            {
                out.push('{');
                out.push(' ');
                out.push('}');
                out.push(' ');
                assert(out@ =~= before + (empty_braces(k as int) + seq!['{', ' ', '}', ' ']));
                k += 1;
            }
            out.push(' ');
            assert(out@ =~= before + braces_cell(c));
        } else {
            out.push('{');
            out.push(c);
            out.push('}');
            out.push(' ');
            assert(out@ =~= before + braces_cell(c));
        }
        assert(out@ =~= old(out)@ + braces_row(row));
        j += 1;
    }
}

/// Appends what the characters of `text` from `start` up to `end` draw in
/// square brackets.
fn push_brackets_row(out: &mut String, text: &Vec<char>, start: usize, end: usize)
    requires
        start <= end <= text.len(),
    ensures
        final(out)@ == old(out)@ + brackets_row(text@.subrange(start as int, end as int)),
{
    let mut j: usize = start;
    assert(text@.subrange(start as int, start as int) =~= Seq::<char>::empty());
    assert(old(out)@ + Seq::<char>::empty() =~= old(out)@);
    while j < end
        invariant
            start <= j <= end <= text.len(),
            out@ == old(out)@ + brackets_row(text@.subrange(start as int, j as int)),
        decreases end - j,
    {
        let c = text[j];
        let ghost before = out@;
        let ghost row = text@.subrange(start as int, j as int + 1);
        assert(row.drop_last() =~= text@.subrange(start as int, j as int));
        assert(row.last() == c);
        if '1' <= c && c <= '8' {
            let n: u32 = c as u32 - '0' as u32;
            let mut k: u32 = 0;
            while k < n
                invariant
                    k <= n <= 8,
                    out@ == before + empty_brackets(k as int),
                decreases n - k,
            {
                out.push('[');
                out.push(' ');
                out.push(']');
                assert(out@ =~= before + (empty_brackets(k as int) + seq!['[', ' ', ']']));
                k += 1;
            }
        } else {
            out.push('[');
            out.push(c);
            out.push(']');
            assert(out@ =~= before + brackets_cell(c));
        }
        assert(out@ =~= old(out)@ + brackets_row(row));
        j += 1;
    }
}

impl Fen {
    /// Draws the placement in braces, the last rank of the field first:
    /// `{P} ` for a piece, `{ } ` for each empty square of a run and one
    /// more space after the run, and a line break after each rank.
    ///
    /// A character that is no `/` is drawn as a run if it is a digit from
    /// `1` to `8` and as a cell of its own otherwise.
    pub fn boardify(&self) -> (text: String)
        ensures
            text@ == boardified(self@.board),
    {
        let field = chars_of(self.board.as_str());
        let mut text = String::new();
        let mut end: usize = field.len();
        assert(field@.take(end as int) =~= field@);
        loop
            invariant_except_break
                text@ + boardified(field@.take(end as int)) == boardified(field@),
            invariant
                end <= field.len(),
            ensures
                text@ == boardified(field@),
            decreases end,
        {
            let ghost rest = field@.take(end as int);
            let mut start: usize = end;
            while start > 0 && field[start - 1] != '/'
                invariant
                    start <= end <= field.len(),
                    last_bar(field@.take(end as int)) == last_bar(field@.take(start as int)),
                decreases start,
            {
                assert(field@.take(start as int).drop_last() =~= field@.take(start as int - 1));
                start -= 1;
            }
            let ghost before = text@;
            push_braces_row(&mut text, &field, start, end);
            text.push('\n');
            proof {
                assert(rest.subrange(start as int, end as int) =~= field@.subrange(
                    start as int,
                    end as int,
                ));
                if start > 0 {
                    assert(field@.take(start as int).last() == '/');
                    assert(last_bar(rest) == start - 1);
                    assert(rest.subrange(0, start as int - 1) =~= field@.take(start as int - 1));
                    assert(text@ + boardified(field@.take(start as int - 1)) =~= before + (
                    braces_row(rest.subrange(start as int, end as int)) + seq!['\n'] + boardified(
                        rest.subrange(0, start as int - 1),
                    )));
                } else {
                    assert(last_bar(rest) == -1);
                    assert(rest.subrange(0, end as int) =~= rest);
                    assert(text@ =~= before + (braces_row(rest) + seq!['\n']));
                }
            }
            if start == 0 {
                break ;
            }
            end = start - 1;
        }
        text
    }

    /// Draws the placement in square brackets, the first rank of the
    /// field first and numbered 8, then the file letters and whose turn it
    /// is. The placement must have nine ranks at most, so that each number
    /// is one digit.
    pub fn diagram(&self) -> (text: String)
        requires
            ranks_from(self@.board, 0) <= 9,
        ensures
            text@ == numbered_ranks(self@.board, 0, 8) + letters_line() + turn_line(self@.turn),
    {
        let field = chars_of(self.board.as_str());
        let mut text = String::new();
        let mut start: usize = 0;
        let mut label: u8 = 8;
        loop
            invariant_except_break
                ranks_from(field@, start as int) <= label + 1,
                text@ + numbered_ranks(field@, start as int, label as int) == numbered_ranks(
                    field@,
                    0,
                    8,
                ),
            invariant
                start <= field.len(),
                label <= 8,
            ensures
                text@ == numbered_ranks(field@, 0, 8),
            decreases field.len() - start,
        {
            let ghost before = text@;
            let bar = find_char(&field, '/', start);
            text.push((('0' as u8) + label) as char);
            text.push(' ');
            push_brackets_row(&mut text, &field, start, bar);
            text.push('\n');
            if bar >= field.len() {
                assert(text@ =~= before + numbered_ranks(field@, start as int, label as int));
                break ;
            }
            assert(text@ + numbered_ranks(field@, bar as int + 1, label as int - 1) =~= before
                + numbered_ranks(field@, start as int, label as int));
            proof {
                lemma_one_rank_at_least(field@, bar as int + 1);
            }
            start = bar + 1;
            label = label - 1;
        }
        let ghost ranks = text@;
        push_letters_line(&mut text);
        let ghost with_letters = text@;
        let white = match &self.turn {
            Some(turn) => is_letter(turn, 'w'),
            None => false,
        };
        let black = match &self.turn {
            Some(turn) => is_letter(turn, 'b'),
            None => false,
        };
        let line = if white {
            vec!['W', 'h', 'i', 't', 'e', '\'', 's', ' ', 't', 'u', 'r', 'n', '\n']
        } else if black {
            vec!['B', 'l', 'a', 'c', 'k', '\'', 's', ' ', 't', 'u', 'r', 'n', '\n']
        } else {
            vec!['U', 'n', 'k', 'n', 'o', 'w', 'n', '\n']
        };
        assert(line@ =~= turn_line(self@.turn)) by {
            assert(seq!['w'][0] != seq!['b'][0]);
        }
        push_all(&mut text, &line);
        text
    }
}

/// A text has one rank at least from any place on.
proof fn lemma_one_rank_at_least(text: Seq<char>, start: int)
    ensures
        ranks_from(text, start) >= 1,
    decreases text.len() - start,
{
    let bar = position_of(text, '/', start);
    if 0 <= start <= bar < text.len() {
        lemma_one_rank_at_least(text, bar + 1);
    }
}

/// Tells whether `text` is the one letter `c`.
fn is_letter(text: &String, c: char) -> (same: bool)
    ensures
        same == (text@ == seq![c]),
{
    let chars = chars_of(text.as_str());
    if chars.len() == 1 && chars[0] == c {
        assert(chars@ =~= seq![c]);
        true
    } else {
        assert(chars@ != seq![c]) by {
            if chars@.len() == 1 {
                assert(seq![c][0] == c);
            } else {
                assert(seq![c].len() == 1);
            }
        }
        false
    }
}

} // verus!
