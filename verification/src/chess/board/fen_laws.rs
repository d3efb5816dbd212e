//! What is written in Forsyth–Edwards Notation reads back as the position
//! that was written.

use vstd::prelude::*;
use crate::chess::board::board::{
    law_letters_name_pieces, letter_of, Board, Piece, Position,
};
use crate::chess::board::coordinates::Coordinates;
use crate::chess::board::fen::{
    fen_text, gap_text, place_next, placed, position_of_text, rank_text, ranks_text, readable,
    rights_of, rights_text, side_of, side_text, target_of, target_text, with_letter, Placement,
};
use crate::chess::board::rules::square;
use crate::chess::piece::piece::{CastlingRights, Color};
use crate::chess::sequences::lemma_push_contains;
use crate::chess::text::{
    all_digits, decimal_digits, decimal_value, fields, fields_from, is_blank, is_digit, skip_blanks,
    skip_word, unsigned_decimal,
};

verus! {

/// A word: a text of one character or more, none of them white space.
#[verifier::opaque]
pub open spec fn is_word(w: Seq<char>) -> bool {
    w.len() > 0 && forall|i: int| 0 <= i < w.len() ==> !is_blank(#[trigger] w[i])
}

/// Skipping white space stays within the text and moves with the text when
/// something is put in front of it.
proof fn lemma_skip_blanks(pre: Seq<char>, s: Seq<char>, i: int)
    requires
        0 <= i <= s.len(),
    ensures
        i <= skip_blanks(s, i) <= s.len(),
        skip_blanks(pre + s, pre.len() + i) == pre.len() + skip_blanks(s, i),
    decreases s.len() - i,
{
    if i < s.len() {
        assert((pre + s)[pre.len() + i] == s[i]);
        if is_blank(s[i]) {
            lemma_skip_blanks(pre, s, i + 1);
        }
    }
}

/// Skipping a word stays within the text and moves with the text when
/// something is put in front of it.
proof fn lemma_skip_word(pre: Seq<char>, s: Seq<char>, i: int)
    requires
        0 <= i <= s.len(),
    ensures
        i <= skip_word(s, i) <= s.len(),
        skip_word(pre + s, pre.len() + i) == pre.len() + skip_word(s, i),
    decreases s.len() - i,
{
    if i < s.len() {
        assert((pre + s)[pre.len() + i] == s[i]);
        if !is_blank(s[i]) {
            lemma_skip_word(pre, s, i + 1);
        }
    }
}

/// The fields of a text do not depend on what stands before the place
/// from which they are read.
proof fn lemma_fields_shift(pre: Seq<char>, s: Seq<char>, i: int)
    requires
        0 <= i <= s.len(),
    ensures
        fields_from(pre + s, pre.len() + i) == fields_from(s, i),
    decreases s.len() - i,
{
    lemma_skip_blanks(pre, s, i);
    let start = skip_blanks(s, i);
    if start < s.len() {
        lemma_skip_word(pre, s, start);
        let end = skip_word(s, start);
        if start < end {
            lemma_fields_shift(pre, s, end);
            assert((pre + s).subrange(pre.len() + start, pre.len() + end) =~= s.subrange(
                start,
                end,
            ));
        }
    }
}

/// A word is skipped as a whole when white space or nothing follows it.
proof fn lemma_skip_whole_word(w: Seq<char>, rest: Seq<char>, i: int)
    requires
        is_word(w),
        rest.len() == 0 || is_blank(rest[0]),
        0 <= i <= w.len(),
    ensures
        skip_word(w + rest, i) == w.len(),
    decreases w.len() - i,
{
    reveal(is_word);
    if i < w.len() {
        assert((w + rest)[i] == w[i]);
        lemma_skip_whole_word(w, rest, i + 1);
    } else if rest.len() > 0 {
        assert((w + rest)[i] == rest[0]);
    }
}

/// The fields of a word followed by a space and more text are the word and
/// the fields of that text.
pub proof fn lemma_fields_of_word_and_more(w: Seq<char>, more: Seq<char>)
    requires
        is_word(w),
    ensures
        fields(w + seq![' '] + more) == seq![w] + fields(more),
{
    reveal(is_word);
    let rest = seq![' '] + more;
    let s = w + rest;
    assert(s =~= w + seq![' '] + more);
    assert(s[0] == w[0]);
    assert(skip_blanks(s, 0) == 0);
    lemma_skip_whole_word(w, rest, 0);
    assert(s.subrange(0, w.len() as int) =~= w);
    lemma_fields_shift(w, rest, 0);
    assert(fields_from(s, w.len() as int) == fields_from(rest, 0));
    // The space in front of `more` is skipped.
    assert(rest[0] == ' ');
    assert(skip_blanks(rest, 0) == skip_blanks(rest, 1));
    lemma_skip_blanks(seq![' '], more, 0);
    lemma_skip_blanks(Seq::<char>::empty(), rest, 1);
    lemma_fields_shift(seq![' '], more, 0);
    assert(fields_from(rest, 0) == fields_from(rest, 1));
    assert(fields_from(rest, 1) == fields_from(more, 0));
}

/// The only field of a word is the word.
pub proof fn lemma_fields_of_word(w: Seq<char>)
    requires
        is_word(w),
    ensures
        fields(w) == seq![w],
{
    reveal(is_word);
    let none = Seq::<char>::empty();
    assert(w + none =~= w);
    assert(skip_blanks(w, 0) == 0);
    lemma_skip_whole_word(w, none, 0);
    assert(w.subrange(0, w.len() as int) =~= w);
    assert(skip_blanks(w, w.len() as int) == w.len());
    assert(fields_from(w, w.len() as int) == Seq::<Seq<char>>::empty());
    assert(seq![w] + Seq::<Seq<char>>::empty() =~= seq![w]);
}

/// No character of `s` is white space.
pub open spec fn no_blank(s: Seq<char>) -> bool {
    forall|i: int| 0 <= i < s.len() ==> !is_blank(#[trigger] s[i])
}

/// Two texts without white space make a text without white space.
proof fn lemma_no_blank_joined(a: Seq<char>, b: Seq<char>)
    requires
        no_blank(a),
        no_blank(b),
    ensures
        no_blank(a + b),
{
    assert forall|i: int| 0 <= i < (a + b).len() implies !is_blank(#[trigger] (a + b)[i]) by {
        if i < a.len() {
            assert((a + b)[i] == a[i]);
        } else {
            assert((a + b)[i] == b[i - a.len()]);
        }
    }
}

/// The digits of a number are a word of digits that writes the number.
pub proof fn lemma_digits_write_the_number(n: nat)
    ensures
        decimal_digits(n).len() > 0,
        all_digits(decimal_digits(n)),
        decimal_value(decimal_digits(n)) == n,
        is_word(decimal_digits(n)),
        unsigned_decimal(decimal_digits(n)) == Some(n as int),
    decreases n,
{
    reveal(is_word);
    let d = decimal_digits(n);
    if n < 10 {
        assert(d.drop_last() =~= Seq::<char>::empty());
        assert(d.last() == ('0' as int + n) as char);
        assert(decimal_value(d.drop_last()) == 0);
    } else {
        lemma_digits_write_the_number(n / 10);
        let front = decimal_digits(n / 10);
        assert(d.drop_last() =~= front);
        assert(d.last() == ('0' as int + n % 10) as char);
        assert forall|i: int| 0 <= i < d.len() implies is_digit(#[trigger] d[i]) by {
            if i < front.len() {
                assert(d[i] == front[i]);
            }
        }
        assert(d[0] == front[0]);
    }
    assert(is_digit(d[0]));
    assert forall|i: int| 0 <= i < d.len() implies !is_blank(#[trigger] d[i]) by {
        assert(is_digit(d[i]));
    }
}

/// The letters of the castling rights are a word that grants the rights
/// it was written for.
pub proof fn lemma_rights_read_back(rights: CastlingRights)
    ensures
        is_word(rights_text(rights)),
        rights_of(rights_text(rights)) == rights,
{
    reveal(is_word);
    let none = Seq::<char>::empty();
    let a = with_letter(none, rights.white_kingside, 'K');
    let b = with_letter(a, rights.white_queenside, 'Q');
    let c = with_letter(b, rights.black_kingside, 'k');
    let d = with_letter(c, rights.black_queenside, 'q');
    lemma_push_contains(none, 'K');
    lemma_push_contains(a, 'Q');
    lemma_push_contains(b, 'k');
    lemma_push_contains(c, 'q');
    assert(forall|x: char| !none.contains(x));
    assert(forall|x: char| a.contains(x) <==> (rights.white_kingside && x == 'K'));
    assert(forall|x: char|
        b.contains(x) <==> (rights.white_kingside && x == 'K') || (rights.white_queenside && x
            == 'Q'));
    assert(forall|x: char|
        c.contains(x) <==> (rights.white_kingside && x == 'K') || (rights.white_queenside && x
            == 'Q') || (rights.black_kingside && x == 'k'));
    assert(forall|x: char|
        d.contains(x) <==> (rights.white_kingside && x == 'K') || (rights.white_queenside && x
            == 'Q') || (rights.black_kingside && x == 'k') || (rights.black_queenside && x
            == 'q'));
    let text = rights_text(rights);
    if d.len() == 0 {
        assert(text[0] == '-');
        assert forall|x: char| text.contains(x) implies x == '-' by {
            let i = choose|i: int| 0 <= i < text.len() && text[i] == x;
        }
        assert(!d.contains('K') && !d.contains('Q') && !d.contains('k') && !d.contains('q')) by {
            assert(forall|x: char| !d.contains(x)) by {
                assert forall|x: char| !d.contains(x) by {
                    if d.contains(x) {
                        let i = choose|i: int| 0 <= i < d.len() && d[i] == x;
                    }
                }
            }
        }
    } else {
        assert forall|i: int| 0 <= i < d.len() implies !is_blank(#[trigger] d[i]) by {
            assert(d.contains(d[i]));
        }
    }
}

/// The name of an en-passant target on the board is a word that names the
/// target; so is the `-` that stands for none.
pub proof fn lemma_target_reads_back(target: Option<Coordinates>)
    requires
        target matches Some(c) ==> c.on_board(),
    ensures
        is_word(target_text(target)),
        target_of(target_text(target)) == target,
{
    reveal(is_word);
    let text = target_text(target);
    match target {
        Some(c) => {
            assert(text[0] == ('a' as int + c.x - 1) as char);
            assert(text[1] == ('1' as int + c.y - 1) as char);
        },
        None => {
            assert(text[0] == '-');
        },
    }
}

/// The reading of `text` that goes on from `before`.
pub open spec fn place_all(before: Placement, text: Seq<char>) -> Placement
    decreases text.len(),
{
    if text.len() == 0 {
        before
    } else {
        place_next(place_all(before, text.drop_last()), text.last())
    }
}

/// Where the reading of a placement starts: at the square a8, with no
/// piece placed.
pub open spec fn place_start() -> Placement {
    Placement { file: 1, rank: 8, pieces: Map::empty(), ok: true }
}

/// A placement is read by going on from the start.
proof fn lemma_placed_from_start(text: Seq<char>)
    ensures
        placed(text) == place_all(place_start(), text),
    decreases text.len(),
{
    if text.len() > 0 {
        lemma_placed_from_start(text.drop_last());
    }
}

/// Reading two texts one after the other is reading their concatenation.
proof fn lemma_place_joined(before: Placement, a: Seq<char>, b: Seq<char>)
    ensures
        place_all(before, a + b) == place_all(place_all(before, a), b),
    decreases b.len(),
{
    if b.len() == 0 {
        assert(a + b =~= a);
    } else {
        assert((a + b).drop_last() =~= a + b.drop_last());
        assert((a + b).last() == b.last());
        lemma_place_joined(before, a, b.drop_last());
    }
}

/// Reading a text of one character is reading that character.
proof fn lemma_place_one(before: Placement, c: char)
    ensures
        place_all(before, seq![c]) == place_next(before, c),
{
    assert(seq![c].drop_last() =~= Seq::<char>::empty());
    assert(seq![c].last() == c);
    assert(place_all(before, seq![c].drop_last()) == before);
}

/// The pieces of `pos` on the squares that a placement reaches before the
/// square of file `file` and rank `rank`: the ranks above, and the files
/// to the left on that rank.
pub open spec fn pieces_before(pos: Position, rank: int, file: int) -> Map<Coordinates, Piece> {
    Map::new(
        |c: Coordinates|
            c.on_board() && pos.pieces.dom().contains(c) && (c.y > rank || (c.y == rank && c.x
                < file)),
        |c: Coordinates| pos.pieces[c],
    )
}

/// The text of the rest of a rank is read without refusal and places the
/// pieces of that rest.
proof fn lemma_rank_reads_back(pos: Position, before: Placement, rank: int, file: int, gap: int)
    requires
        1 <= rank <= 8,
        1 <= file <= 9,
        0 <= gap < file,
        before.ok,
        before.rank == rank,
        before.file == file - gap,
        before.pieces =~= pieces_before(pos, rank, file),
    ensures
        place_all(before, rank_text(pos, rank, file, gap)).ok,
        place_all(before, rank_text(pos, rank, file, gap)).rank == rank,
        place_all(before, rank_text(pos, rank, file, gap)).file == 9,
        place_all(before, rank_text(pos, rank, file, gap)).pieces =~= pieces_before(pos, rank, 9),
        no_blank(rank_text(pos, rank, file, gap)),
        gap > 0 || file <= 8 ==> rank_text(pos, rank, file, gap).len() > 0,
    decreases 9 - file,
{
    let text = rank_text(pos, rank, file, gap);
    let digit = ('0' as int + gap) as char;
    let run = gap_text(gap);
    let after_run = place_all(before, run);
    assert(after_run.ok && after_run.rank == rank && after_run.file == file && after_run.pieces
        == before.pieces && no_blank(run)) by {
        if gap > 0 {
            lemma_place_one(before, digit);
            assert(run[0] == digit);
        }
    }
    if file > 8 {
        assert(text == run);
    } else {
        let here = square(file, rank);
        match pos.at(here) {
            Some(piece) => {
                let letter = letter_of(piece);
                let rest = rank_text(pos, rank, file + 1, 0);
                law_letters_name_pieces(piece);
                let after_letter = place_next(after_run, letter);
                assert(after_letter.pieces =~= pieces_before(pos, rank, file + 1));
                lemma_rank_reads_back(pos, after_letter, rank, file + 1, 0);
                lemma_place_one(after_run, letter);
                lemma_place_joined(before, run, seq![letter]);
                lemma_place_joined(before, run + seq![letter], rest);
                assert(text == run + seq![letter] + rest);
                assert(no_blank(seq![letter])) by {
                    assert(seq![letter][0] == letter);
                }
                lemma_no_blank_joined(run, seq![letter]);
                lemma_no_blank_joined(run + seq![letter], rest);
            },
            None => {
                assert(before.pieces =~= pieces_before(pos, rank, file + 1));
                lemma_rank_reads_back(pos, before, rank, file + 1, gap + 1);
            },
        }
    }
}

/// The text of the ranks from `rank` down is read without refusal and
/// places every piece of the board.
proof fn lemma_ranks_read_back(pos: Position, before: Placement, rank: int)
    requires
        1 <= rank <= 8,
        before.ok,
        before.rank == rank,
        before.file == 1,
        before.pieces =~= pieces_before(pos, rank, 1),
    ensures
        place_all(before, ranks_text(pos, rank)).ok,
        place_all(before, ranks_text(pos, rank)).pieces =~= pieces_before(pos, 1, 9),
        is_word(ranks_text(pos, rank)),
    decreases rank,
{
    reveal(is_word);
    let first = rank_text(pos, rank, 1, 0);
    lemma_rank_reads_back(pos, before, rank, 1, 0);
    if rank > 1 {
        let after_rank = place_all(before, first);
        let after_bar = place_next(after_rank, '/');
        let rest = ranks_text(pos, rank - 1);
        assert(after_bar.pieces =~= pieces_before(pos, rank - 1, 1));
        lemma_ranks_read_back(pos, after_bar, rank - 1);
        lemma_place_one(after_rank, '/');
        lemma_place_joined(before, first, seq!['/']);
        lemma_place_joined(before, first + seq!['/'], rest);
        assert(no_blank(seq!['/'])) by {
            assert(seq!['/'][0] == '/');
        }
        lemma_no_blank_joined(first, seq!['/']);
        lemma_no_blank_joined(first + seq!['/'], rest);
    }
}

/// The placement of a position, read back, places the pieces of the
/// position.
pub proof fn lemma_placement_reads_back(pos: Position)
    requires
        pos.well_formed(),
    ensures
        placed(ranks_text(pos, 8)).ok,
        placed(ranks_text(pos, 8)).pieces =~= pos.pieces,
        is_word(ranks_text(pos, 8)),
{
    lemma_placed_from_start(ranks_text(pos, 8));
    assert(place_start().pieces =~= pieces_before(pos, 8, 1));
    lemma_ranks_read_back(pos, place_start(), 8);
    assert(pieces_before(pos, 1, 9) =~= pos.pieces);
}

/// The six fields of a position as they are written.
pub open spec fn written_fields(pos: Position) -> Seq<Seq<char>> {
    seq![
        ranks_text(pos, 8),
        side_text(pos.color_to_move),
        rights_text(pos.castling),
        target_text(pos.en_passant),
        decimal_digits(pos.halfmove_clock as nat),
        decimal_digits(pos.fullmove_number as nat),
    ]
}

/// The fields of six words with one space between two of them are the six
/// words.
proof fn lemma_fields_of_six_words(
    w0: Seq<char>,
    w1: Seq<char>,
    w2: Seq<char>,
    w3: Seq<char>,
    w4: Seq<char>,
    w5: Seq<char>,
)
    requires
        is_word(w0),
        is_word(w1),
        is_word(w2),
        is_word(w3),
        is_word(w4),
        is_word(w5),
    ensures
        fields(
            w0 + seq![' '] + w1 + seq![' '] + w2 + seq![' '] + w3 + seq![' '] + w4 + seq![' ']
                + w5,
        ) == seq![w0, w1, w2, w3, w4, w5],
{
    let space = seq![' '];
    let more4 = w4 + space + w5;
    let more3 = w3 + space + more4;
    let more2 = w2 + space + more3;
    let more1 = w1 + space + more2;
    assert(fields(more4) == seq![w4, w5]) by {
        lemma_fields_of_word(w5);
        lemma_fields_of_word_and_more(w4, w5);
        assert(seq![w4] + seq![w5] =~= seq![w4, w5]);
    }
    assert(fields(more3) == seq![w3, w4, w5]) by {
        lemma_fields_of_word_and_more(w3, more4);
        assert(seq![w3] + seq![w4, w5] =~= seq![w3, w4, w5]);
    }
    assert(fields(more2) == seq![w2, w3, w4, w5]) by {
        lemma_fields_of_word_and_more(w2, more3);
        assert(seq![w2] + seq![w3, w4, w5] =~= seq![w2, w3, w4, w5]);
    }
    assert(fields(more1) == seq![w1, w2, w3, w4, w5]) by {
        lemma_fields_of_word_and_more(w1, more2);
        assert(seq![w1] + seq![w2, w3, w4, w5] =~= seq![w1, w2, w3, w4, w5]);
    }
    assert(fields(w0 + space + more1) == seq![w0, w1, w2, w3, w4, w5]) by {
        lemma_fields_of_word_and_more(w0, more1);
        assert(seq![w0] + seq![w1, w2, w3, w4, w5] =~= seq![w0, w1, w2, w3, w4, w5]);
    }
    assert(w0 + space + w1 + space + w2 + space + w3 + space + w4 + space + w5 =~= w0 + space
        + more1);
}

/// The fields of the notation of a position are the six fields that were
/// written.
proof fn lemma_fields_of_written(pos: Position)
    requires
        pos.well_formed(),
        pos.en_passant matches Some(c) ==> c.on_board(),
    ensures
        fields(fen_text(pos)) == written_fields(pos),
{
    let w1 = side_text(pos.color_to_move);
    lemma_placement_reads_back(pos);
    assert(is_word(w1)) by {
        reveal(is_word);
        assert(w1[0] == 'w' || w1[0] == 'b');
    }
    lemma_rights_read_back(pos.castling);
    lemma_target_reads_back(pos.en_passant);
    lemma_digits_write_the_number(pos.halfmove_clock as nat);
    lemma_digits_write_the_number(pos.fullmove_number as nat);
    lemma_fields_of_six_words(
        ranks_text(pos, 8),
        w1,
        rights_text(pos.castling),
        target_text(pos.en_passant),
        decimal_digits(pos.halfmove_clock as nat),
        decimal_digits(pos.fullmove_number as nat),
    );
}

/// The side to move reads back from its letter.
proof fn lemma_side_reads_back(color: Color)
    ensures
        side_of(side_text(color)) == Some(color),
{
    assert(seq!['w'][0] != seq!['b'][0]);
}

/// Reading back what was written gives the position that was written: the
/// Forsyth–Edwards Notation of a position whose pieces and en-passant
/// target lie on the board can be read, and reads as that position.
pub proof fn law_written_position_reads_back(pos: Position)
    requires
        pos.well_formed(),
        pos.en_passant matches Some(c) ==> c.on_board(),
    ensures
        readable(fen_text(pos)),
        position_of_text(fen_text(pos)) == pos,
{
    let text = fen_text(pos);
    let parts = fields(text);
    lemma_fields_of_written(pos);
    assert(parts.len() == 6);
    assert(parts[0] == ranks_text(pos, 8));
    assert(parts[1] == side_text(pos.color_to_move));
    assert(parts[2] == rights_text(pos.castling));
    assert(parts[3] == target_text(pos.en_passant));
    assert(parts[4] == decimal_digits(pos.halfmove_clock as nat));
    assert(parts[5] == decimal_digits(pos.fullmove_number as nat));
    lemma_placement_reads_back(pos);
    lemma_side_reads_back(pos.color_to_move);
    lemma_rights_read_back(pos.castling);
    lemma_target_reads_back(pos.en_passant);
    lemma_digits_write_the_number(pos.halfmove_clock as nat);
    lemma_digits_write_the_number(pos.fullmove_number as nat);
    let back = position_of_text(text);
    assert(back.pieces =~= pos.pieces);
    assert(back.color_to_move == pos.color_to_move);
    assert(back.castling == pos.castling);
    assert(back.en_passant == pos.en_passant);
    assert(back.halfmove_clock == pos.halfmove_clock);
    assert(back.fullmove_number == pos.fullmove_number);
}

/// What `to_fen` writes of a board reads back, by `from_fen`, as a board
/// with the same position.
pub proof fn law_written_board_reads_back(board: Board)
    requires
        board@.en_passant matches Some(c) ==> c.on_board(),
    ensures
        readable(fen_text(board@)),
        position_of_text(fen_text(board@)) == board@,
{
    board.lemma_view_well_formed();
    law_written_position_reads_back(board@);
}

/// A canonical text keeps its form: the notation of a position, read and
/// written again, is the same text.
pub proof fn law_canonical_text_round_trips(text: Seq<char>, pos: Position)
    requires
        pos.well_formed(),
        pos.en_passant matches Some(c) ==> c.on_board(),
        text == fen_text(pos),
    ensures
        readable(text),
        fen_text(position_of_text(text)) == text,
{
    law_written_position_reads_back(pos);
}

} // verus!
