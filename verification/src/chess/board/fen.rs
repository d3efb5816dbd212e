//! Forsyth–Edwards Notation: reading a position from text and writing it
//! back.
//!
//! The text holds six fields between white space: the piece placement, the
//! side to move, the castling rights, the en-passant target, the halfmove
//! clock and the fullmove number. The placement gives the ranks from the
//! eighth down to the first, separated by `/`; within a rank a digit from
//! `1` to `8` stands for that many empty squares and a letter of
//! `PNBRQK` or `pnbrqk` for a piece of White or of Black.

use vstd::prelude::*;
use crate::chess::board::board::{
    empty_position, letter_of, piece_of_letter, Board, Piece, Position,
};
use crate::chess::board::coordinates::Coordinates;
use crate::chess::board::rules::square;
use crate::chess::error::ChessError;
use crate::chess::piece::piece::{CastlingRights, Color};
use crate::chess::text::{
    chars_of, decimal_digits, digit_char, digit_value, fields, has_char, parse_u32, push_decimal,
    split_fields, text_of, unsigned_decimal,
};

verus! {

/// How far a placement has been read: the file and the rank of the next
/// square, the pieces placed so far, and whether every character so far was
/// allowed where it stood.
pub struct Placement {
    pub file: int,
    pub rank: int,
    pub pieces: Map<Coordinates, Piece>,
    pub ok: bool,
}

/// The reading of one more character `c` of a placement.
///
/// A `/` starts the next rank below at file a; a digit from `1` to `8`
/// skips that many files; a piece letter puts its piece on the next square
/// and is refused if that square lies beyond file h or below rank 1; any
/// other character is refused. Once a character is refused nothing more is
/// read.
pub open spec fn place_next(before: Placement, c: char) -> Placement {
    if !before.ok {
        before
    } else if c == '/' {
        Placement { file: 1, rank: before.rank - 1, ..before }
    } else if '1' <= c <= '8' {
        Placement { file: before.file + digit_value(c), ..before }
    } else if piece_of_letter(c) is Some && before.file <= 8 && before.rank >= 1 {
        Placement {
            file: before.file + 1,
            pieces: before.pieces.insert(
                square(before.file, before.rank),
                piece_of_letter(c)->0,
            ),
            ..before
        }
    } else {
        Placement { ok: false, ..before }
    }
}

/// The reading of the placement `text`, from the square a8 on.
pub open spec fn placed(text: Seq<char>) -> Placement
    decreases text.len(),
{
    if text.len() == 0 {
        Placement { file: 1, rank: 8, pieces: Map::empty(), ok: true }
    } else {
        place_next(placed(text.drop_last()), text.last())
    }
}

/// The side that the second field names: `w` or `b`.
pub open spec fn side_of(text: Seq<char>) -> Option<Color> {
    if text == seq!['w'] {
        Some(Color::White)
    } else if text == seq!['b'] {
        Some(Color::Black)
    } else {
        None
    }
}

/// The castling rights that the third field grants: each of `K`, `Q`, `k`
/// and `q` grants its right where it occurs.
pub open spec fn rights_of(text: Seq<char>) -> CastlingRights {
    CastlingRights {
        white_kingside: text.contains('K'),
        white_queenside: text.contains('Q'),
        black_kingside: text.contains('k'),
        black_queenside: text.contains('q'),
    }
}

/// The en-passant target that the fourth field names: the square, where
/// the field is a file letter from `a` to `h` and a rank digit from `1` to
/// `8`; none for any other field, `-` among them.
pub open spec fn target_of(text: Seq<char>) -> Option<Coordinates> {
    if text.len() == 2 && 'a' <= text[0] <= 'h' && '1' <= text[1] <= '8' {
        Some(square(text[0] as int - 'a' as int + 1, text[1] as int - '1' as int + 1))
    } else {
        None
    }
}

/// The counter that `text` writes, or `fallback` where `text` is not a
/// natural number of at most 32 bits.
pub open spec fn counter_of(text: Seq<char>, fallback: u32) -> u32 {
    match unsigned_decimal(text) {
        Some(n) => if n <= u32::MAX {
            n as u32
        } else {
            fallback
        },
        None => fallback,
    }
}

/// The text can be read as a position: it has four fields or more, its
/// placement is read to the end and its second field names a side.
pub open spec fn readable(text: Seq<char>) -> bool {
    let parts = fields(text);
    parts.len() >= 4 && placed(parts[0]).ok && side_of(parts[1]) is Some
}

/// The position that a readable text describes. A halfmove clock that is
/// missing or not a number is 0, a fullmove number that is missing or not
/// a number is 1.
pub open spec fn position_of_text(text: Seq<char>) -> Position {
    let parts = fields(text);
    Position {
        pieces: placed(parts[0]).pieces,
        color_to_move: side_of(parts[1])->0,
        castling: rights_of(parts[2]),
        en_passant: target_of(parts[3]),
        halfmove_clock: if parts.len() > 4 {
            counter_of(parts[4], 0)
        } else {
            0
        },
        fullmove_number: if parts.len() > 5 {
            counter_of(parts[5], 1)
        } else {
            1
        },
    }
}

/// The digit for a run of `gap` empty squares, and nothing for no run.
pub open spec fn gap_text(gap: int) -> Seq<char> {
    if gap > 0 {
        seq![('0' as int + gap) as char]
    } else {
        Seq::empty()
    }
}

/// The text of rank `rank` from file `file` on, after a run of `gap` empty
/// squares: each piece by its letter, each longest run of empty squares by
/// its length.
pub open spec fn rank_text(pos: Position, rank: int, file: int, gap: int) -> Seq<char>
    decreases 9 - file,
{
    if file < 1 || file > 8 {
        gap_text(gap)
    } else {
        match pos.at(square(file, rank)) {
            Some(piece) => gap_text(gap) + seq![letter_of(piece)] + rank_text(
                pos,
                rank,
                file + 1,
                0,
            ),
            None => rank_text(pos, rank, file + 1, gap + 1),
        }
    }
}

/// The text of the ranks from `rank` down to the first, with a `/` between
/// two ranks.
pub open spec fn ranks_text(pos: Position, rank: int) -> Seq<char>
    decreases rank,
{
    if rank <= 1 {
        rank_text(pos, rank, 1, 0)
    } else {
        rank_text(pos, rank, 1, 0) + seq!['/'] + ranks_text(pos, rank - 1)
    }
}

/// The letter of the side to move.
pub open spec fn side_text(color: Color) -> Seq<char> {
    match color {
        Color::White => seq!['w'],
        Color::Black => seq!['b'],
    }
}

/// `text` with the letter `c` appended where `granted` holds.
pub open spec fn with_letter(text: Seq<char>, granted: bool, c: char) -> Seq<char> {
    if granted {
        text.push(c)
    } else {
        text
    }
}

/// The letters of the rights that are granted, in the order `KQkq`.
pub open spec fn rights_letters(rights: CastlingRights) -> Seq<char> {
    with_letter(
        with_letter(
            with_letter(
                with_letter(Seq::empty(), rights.white_kingside, 'K'),
                rights.white_queenside,
                'Q',
            ),
            rights.black_kingside,
            'k',
        ),
        rights.black_queenside,
        'q',
    )
}

/// The letters of the rights that are granted, in the order `KQkq`, or `-`
/// where none is.
pub open spec fn rights_text(rights: CastlingRights) -> Seq<char> {
    if rights_letters(rights).len() == 0 {
        seq!['-']
    } else {
        rights_letters(rights)
    }
}

/// The name of the en-passant target, or `-` where there is none.
pub open spec fn target_text(target: Option<Coordinates>) -> Seq<char> {
    match target {
        Some(c) => seq![('a' as int + c.x - 1) as char, ('1' as int + c.y - 1) as char],
        None => seq!['-'],
    }
}

/// The Forsyth–Edwards Notation of a position: its six fields with one
/// space between two of them.
pub open spec fn fen_text(pos: Position) -> Seq<char> {
    ranks_text(pos, 8) + seq![' '] + side_text(pos.color_to_move) + seq![' '] + rights_text(
        pos.castling,
    ) + seq![' '] + target_text(pos.en_passant) + seq![' '] + decimal_digits(
        pos.halfmove_clock as nat,
    ) + seq![' '] + decimal_digits(pos.fullmove_number as nat)
}

/// Reads the counter that `text` writes, or gives `fallback`.
fn read_counter(text: &Vec<char>, fallback: u32) -> (n: u32)
    ensures
        n == counter_of(text@, fallback),
{
    match parse_u32(text) {
        Some(n) => n,
        None => fallback,
    }
}

/// Reads the en-passant target that `text` names.
fn read_target(text: &Vec<char>) -> (target: Option<Coordinates>)
    ensures
        target == target_of(text@),
        target matches Some(c) ==> c.on_board(),
{
    if text.len() != 2 {
        return None;
    }
    let file = text[0];
    let rank = text[1];
    if 'a' <= file && file <= 'h' && '1' <= rank && rank <= '8' {
        let x: u32 = file as u32 - 'a' as u32 + 1;
        let y: u32 = rank as u32 - '1' as u32 + 1;
        Some(Coordinates { x: x as i8, y: y as i8 })
    } else {
        None
    }
}

impl Board {
    /// Puts on an empty board the pieces that the placement `text`
    /// describes; `ParseError` if a character of the placement is refused.
    fn place_pieces(&mut self, text: &Vec<char>) -> (done: Result<(), ChessError>)
        requires
            old(self)@.pieces == Map::<Coordinates, Piece>::empty(),
        ensures
            placed(text@).ok ==> done == Ok::<(), ChessError>(()) && final(self)@ == (Position {
                pieces: placed(text@).pieces,
                ..old(self)@
            }),
            !placed(text@).ok ==> done == Err::<(), ChessError>(ChessError::ParseError),
    {
        let mut file: i8 = 1;
        let mut rank: i8 = 8;
        let mut i: usize = 0;
        while i < text.len()
            invariant
                i <= text.len(),
                placed(text@.take(i as int)).ok,
                1 <= file <= 16,
                0 <= rank <= 8,
                placed(text@.take(i as int)).file <= 8 ==> file == placed(
                    text@.take(i as int),
                ).file,
                placed(text@.take(i as int)).file > 8 ==> file > 8,
                placed(text@.take(i as int)).file >= 1,
                placed(text@.take(i as int)).rank >= 1 ==> rank == placed(
                    text@.take(i as int),
                ).rank,
                placed(text@.take(i as int)).rank < 1 ==> rank < 1,
                placed(text@.take(i as int)).rank <= 8,
                self@ == (Position { pieces: placed(text@.take(i as int)).pieces, ..old(self)@ }),
            decreases text.len() - i,
        {
            let c = text[i];
            proof {
                assert(text@.take(i as int + 1).drop_last() =~= text@.take(i as int));
                assert(text@.take(i as int + 1).last() == c);
            }
            if c == '/' {
                file = 1;
                if rank >= 1 {
                    rank = rank - 1;
                }
            } else if '1' <= c && c <= '8' {
                if file <= 8 {
                    file = file + (c as u32 - '0' as u32) as i8;
                }
            } else {
                match Piece::from_symbol(c) {
                    Some(piece) => {
                        if file > 8 || rank < 1 {
                            proof {
                                lemma_refusal_stays(text@, i as int + 1);
                            }
                            return Err(ChessError::ParseError);
                        }
                        self.set(Coordinates { x: file, y: rank }, Some(piece));
                        file = file + 1;
                    },
                    None => {
                        proof {
                            lemma_refusal_stays(text@, i as int + 1);
                        }
                        return Err(ChessError::ParseError);
                    },
                }
            }
            i += 1;
        }
        assert(text@.take(text.len() as int) =~= text@);
        Ok(())
    }

    /// Reads a position from its Forsyth–Edwards Notation.
    ///
    /// The text is refused with `ParseError` if it has fewer than four
    /// fields, if its placement holds a character other than `/`, the
    /// digits `1` to `8` and the piece letters, or a piece beyond file h
    /// or below rank 1, or if its second field is neither `w` nor `b`.
    /// Castling rights, en-passant target and counters that cannot be read
    /// fall back to no right, no target, 0 and 1.
    pub fn from_fen(fen: &str) -> (board: Result<Board, ChessError>)
        ensures
            readable(fen@) ==> (board matches Ok(b) && b@ == position_of_text(fen@)),
            !readable(fen@) ==> board == Err::<Board, ChessError>(ChessError::ParseError),
            board matches Ok(b) ==> (b@.en_passant matches Some(c) ==> c.on_board()),
    {
        let text = chars_of(fen);
        let parts = split_fields(&text);
        if parts.len() < 4 {
            return Err(ChessError::ParseError);
        }
        let mut board = Board::new();
        match board.place_pieces(&parts[0]) {
            Ok(()) => {},
            Err(e) => {
                return Err(e);
            },
        }
        let side = &parts[1];
        if side.len() == 1 && side[0] == 'w' {
            assert(side@ =~= seq!['w']);
            board.color_to_move = Color::White;
        } else if side.len() == 1 && side[0] == 'b' {
            assert(side@ =~= seq!['b']);
            board.color_to_move = Color::Black;
        } else {
            assert(side@ != seq!['w'] && side@ != seq!['b']) by {
                if side@.len() == 1 {
                    assert(seq!['w'][0] == 'w');
                    assert(seq!['b'][0] == 'b');
                } else {
                    assert(seq!['w'].len() == 1);
                    assert(seq!['b'].len() == 1);
                }
            }
            return Err(ChessError::ParseError);
        }
        let rights = &parts[2];
        board.castling_rights = [
            has_char(rights, 'K'),
            has_char(rights, 'Q'),
            has_char(rights, 'k'),
            has_char(rights, 'q'),
        ];
        board.en_passant = read_target(&parts[3]);
        if parts.len() > 4 {
            board.halfmove_clock = read_counter(&parts[4], 0);
        }
        if parts.len() > 5 {
            board.fullmove_number = read_counter(&parts[5], 1);
        }
        proof {
            assert(board@.pieces =~= placed(parts[0]@).pieces);
        }
        Ok(board)
    }
}

impl Board {
    /// Appends to `out` the text of rank `rank`.
    fn push_rank(&self, out: &mut String, rank: i8)
        requires
            1 <= rank <= 8,
        ensures
            final(out)@ == old(out)@ + rank_text(self@, rank as int, 1, 0),
    {
        let mut gap: u8 = 0;
        let mut file: i8 = 1;
        while file <= 8
            invariant
                1 <= rank <= 8,
                1 <= file <= 9,
                0 <= gap < file,
                out@ + rank_text(self@, rank as int, file as int, gap as int) == old(out)@
                    + rank_text(self@, rank as int, 1, 0),
            decreases 9 - file,
        {
            let ghost before = out@;
            let ghost rest = rank_text(self@, rank as int, file + 1, 0);
            match self.get(Coordinates { x: file, y: rank }) {
                Some(piece) => {
                    if gap > 0 {
                        out.push(digit_char(gap));
                    }
                    out.push(piece.symbol());
                    assert(out@ + rest =~= before + (gap_text(gap as int) + seq![
                        letter_of(piece),
                    ] + rest));
                    gap = 0;
                },
                None => {
                    gap = gap + 1;
                },
            }
            file = file + 1;
        }
        let ghost before = out@;
        if gap > 0 {
            out.push(digit_char(gap));
        }
        assert(out@ =~= before + gap_text(gap as int));
    }

    /// Appends to `out` the placement: the ranks from the eighth down to
    /// the first.
    fn push_placement(&self, out: &mut String)
        ensures
            final(out)@ == old(out)@ + ranks_text(self@, 8),
    {
        let mut rank: i8 = 8;
        while rank > 1
            invariant
                1 <= rank <= 8,
                out@ + ranks_text(self@, rank as int) == old(out)@ + ranks_text(self@, 8),
            decreases rank,
        {
            let ghost before = out@;
            self.push_rank(out, rank);
            out.push('/');
            assert(out@ + ranks_text(self@, rank - 1) =~= before + (rank_text(
                self@,
                rank as int,
                1,
                0,
            ) + seq!['/'] + ranks_text(self@, rank - 1)));
            rank = rank - 1;
        }
        self.push_rank(out, rank);
    }

    /// Appends to `out` the letters of the castling rights.
    fn push_rights(&self, out: &mut String)
        ensures
            final(out)@ == old(out)@ + rights_text(self@.castling),
    {
        let ghost letters = rights_text(self@.castling);
        if self.castling_rights[0] {
            out.push('K');
        }
        if self.castling_rights[1] {
            out.push('Q');
        }
        if self.castling_rights[2] {
            out.push('k');
        }
        if self.castling_rights[3] {
            out.push('q');
        }
        if !self.castling_rights[0] && !self.castling_rights[1] && !self.castling_rights[2]
            && !self.castling_rights[3] {
            out.push('-');
        }
        assert(out@ =~= old(out)@ + letters);
    }

    /// Appends to `out` the name of the en-passant target, which must lie
    /// on the board, or `-`.
    fn push_target(&self, out: &mut String)
        requires
            self@.en_passant matches Some(c) ==> c.on_board(),
        ensures
            final(out)@ == old(out)@ + target_text(self@.en_passant),
    {
        match self.en_passant {
            Some(ep) => {
                out.push((('a' as u8) + (ep.x - 1) as u8) as char);
                out.push((('1' as u8) + (ep.y - 1) as u8) as char);
            },
            None => {
                out.push('-');
            },
        }
        assert(out@ =~= old(out)@ + target_text(self@.en_passant));
    }

    /// Writes the position in Forsyth–Edwards Notation. An en-passant
    /// target, where there is one, must lie on the board.
    pub fn to_fen(&self) -> (fen: String)
        requires
            self@.en_passant matches Some(c) ==> c.on_board(),
        ensures
            fen@ == fen_text(self@),
    {
        let mut fen = String::new();
        self.push_placement(&mut fen);
        let ghost placement = fen@;
        assert(placement =~= ranks_text(self@, 8));
        fen.push(' ');
        fen.push(
            match self.color_to_move {
                Color::White => 'w',
                Color::Black => 'b',
            },
        );
        let ghost with_side = fen@;
        assert(with_side =~= placement + seq![' '] + side_text(self@.color_to_move));
        fen.push(' ');
        self.push_rights(&mut fen);
        let ghost with_rights = fen@;
        assert(with_rights =~= with_side + seq![' '] + rights_text(self@.castling));
        fen.push(' ');
        self.push_target(&mut fen);
        let ghost with_target = fen@;
        assert(with_target =~= with_rights + seq![' '] + target_text(self@.en_passant));
        fen.push(' ');
        push_decimal(&mut fen, self.halfmove_clock);
        let ghost with_clock = fen@;
        assert(with_clock =~= with_target + seq![' '] + decimal_digits(
            self@.halfmove_clock as nat,
        ));
        fen.push(' ');
        push_decimal(&mut fen, self.fullmove_number);
        assert(fen@ =~= with_clock + seq![' '] + decimal_digits(self@.fullmove_number as nat));
        fen
    }
}

/// Once a character of a placement is refused, the placement stays refused
/// however it goes on.
pub proof fn lemma_refusal_stays(text: Seq<char>, n: int)
    requires
        0 <= n <= text.len(),
        !placed(text.take(n)).ok,
    ensures
        !placed(text).ok,
    decreases text.len() - n,
{
    if n < text.len() {
        assert(text.take(n + 1).drop_last() =~= text.take(n));
        lemma_refusal_stays(text, n + 1);
    } else {
        assert(text.take(n) =~= text);
    }
}

/// The fields of a Forsyth–Edwards Notation as they stand in the text: the
/// placement, and each of the other fields where the text goes that far.
#[derive(Debug)]
pub struct Fen {
    pub board: String,
    pub turn: Option<String>,
    pub castling: Option<String>,
    pub en_passant: Option<String>,
    pub halfmove_clock: Option<u32>,
    pub fullmove_number: Option<u32>,
}

/// The mathematical model of the fields of a notation.
pub struct FenFields {
    pub board: Seq<char>,
    pub turn: Option<Seq<char>>,
    pub castling: Option<Seq<char>>,
    pub en_passant: Option<Seq<char>>,
    pub halfmove_clock: Option<u32>,
    pub fullmove_number: Option<u32>,
}

/// The text of a field that may be missing.
pub open spec fn field_text(field: Option<String>) -> Option<Seq<char>> {
    match field {
        Some(text) => Some(text@),
        None => None,
    }
}

impl View for Fen {
    type V = FenFields;

    open spec fn view(&self) -> FenFields {
        FenFields {
            board: self.board@,
            turn: field_text(self.turn),
            castling: field_text(self.castling),
            en_passant: field_text(self.en_passant),
            halfmove_clock: self.halfmove_clock,
            fullmove_number: self.fullmove_number,
        }
    }
}

/// The field of `parts` at place `k`, where there is one.
pub open spec fn field_at(parts: Seq<Seq<char>>, k: int) -> Option<Seq<char>> {
    if 0 <= k < parts.len() {
        Some(parts[k])
    } else {
        None
    }
}

/// The counter that the field of `parts` at place `k` writes, where there
/// is such a field; 0 for a field that is not a number.
pub open spec fn counter_at(parts: Seq<Seq<char>>, k: int) -> Option<u32> {
    if 0 <= k < parts.len() {
        Some(counter_of(parts[k], 0))
    } else {
        None
    }
}

/// The text has the number of fields of a notation: two at least, six at
/// most.
pub open spec fn has_fen_fields(text: Seq<char>) -> bool {
    2 <= fields(text).len() <= 6
}

/// The fields of a text that has between two and six of them.
pub open spec fn fen_fields(text: Seq<char>) -> FenFields {
    let parts = fields(text);
    FenFields {
        board: parts[0],
        turn: field_at(parts, 1),
        castling: field_at(parts, 2),
        en_passant: field_at(parts, 3),
        halfmove_clock: counter_at(parts, 4),
        fullmove_number: counter_at(parts, 5),
    }
}

/// The string of the field at place `k`, where there is one.
fn field_string(parts: &Vec<Vec<char>>, k: usize) -> (field: Option<String>)
    ensures
        field_text(field) == (if k < parts@.len() {
            Some(parts@[k as int]@)
        } else {
            None
        }),
{
    if k < parts.len() {
        Some(text_of(&parts[k]))
    } else {
        None
    }
}

/// The counter of the field at place `k`, where there is one.
fn field_counter(parts: &Vec<Vec<char>>, k: usize) -> (counter: Option<u32>)
    ensures
        counter == (if k < parts@.len() {
            Some(counter_of(parts@[k as int]@, 0))
        } else {
            None
        }),
{
    if k < parts.len() {
        Some(read_counter(&parts[k], 0))
    } else {
        None
    }
}

impl Fen {
    /// The fields of a notation of which only the placement `board` is
    /// known.
    pub fn new(board: &str) -> (fen: Fen)
        ensures
            fen@ == (FenFields {
                board: board@,
                turn: None,
                castling: None,
                en_passant: None,
                halfmove_clock: None,
                fullmove_number: None,
            }),
    {
        Fen {
            board: text_of(&chars_of(board)),
            turn: None,
            castling: None,
            en_passant: None,
            halfmove_clock: None,
            fullmove_number: None,
        }
    }

    /// Splits a notation into its fields, without reading them. The text
    /// is refused with `ParseError` unless it has between two and six
    /// fields. A counter that is not a number is taken as 0.
    pub fn parse_fen(fen_str: &str) -> (fen: Result<Fen, ChessError>)
        ensures
            has_fen_fields(fen_str@) ==> (fen matches Ok(f) && f@ == fen_fields(fen_str@)),
            !has_fen_fields(fen_str@) ==> fen is Err && fen->Err_0 == ChessError::ParseError,
    {
        let text = chars_of(fen_str);
        let parts = split_fields(&text);
        if parts.len() < 2 || parts.len() > 6 {
            return Err(ChessError::ParseError);
        }
        Ok(
            Fen {
                board: text_of(&parts[0]),
                turn: field_string(&parts, 1),
                castling: field_string(&parts, 2),
                en_passant: field_string(&parts, 3),
                halfmove_clock: field_counter(&parts, 4),
                fullmove_number: field_counter(&parts, 5),
            },
        )
    }

    /// The board that the placement describes; every other field is left
    /// aside, so that the side to move, the castling rights, the en-passant
    /// target and the counters are those of `Board::new`. `ParseError` if a
    /// character of the placement is refused.
    pub fn to_board(&self) -> (board: Result<Board, ChessError>)
        ensures
            placed(self@.board).ok ==> (board matches Ok(b) && b@ == (Position {
                pieces: placed(self@.board).pieces,
                ..empty_position()
            })),
            !placed(self@.board).ok ==> board is Err && board->Err_0 == ChessError::ParseError,
    {
        let text = chars_of(self.board.as_str());
        let mut board = Board::new();
        match board.place_pieces(&text) {
            Ok(()) => Ok(board),
            Err(e) => Err(e),
        }
    }
}

} // verus!
