//! Check detection and the legality filter: from the pseudo-legal moves to
//! the moves that do not leave the mover's own king attacked.

use vstd::prelude::*;
use crate::chess::board::board::{Board, Piece, Position};
use crate::chess::board::coordinates::Coordinates;
use crate::chess::board::movegen::contains_square;
use crate::chess::board::rules::{
    basic_target, checked_on, checkmate, holds_king, in_check, is_king_square, legal, legal_for,
    no_king, no_legal_move, path_clear, path_square, pseudo_target, reach, stalemate, threat,
};
use crate::chess::piece::piece::{Color, PieceType};
use crate::chess::sequences::{lemma_push_contains, lemma_take_next};
use crate::chess::state::movement::Move;

verus! {

/// `m` is a move of side `color`: a piece of that side stands on `m.from`,
/// `m.piece_type` is its kind and `m.to` is one of its pseudo-legal
/// targets; with `king_safe` set, the move is moreover legal for `color`.
pub open spec fn is_move_of(pos: Position, color: Color, king_safe: bool, m: Move) -> bool {
    &&& m.from.on_board()
    &&& pos.at(m.from) matches Some(p)
    &&& p.color == color
    &&& p.piece_type == m.piece_type
    &&& pseudo_target(pos, m.from, p, m.to)
    &&& king_safe ==> !in_check(pos.relocate(m.from, m.to), color)
}

/// A side has at most one king square.
pub proof fn lemma_king_square_unique(pos: Position, color: Color, a: Coordinates, b: Coordinates)
    requires
        is_king_square(pos, color, a),
        is_king_square(pos, color, b),
    ensures
        a == b,
{
    assert(a.linear_index() <= b.linear_index());
    assert(b.linear_index() <= a.linear_index());
}

/// A threat to an occupied square depends on the pieces alone: not on the
/// side to move, the castling rights, the en-passant target or the
/// counters.
pub proof fn lemma_threat_reads_pieces(
    a: Position,
    b: Position,
    from: Coordinates,
    sq: Coordinates,
    by: Color,
)
    requires
        a.pieces == b.pieces,
        !a.is_empty(sq),
        threat(a, from, sq, by),
    ensures
        threat(b, from, sq, by),
{
    let p = a.at(from)->0;
    assert(b.at(from) == Some(p));
    assert(path_clear(a, from, sq) ==> path_clear(b, from, sq)) by {
        if path_clear(a, from, sq) {
            assert forall|k: int| 1 <= k < reach(from, sq) implies b.is_empty(
                #[trigger] path_square(from, sq, k),
            ) by {
                assert(a.is_empty(path_square(from, sq, k)));
            }
        }
    }
    assert(basic_target(a, from, p, sq));
    assert(basic_target(b, from, p, sq));
}

/// The king square of a side depends on the pieces alone.
pub proof fn lemma_king_square_reads_pieces(
    a: Position,
    b: Position,
    color: Color,
    k: Coordinates,
)
    requires
        a.pieces == b.pieces,
        is_king_square(a, color, k),
    ensures
        is_king_square(b, color, k),
{
    assert(holds_king(b, k, color));
    assert forall|c: Coordinates| c.on_board() && #[trigger] holds_king(b, c, color) implies k.linear_index()
        <= c.linear_index() by {
        assert(holds_king(a, c, color));
    }
}

/// Whether a side is in check depends on the pieces alone: not on the side
/// to move, the castling rights, the en-passant target or the counters.
pub proof fn lemma_check_reads_pieces(a: Position, b: Position, color: Color)
    requires
        a.pieces == b.pieces,
    ensures
        in_check(a, color) == in_check(b, color),
{
    if in_check(a, color) {
        let k = choose|k: Coordinates| #[trigger] checked_on(a, color, k);
        let from = choose|from: Coordinates| #[trigger] threat(a, from, k, color.opposite());
        lemma_king_square_reads_pieces(a, b, color, k);
        lemma_threat_reads_pieces(a, b, from, k, color.opposite());
        assert(checked_on(b, color, k));
    }
    if in_check(b, color) {
        let k = choose|k: Coordinates| #[trigger] checked_on(b, color, k);
        let from = choose|from: Coordinates| #[trigger] threat(b, from, k, color.opposite());
        lemma_king_square_reads_pieces(b, a, color, k);
        lemma_threat_reads_pieces(b, a, from, k, color.opposite());
        assert(checked_on(a, color, k));
    }
}

impl Board {
    /// Carries whatever stands on `from` over to `to`: `from` is emptied,
    /// then `to` receives what `from` held. No rule is checked and nothing
    /// else changes.
    pub(crate) fn carry(&mut self, from: Coordinates, to: Coordinates)
        requires
            from.on_board(),
            to.on_board(),
        ensures
            final(self)@ == old(self)@.relocate(from, to),
    {
        let piece = self.get(from);
        self.set(from, None);
        self.set(to, piece);
    }

    /// Makes the move `m` without any check of the rules: the content of
    /// `m.from` is carried to `m.to`. Both squares must lie on the board.
    pub fn make_move_unchecked(&mut self, m: Move)
        requires
            m.from.on_board(),
            m.to.on_board(),
        ensures
            final(self)@ == old(self)@.relocate(m.from, m.to),
    {
        self.carry(m.from, m.to);
    }

    /// The position that `make_move_unchecked` would leave, on a copy.
    pub fn make_move_unchecked_new(&self, m: Move) -> (board: Board)
        requires
            m.from.on_board(),
            m.to.on_board(),
        ensures
            board@ == self@.relocate(m.from, m.to),
    {
        let mut copy = *self;
        copy.make_move_unchecked(m);
        copy
    }

    /// The square of the king of side `color`, or `None` when that side has
    /// no king. Of several kings of one side, the first is reported that is
    /// met when the squares are read rank by rank from a1.
    pub fn find_king(&self, color: Color) -> (king: Option<Coordinates>)
        ensures
            match king {
                Some(k) => is_king_square(self@, color, k),
                None => no_king(self@, color),
            },
    {
        let mut i: usize = 0;
        while i < 64
            invariant
                i <= 64,
                forall|c: Coordinates|
                    c.on_board() && c.linear_index() < i ==> !#[trigger] holds_king(
                        self@,
                        c,
                        color,
                    ),
            decreases 64 - i,
        {
            let c = Coordinates::from_index(i);
            match self.get(c) {
                Some(piece) => {
                    if piece.piece_type == PieceType::King && piece.color == color {
                        return Some(c);
                    }
                },
                None => {},
            }
            proof {
                assert forall|d: Coordinates|
                    d.on_board() && d.linear_index() < i + 1 implies !#[trigger] holds_king(
                    self@,
                    d,
                    color,
                ) by {
                    if d.linear_index() == i {
                        assert(d == c);
                    }
                }
            }
            i += 1;
        }
        None
    }

    /// Tells whether side `color` is in check: whether its king stands on a
    /// square that is a pseudo-legal target of a piece of the other side.
    /// A side without a king is not in check.
    pub fn is_king_in_check(&self, color: Color) -> (check: bool)
        ensures
            check == in_check(self@, color),
    {
        let king = match self.find_king(color) {
            Some(k) => k,
            None => {
                assert(forall|k: Coordinates| !#[trigger] checked_on(self@, color, k));
                return false;
            },
        };
        let opponent = color.reverse();
        let mut i: usize = 0;
        while i < 64
            invariant
                i <= 64,
                opponent == color.opposite(),
                is_king_square(self@, color, king),
                forall|c: Coordinates|
                    c.on_board() && c.linear_index() < i ==> !#[trigger] threat(
                        self@,
                        c,
                        king,
                        opponent,
                    ),
            decreases 64 - i,
        {
            let from = Coordinates::from_index(i);
            match self.get(from) {
                Some(piece) => {
                    if piece.color == opponent {
                        let moves = self.generate_piece_moves(from, piece);
                        if contains_square(&moves, king) {
                            assert(threat(self@, from, king, opponent));
                            assert(checked_on(self@, color, king));
                            return true;
                        }
                    }
                },
                None => {},
            }
            proof {
                assert forall|c: Coordinates|
                    c.on_board() && c.linear_index() < i + 1 implies !#[trigger] threat(
                    self@,
                    c,
                    king,
                    opponent,
                ) by {
                    if c.linear_index() == i {
                        assert(c == from);
                    }
                }
            }
            i += 1;
        }
        proof {
            assert forall|c: Coordinates| !#[trigger] threat(self@, c, king, opponent) by {
                if c.on_board() {
                    assert(c.linear_index() < 64);
                }
            }
            assert forall|k: Coordinates| !#[trigger] checked_on(self@, color, k) by {
                if is_king_square(self@, color, k) {
                    lemma_king_square_unique(self@, color, k, king);
                }
            }
        }
        false
    }

    /// Tells whether the side to move is in check.
    pub fn is_in_check(&self) -> (check: bool)
        ensures
            check == in_check(self@, self@.color_to_move),
    {
        self.is_king_in_check(self.color_to_move)
    }

    /// Tells whether side `color` would keep its king out of check if the
    /// content of `from` were carried to `to`. The trial is made on a copy
    /// whose side to move is flipped as after a move.
    pub fn leaves_king_safe(&self, from: Coordinates, to: Coordinates, color: Color) -> (safe:
        bool)
        requires
            from.on_board(),
            to.on_board(),
        ensures
            safe == !in_check(self@.relocate(from, to), color),
    {
        let mut trial = *self;
        trial.carry(from, to);
        let ghost carried = trial@;
        trial.color_to_move = trial.color_to_move.reverse();
        proof {
            assert(trial@.pieces =~= carried.pieces);
            lemma_check_reads_pieces(trial@, carried, color);
        }
        !trial.is_king_in_check(color)
    }

    /// The moves of side `color`, each once: for every piece of that side,
    /// its pseudo-legal targets; with `check_for_check` set, only those
    /// moves that are legal for `color`, which leave its king out of check.
    pub fn generate_moves(&self, color: Color, check_for_check: bool) -> (moves: Vec<Move>)
        ensures
            moves@.no_duplicates(),
            forall|m: Move| #[trigger]
                moves@.contains(m) <==> is_move_of(self@, color, check_for_check, m),
    {
        let mut moves: Vec<Move> = Vec::new();
        let mut i: usize = 0;
        while i < 64
            invariant
                i <= 64,
                moves@.no_duplicates(),
                forall|m: Move| #[trigger]
                    moves@.contains(m) <==> is_move_of(self@, color, check_for_check, m)
                        && m.from.linear_index() < i,
            decreases 64 - i,
        {
            let from = Coordinates::from_index(i);
            match self.get(from) {
                Some(piece) => {
                    if piece.color == color {
                        self.add_moves_from(&mut moves, from, piece, check_for_check);
                    }
                },
                None => {},
            }
            proof {
                assert forall|m: Move| #[trigger]
                    moves@.contains(m) <==> is_move_of(self@, color, check_for_check, m)
                        && m.from.linear_index() < i + 1 by {
                    if is_move_of(self@, color, check_for_check, m) && m.from.linear_index() == i {
                        assert(m.from == from);
                    }
                }
            }
            i += 1;
        }
        proof {
            assert forall|m: Move| #[trigger]
                moves@.contains(m) <==> is_move_of(self@, color, check_for_check, m) by {
                if is_move_of(self@, color, check_for_check, m) {
                    assert(m.from.linear_index() < 64);
                }
            }
        }
        moves
    }

    /// Appends the moves of `piece`, which stands on `from`: its
    /// pseudo-legal targets, or with `king_safe` set only those that leave
    /// the king of its side out of check.
    fn add_moves_from(
        &self,
        moves: &mut Vec<Move>,
        from: Coordinates,
        piece: Piece,
        king_safe: bool,
    )
        requires
            from.on_board(),
            self@.at(from) == Some(piece),
            old(moves)@.no_duplicates(),
            forall|m: Move| #[trigger] old(moves)@.contains(m) ==> m.from != from,
        ensures
            final(moves)@.no_duplicates(),
            forall|m: Move| #[trigger]
                final(moves)@.contains(m) <==> old(moves)@.contains(m) || (m.from == from
                    && is_move_of(self@, piece.color, king_safe, m)),
    {
        let targets = self.generate_piece_moves(from, piece);
        let mut j: usize = 0;
        while j < targets.len()
            invariant
                j <= targets.len(),
                from.on_board(),
                self@.at(from) == Some(piece),
                targets@.no_duplicates(),
                forall|to: Coordinates| #[trigger]
                    targets@.contains(to) <==> pseudo_target(self@, from, piece, to),
                moves@.no_duplicates(),
                forall|m: Move| #[trigger] old(moves)@.contains(m) ==> m.from != from,
                forall|m: Move| #[trigger]
                    moves@.contains(m) <==> old(moves)@.contains(m) || (m.from == from
                        && is_move_of(self@, piece.color, king_safe, m) && targets@.take(
                        j as int,
                    ).contains(m.to)),
            decreases targets.len() - j,
        {
            let to = targets[j];
            let ghost before = moves@;
            proof {
                assert(targets@.contains(to));
                lemma_target_on_board(self@, from, piece, to);
                lemma_take_next(targets@, j as int);
            }
            let keep = !king_safe || self.leaves_king_safe(from, to, piece.color);
            if keep {
                let m = Move::new(from, to, piece.piece_type);
                proof {
                    lemma_push_contains(moves@, m);
                }
                moves.push(m);
            }
            proof {
                assert forall|m: Move| #[trigger]
                    moves@.contains(m) <==> old(moves)@.contains(m) || (m.from == from
                        && is_move_of(self@, piece.color, king_safe, m) && targets@.take(
                        j as int + 1,
                    ).contains(m.to)) by {
                    if m.from == from && is_move_of(self@, piece.color, king_safe, m) && m.to
                        == to {
                        assert(m == Move { piece_type: piece.piece_type, from, to });
                    }
                }
            }
            j += 1;
        }
        proof {
            assert(targets@.take(targets@.len() as int) =~= targets@);
        }
    }

    /// The legal moves of the side to move, each once, as pairs of the
    /// square left and the square reached.
    pub fn generate_legal_moves(&self) -> (moves: Vec<(Coordinates, Coordinates)>)
        ensures
            moves@.no_duplicates(),
            forall|from: Coordinates, to: Coordinates| #[trigger]
                moves@.contains((from, to)) <==> legal(self@, from, to),
            moves@.len() == 0 <==> no_legal_move(self@, self@.color_to_move),
    {
        self.legal_moves_of(self.color_to_move)
    }

    /// The legal moves of side `color`, each once, as pairs of the square
    /// left and the square reached.
    pub fn legal_moves_of(&self, color: Color) -> (moves: Vec<(Coordinates, Coordinates)>)
        ensures
            moves@.no_duplicates(),
            forall|from: Coordinates, to: Coordinates| #[trigger]
                moves@.contains((from, to)) <==> legal_for(self@, color, from, to),
            moves@.len() == 0 <==> no_legal_move(self@, color),
    {
        let all = self.generate_moves(color, true);
        let mut moves: Vec<(Coordinates, Coordinates)> = Vec::new();
        let mut j: usize = 0;
        while j < all.len()
            invariant
                j <= all.len(),
                moves@.len() == j,
                forall|q: int| 0 <= q < j ==> #[trigger] moves@[q] == (all@[q].from, all@[q].to),
            decreases all.len() - j,
        {
            let m = all[j];
            moves.push((m.from(), m.to()));
            j += 1;
        }
        proof {
            assert forall|q: int, r: int|
                0 <= q < moves@.len() && 0 <= r < moves@.len() && q != r implies moves@[q]
                != moves@[r] by {
                assert(all@.contains(all@[q]));
                assert(all@.contains(all@[r]));
                if moves@[q] == moves@[r] {
                    assert(all@[q] == all@[r]);
                }
            }
            assert forall|from: Coordinates, to: Coordinates| #[trigger]
                moves@.contains((from, to)) <==> legal_for(self@, color, from, to) by {
                if moves@.contains((from, to)) {
                    let q = choose|q: int| 0 <= q < moves@.len() && moves@[q] == (from, to);
                    assert(all@.contains(all@[q]));
                }
                if legal_for(self@, color, from, to) {
                    let m = Move { piece_type: self@.at(from)->0.piece_type, from, to };
                    assert(is_move_of(self@, color, true, m));
                    assert(all@.contains(m));
                    let q = choose|q: int| 0 <= q < all@.len() && all@[q] == m;
                    assert(moves@[q] == (from, to));
                }
            }
            if moves@.len() > 0 {
                let first = moves@[0];
                assert(moves@.contains((first.0, first.1)));
                assert(legal_for(self@, color, first.0, first.1));
            } else {
                assert forall|from: Coordinates, to: Coordinates| !#[trigger] legal_for(
                    self@,
                    color,
                    from,
                    to,
                ) by {
                    assert(!moves@.contains((from, to)));
                }
            }
        }
        moves
    }

    /// Tells whether the side to move is checkmated: in check and without a
    /// legal move.
    pub fn is_checkmate(&self) -> (mate: bool)
        ensures
            mate == checkmate(self@),
    {
        self.is_in_check() && self.legal_moves_of(self.color_to_move).len() == 0
    }

    /// Tells whether the side to move is stalemated: not in check and
    /// without a legal move.
    pub fn is_stalemate(&self) -> (stale: bool)
        ensures
            stale == stalemate(self@),
    {
        !self.is_in_check() && self.legal_moves_of(self.color_to_move).len() == 0
    }
}

/// A pseudo-legal target lies on the board.
pub proof fn lemma_target_on_board(pos: Position, from: Coordinates, piece: Piece, to: Coordinates)
    requires
        pseudo_target(pos, from, piece, to),
    ensures
        to.on_board(),
        from.on_board(),
        from != to,
{
}

} // verus!
