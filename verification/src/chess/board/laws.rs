//! What holds of every position and every legal move.

use vstd::prelude::*;
use crate::chess::board::board::{Piece, Position};
use crate::chess::board::coordinates::Coordinates;
use crate::chess::board::executor::{
    applied, en_passant_victim, is_castling, is_en_passant, is_promotion, promotion_allowed,
    rook_castled,
};
use crate::chess::board::legality::{lemma_check_reads_pieces, lemma_target_on_board};
use crate::chess::board::rules::{
    basic_target, castle_kingside, castle_queenside, checked_on, checkmate, holds_king, in_check,
    is_king_square, legal, no_legal_move, path_clear, path_square, reach, square, stalemate,
    threat,
};
use crate::chess::piece::piece::{Color, PieceType};

verus! {

/// No position is both checkmate and stalemate, and in either the side to
/// move has no legal move.
pub proof fn law_mate_excludes_stalemate(pos: Position)
    ensures
        !(checkmate(pos) && stalemate(pos)),
        checkmate(pos) || stalemate(pos) ==> no_legal_move(pos, pos.color_to_move),
        checkmate(pos) || stalemate(pos) ==> forall|from: Coordinates, to: Coordinates|
            !legal(pos, from, to),
{
}

/// The en-passant capture from `from` to `to` opens a line to the capturing
/// side's own king: with the taken pawn removed and the capturing pawn
/// carried over, that side is in check.
pub open spec fn en_passant_uncovers_king(pos: Position, from: Coordinates, to: Coordinates) -> bool {
    &&& pos.at(from) matches Some(piece)
    &&& is_en_passant(pos, piece, from, to)
    &&& in_check(
        pos.with_square(en_passant_victim(piece.color, to), None).relocate(from, to),
        piece.color,
    )
}

/// Positions `a` and `b` have the same outline for side `color`: the same
/// squares are empty, the pieces of the other side are the same, and the
/// kings of `color` stand on the same squares.
pub open spec fn same_outline(a: Position, b: Position, color: Color) -> bool {
    forall|c: Coordinates|
        {
            &&& #[trigger] a.is_empty(c) == b.is_empty(c)
            &&& a.holds_color(c, color.opposite()) || b.holds_color(c, color.opposite()) ==> a.at(
                c,
            ) == b.at(c)
            &&& holds_king(a, c, color) == holds_king(b, c, color)
            &&& a.holds_color(c, color) == b.holds_color(c, color)
        }
}

/// A check in `a` is a check in `b` when both have the same outline.
proof fn lemma_check_one_way(a: Position, b: Position, color: Color)
    requires
        same_outline(a, b, color),
        in_check(a, color),
    ensures
        in_check(b, color),
{
    let k = choose|k: Coordinates| #[trigger] checked_on(a, color, k);
    let from = choose|from: Coordinates| #[trigger] threat(a, from, k, color.opposite());
    let p = a.at(from)->0;
    assert(a.is_empty(k) == b.is_empty(k));
    assert(a.is_empty(from) == b.is_empty(from));
    assert(holds_king(b, k, color));
    assert forall|c: Coordinates| c.on_board() && #[trigger] holds_king(b, c, color) implies k.linear_index()
        <= c.linear_index() by {
        assert(a.is_empty(c) == b.is_empty(c));
        assert(holds_king(a, c, color));
    }
    assert(is_king_square(b, color, k));
    assert(b.at(from) == Some(p));
    assert(path_clear(a, from, k) ==> path_clear(b, from, k)) by {
        if path_clear(a, from, k) {
            assert forall|j: int| 1 <= j < reach(from, k) implies b.is_empty(
                #[trigger] path_square(from, k, j),
            ) by {
                let s = path_square(from, k, j);
                assert(a.is_empty(s) == b.is_empty(s));
            }
        }
    }
    assert(basic_target(a, from, p, k));
    assert(basic_target(b, from, p, k));
    assert(threat(b, from, k, color.opposite()));
    assert(checked_on(b, color, k));
}

/// Whether side `color` is in check depends on the outline alone: on which
/// squares are empty, on the pieces of the other side and on where the
/// kings of `color` stand.
pub proof fn lemma_check_reads_outline(a: Position, b: Position, color: Color)
    requires
        same_outline(a, b, color),
    ensures
        in_check(a, color) == in_check(b, color),
{
    if in_check(a, color) {
        lemma_check_one_way(a, b, color);
    }
    if in_check(b, color) {
        assert(same_outline(b, a, color)) by {
            assert forall|c: Coordinates|
                {
                    &&& #[trigger] b.is_empty(c) == a.is_empty(c)
                    &&& b.holds_color(c, color.opposite()) || a.holds_color(c, color.opposite())
                        ==> b.at(c) == a.at(c)
                    &&& holds_king(b, c, color) == holds_king(a, c, color)
                    &&& b.holds_color(c, color) == a.holds_color(c, color)
                } by {
                assert(a.is_empty(c) == b.is_empty(c));
            }
        }
        lemma_check_one_way(b, a, color);
    }
}

/// A corner of the board.
pub open spec fn is_corner(c: Coordinates) -> bool {
    (c.x == 1 || c.x == 8) && (c.y == 1 || c.y == 8)
}

/// No corner lies strictly between two squares of the board that share a
/// line.
proof fn lemma_corner_not_between(from: Coordinates, to: Coordinates, k: int)
    requires
        from.on_board(),
        to.on_board(),
        from.x == to.x || from.y == to.y || (to.x - from.x == to.y - from.y) || (to.x - from.x
            == from.y - to.y),
        1 <= k < reach(from, to),
    ensures
        !is_corner(path_square(from, to, k)),
{
}

/// Moving a rook of side `color` from a corner to an empty square, as in
/// castling, gives the other side no new check.
proof fn lemma_rook_shift_gives_no_check(
    a: Position,
    b: Position,
    color: Color,
    corner: Coordinates,
    dest: Coordinates,
)
    requires
        is_corner(corner),
        dest.on_board(),
        dest != corner,
        a.at(corner) == Some(Piece { piece_type: PieceType::Rook, color }),
        a.is_empty(dest),
        b.pieces == a.pieces.remove(corner).insert(
            dest,
            Piece { piece_type: PieceType::Rook, color },
        ),
        in_check(b, color),
    ensures
        in_check(a, color),
{
    let k = choose|k: Coordinates| #[trigger] checked_on(b, color, k);
    let from = choose|from: Coordinates| #[trigger] threat(b, from, k, color.opposite());
    let p = b.at(from)->0;
    assert(k != dest && k != corner);
    assert(from != dest && from != corner);
    assert(holds_king(a, k, color));
    assert forall|c: Coordinates| c.on_board() && #[trigger] holds_king(a, c, color) implies k.linear_index()
        <= c.linear_index() by {
        assert(c != corner && c != dest);
        assert(holds_king(b, c, color));
    }
    assert(is_king_square(a, color, k));
    assert(a.at(from) == Some(p));
    assert(basic_target(b, from, p, k));
    assert(path_clear(b, from, k) && (p.piece_type == PieceType::Bishop || p.piece_type
        == PieceType::Rook || p.piece_type == PieceType::Queen) ==> path_clear(a, from, k)) by {
        if path_clear(b, from, k) && (p.piece_type == PieceType::Bishop || p.piece_type
            == PieceType::Rook || p.piece_type == PieceType::Queen) {
            assert forall|j: int| 1 <= j < reach(from, k) implies a.is_empty(
                #[trigger] path_square(from, k, j),
            ) by {
                let s = path_square(from, k, j);
                assert(b.is_empty(s));
                lemma_corner_not_between(from, k, j);
                assert(s != corner);
            }
        }
    }
    assert(basic_target(a, from, p, k));
    assert(threat(a, from, k, color.opposite()));
    assert(checked_on(a, color, k));
}

/// Every legal move leaves the mover's own king out of check, whatever a
/// promoting pawn becomes; the one exception is an en-passant capture that
/// opens a line to the mover's king by taking the pawn away.
pub proof fn law_legal_move_keeps_king_safe(
    pos: Position,
    from: Coordinates,
    to: Coordinates,
    promotion: PieceType,
)
    requires
        legal(pos, from, to),
        promotion_allowed(promotion),
        !en_passant_uncovers_king(pos, from, to),
    ensures
        !in_check(applied(pos, from, to, promotion), pos.color_to_move),
{
    let color = pos.color_to_move;
    let piece = pos.at(from)->0;
    let after = applied(pos, from, to, promotion);
    let trial = pos.relocate(from, to);
    lemma_target_on_board(pos, from, piece, to);
    // The pieces before a promoting pawn is exchanged.
    let base = if is_castling(piece, from, to) {
        rook_castled(pos, color, from, to).relocate(from, to)
    } else if is_en_passant(pos, piece, from, to) {
        pos.with_square(en_passant_victim(color, to), None).relocate(from, to)
    } else {
        trial
    };
    assert(!in_check(base, color)) by {
        if is_castling(piece, from, to) {
            assert(castle_kingside(pos, from, color, to) || castle_queenside(pos, from, color, to));
            let rank = color.back_rank();
            let corner = if to.x > from.x {
                square(8, rank)
            } else {
                square(1, rank)
            };
            let dest = if to.x > from.x {
                square(6, rank)
            } else {
                square(4, rank)
            };
            assert(base.pieces =~= trial.pieces.remove(corner).insert(
                dest,
                Piece { piece_type: PieceType::Rook, color },
            ));
            if in_check(base, color) {
                lemma_rook_shift_gives_no_check(trial, base, color, corner, dest);
            }
        }
    }
    if is_promotion(piece, to) {
        assert(after.pieces =~= base.pieces.insert(
            to,
            Piece { piece_type: promotion, color },
        ));
        assert(base.at(to) == Some(piece));
        assert(same_outline(base, after, color)) by {
            assert forall|c: Coordinates|
                {
                    &&& #[trigger] base.is_empty(c) == after.is_empty(c)
                    &&& base.holds_color(c, color.opposite()) || after.holds_color(
                        c,
                        color.opposite(),
                    ) ==> base.at(c) == after.at(c)
                    &&& holds_king(base, c, color) == holds_king(after, c, color)
                    &&& base.holds_color(c, color) == after.holds_color(c, color)
                } by {}
        }
        lemma_check_reads_outline(base, after, color);
    } else {
        assert(after.pieces =~= base.pieces);
        lemma_check_reads_pieces(after, base, color);
    }
}

} // verus!
