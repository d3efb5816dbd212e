//! The movement rules, stated over the model of a position.
//!
//! A *pseudo-legal* target is a square that a piece can reach by the way it
//! moves, whether or not the move leaves the mover's own king attacked. A
//! *legal* move is a pseudo-legal one after which the mover's king is not in
//! check.

use vstd::prelude::*;
use crate::chess::board::board::{Piece, Position};
use crate::chess::board::coordinates::{distance, Coordinates};
use crate::chess::piece::piece::{Color, PieceType};

verus! {

/// The square of file `x` and rank `y`.
pub open spec fn square(x: int, y: int) -> Coordinates {
    Coordinates { x: x as i8, y: y as i8 }
}

/// `k` steps in the direction of `d`: `k`, `-k` or `0` as `d` is positive,
/// negative or zero.
pub open spec fn toward(d: int, k: int) -> int {
    if d > 0 {
        k
    } else if d < 0 {
        -k
    } else {
        0
    }
}

/// The number of king steps from `from` to `to`.
pub open spec fn reach(from: Coordinates, to: Coordinates) -> int {
    let dx = distance(from.x as int, to.x as int);
    let dy = distance(from.y as int, to.y as int);
    if dx >= dy {
        dx
    } else {
        dy
    }
}

/// The `k`-th square on the way from `from` toward `to`.
pub open spec fn path_square(from: Coordinates, to: Coordinates, k: int) -> Coordinates {
    square(from.x + toward(to.x - from.x, k), from.y + toward(to.y - from.y, k))
}

/// Every square strictly between `from` and `to` is empty.
pub open spec fn path_clear(pos: Position, from: Coordinates, to: Coordinates) -> bool {
    forall|k: int| 1 <= k < reach(from, to) ==> pos.is_empty(#[trigger] path_square(from, to, k))
}

/// `to` differs from `from` and shares its file or its rank.
pub open spec fn on_straight_line(from: Coordinates, to: Coordinates) -> bool {
    from != to && (from.x == to.x || from.y == to.y)
}

/// `to` differs from `from` and lies on one of its diagonals.
pub open spec fn on_diagonal(from: Coordinates, to: Coordinates) -> bool {
    from != to && distance(from.x as int, to.x as int) == distance(from.y as int, to.y as int)
}

/// A piece of side `color` may end its move on `to`: the square lies on the
/// board and holds no piece of the same side.
pub open spec fn may_land(pos: Position, color: Color, to: Coordinates) -> bool {
    to.on_board() && !pos.holds_color(to, color)
}

/// One step straight ahead onto an empty square.
pub open spec fn pawn_push(pos: Position, from: Coordinates, color: Color, to: Coordinates) -> bool {
    to.x == from.x && to.y == from.y + color.forward() && pos.is_empty(to)
}

/// Two steps straight ahead from the pawn's starting rank, over an empty
/// square onto an empty square.
pub open spec fn pawn_double_push(
    pos: Position,
    from: Coordinates,
    color: Color,
    to: Coordinates,
) -> bool {
    &&& to.x == from.x
    &&& from.y == color.pawn_rank()
    &&& to.y == from.y + 2 * color.forward()
    &&& pos.is_empty(square(from.x as int, from.y + color.forward()))
    &&& pos.is_empty(to)
}

/// One step diagonally ahead, onto an enemy piece or onto the empty
/// en-passant target.
pub open spec fn pawn_capture(
    pos: Position,
    from: Coordinates,
    color: Color,
    to: Coordinates,
) -> bool {
    &&& distance(from.x as int, to.x as int) == 1
    &&& to.y == from.y + color.forward()
    &&& (pos.holds_color(to, color.opposite()) || (pos.is_empty(to) && pos.en_passant == Some(
        to,
    )))
}

/// The squares a pawn of side `color` on `from` can move to.
pub open spec fn pawn_target(
    pos: Position,
    from: Coordinates,
    color: Color,
    to: Coordinates,
) -> bool {
    to.on_board() && (pawn_push(pos, from, color, to) || pawn_double_push(pos, from, color, to)
        || pawn_capture(pos, from, color, to))
}

/// `to` is a knight's jump away from `from`.
pub open spec fn knight_jump(from: Coordinates, to: Coordinates) -> bool {
    let dx = distance(from.x as int, to.x as int);
    let dy = distance(from.y as int, to.y as int);
    (dx == 1 && dy == 2) || (dx == 2 && dy == 1)
}

/// `to` is one of the eight squares around `from`.
pub open spec fn king_step(from: Coordinates, to: Coordinates) -> bool {
    from != to && distance(from.x as int, to.x as int) <= 1 && distance(
        from.y as int,
        to.y as int,
    ) <= 1
}

/// `to` lies on a line of the allowed kind through `from`, with nothing in
/// between, and a piece of side `color` may land there.
pub open spec fn slide_target(
    pos: Position,
    from: Coordinates,
    color: Color,
    to: Coordinates,
    straight: bool,
    diagonal: bool,
) -> bool {
    &&& may_land(pos, color, to)
    &&& (straight && on_straight_line(from, to)) || (diagonal && on_diagonal(from, to))
    &&& path_clear(pos, from, to)
}

/// The targets of `piece` on `from` by its ordinary way of moving, castling
/// left aside.
pub open spec fn basic_target(
    pos: Position,
    from: Coordinates,
    piece: Piece,
    to: Coordinates,
) -> bool {
    match piece.piece_type {
        PieceType::Pawn => pawn_target(pos, from, piece.color, to),
        PieceType::Knight => may_land(pos, piece.color, to) && knight_jump(from, to),
        PieceType::Bishop => slide_target(pos, from, piece.color, to, false, true),
        PieceType::Rook => slide_target(pos, from, piece.color, to, true, false),
        PieceType::Queen => slide_target(pos, from, piece.color, to, true, true),
        PieceType::King => may_land(pos, piece.color, to) && king_step(from, to),
    }
}

/// The piece on `from` belongs to side `by` and bears on `sq`: a king bears
/// on its own square and the eight around it, every other piece on its
/// ordinary targets.
pub open spec fn attacker(pos: Position, from: Coordinates, sq: Coordinates, by: Color) -> bool {
    &&& from.on_board()
    &&& pos.at(from) matches Some(p)
    &&& p.color == by
    &&& if p.piece_type == PieceType::King {
        distance(from.x as int, sq.x as int) <= 1 && distance(from.y as int, sq.y as int) <= 1
    } else {
        basic_target(pos, from, p, sq)
    }
}

/// Some piece of side `by` bears on `sq`.
pub open spec fn attacked(pos: Position, sq: Coordinates, by: Color) -> bool {
    exists|from: Coordinates| #[trigger] attacker(pos, from, sq, by)
}

/// Castling on the king's side: the king of side `color` goes from the e-file
/// to the g-file of its back rank.
pub open spec fn castle_kingside(
    pos: Position,
    from: Coordinates,
    color: Color,
    to: Coordinates,
) -> bool {
    let rank = color.back_rank();
    &&& from == square(5, rank)
    &&& to == square(7, rank)
    &&& pos.castling.kingside(color)
    &&& pos.is_empty(square(6, rank))
    &&& pos.is_empty(square(7, rank))
    &&& pos.at(square(8, rank)) == Some(Piece { piece_type: PieceType::Rook, color })
    &&& !attacked(pos, square(5, rank), color.opposite())
    &&& !attacked(pos, square(6, rank), color.opposite())
    &&& !attacked(pos, square(7, rank), color.opposite())
}

/// Castling on the queen's side: the king of side `color` goes from the
/// e-file to the c-file of its back rank.
pub open spec fn castle_queenside(
    pos: Position,
    from: Coordinates,
    color: Color,
    to: Coordinates,
) -> bool {
    let rank = color.back_rank();
    &&& from == square(5, rank)
    &&& to == square(3, rank)
    &&& pos.castling.queenside(color)
    &&& pos.is_empty(square(4, rank))
    &&& pos.is_empty(square(3, rank))
    &&& pos.is_empty(square(2, rank))
    &&& pos.at(square(1, rank)) == Some(Piece { piece_type: PieceType::Rook, color })
    &&& !attacked(pos, square(5, rank), color.opposite())
    &&& !attacked(pos, square(4, rank), color.opposite())
    &&& !attacked(pos, square(3, rank), color.opposite())
}

/// `to` is a pseudo-legal target of `piece` standing on `from`.
pub open spec fn pseudo_target(
    pos: Position,
    from: Coordinates,
    piece: Piece,
    to: Coordinates,
) -> bool {
    &&& from.on_board()
    &&& {
        ||| basic_target(pos, from, piece, to)
        ||| piece.piece_type == PieceType::King && castle_kingside(pos, from, piece.color, to)
        ||| piece.piece_type == PieceType::King && castle_queenside(pos, from, piece.color, to)
    }
}

/// `piece`, taken to stand on `from`, may move to `to`: `to` is one of its
/// pseudo-legal targets and, with `king_safe` set, carrying the content of
/// `from` to `to` leaves the king of its side out of check.
pub open spec fn valid_move(
    pos: Position,
    from: Coordinates,
    piece: Piece,
    to: Coordinates,
    king_safe: bool,
) -> bool {
    pseudo_target(pos, from, piece, to) && (king_safe ==> !in_check(
        pos.relocate(from, to),
        piece.color,
    ))
}

/// Square `c` holds the king of side `color`.
pub open spec fn holds_king(pos: Position, c: Coordinates, color: Color) -> bool {
    pos.at(c) == Some(Piece { piece_type: PieceType::King, color })
}

/// Side `color` has no king on the board.
pub open spec fn no_king(pos: Position, color: Color) -> bool {
    forall|c: Coordinates| c.on_board() ==> !#[trigger] holds_king(pos, c, color)
}

/// `k` is the square of the king of side `color`: where several kings of
/// that side stand on the board, the one met first when the squares are
/// read rank by rank from a1.
pub open spec fn is_king_square(pos: Position, color: Color, k: Coordinates) -> bool {
    &&& k.on_board()
    &&& holds_king(pos, k, color)
    &&& forall|c: Coordinates|
        c.on_board() && #[trigger] holds_king(pos, c, color) ==> k.linear_index()
            <= c.linear_index()
}

/// The piece on `from` belongs to side `by` and has `sq` among its
/// pseudo-legal targets.
pub open spec fn threat(pos: Position, from: Coordinates, sq: Coordinates, by: Color) -> bool {
    &&& from.on_board()
    &&& pos.at(from) matches Some(p)
    &&& p.color == by
    &&& pseudo_target(pos, from, p, sq)
}

/// Some piece of side `by` has `sq` among its pseudo-legal targets.
pub open spec fn threatened(pos: Position, sq: Coordinates, by: Color) -> bool {
    exists|from: Coordinates| #[trigger] threat(pos, from, sq, by)
}

/// `k` is the king square of side `color` and the other side threatens it.
pub open spec fn checked_on(pos: Position, color: Color, k: Coordinates) -> bool {
    is_king_square(pos, color, k) && threatened(pos, k, color.opposite())
}

/// Side `color` is in check: its king stands on a square that the other
/// side threatens. A side without a king is not in check.
pub open spec fn in_check(pos: Position, color: Color) -> bool {
    exists|k: Coordinates| #[trigger] checked_on(pos, color, k)
}

/// Moving the piece on `from` to `to` is legal for side `color`: the piece
/// is of that side, `to` is one of its pseudo-legal targets, and with the
/// piece carried over the side's king is not in check.
pub open spec fn legal_for(pos: Position, color: Color, from: Coordinates, to: Coordinates) -> bool {
    &&& from.on_board()
    &&& pos.at(from) matches Some(p)
    &&& p.color == color
    &&& pseudo_target(pos, from, p, to)
    &&& !in_check(pos.relocate(from, to), color)
}

/// The move from `from` to `to` is legal for the side to move.
pub open spec fn legal(pos: Position, from: Coordinates, to: Coordinates) -> bool {
    legal_for(pos, pos.color_to_move, from, to)
}

/// Side `color` has no legal move.
pub open spec fn no_legal_move(pos: Position, color: Color) -> bool {
    forall|from: Coordinates, to: Coordinates| !#[trigger] legal_for(pos, color, from, to)
}

/// The side to move is checkmated: in check and without a legal move.
pub open spec fn checkmate(pos: Position) -> bool {
    in_check(pos, pos.color_to_move) && no_legal_move(pos, pos.color_to_move)
}

/// The side to move is stalemated: not in check and without a legal move.
pub open spec fn stalemate(pos: Position) -> bool {
    !in_check(pos, pos.color_to_move) && no_legal_move(pos, pos.color_to_move)
}

} // verus!
