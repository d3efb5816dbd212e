//! The move executor: what a legal move does to a position.

use vstd::prelude::*;
use crate::chess::board::board::{Board, Piece, Position};
use crate::chess::board::coordinates::{distance, Coordinates};
use crate::chess::board::legality::lemma_target_on_board;
use crate::chess::board::rules::{legal, square};
use crate::chess::error::ChessError;
use crate::chess::piece::piece::{CastlingRights, Color, PieceType};

verus! {

/// A king goes two files along its rank: the move is castling.
pub open spec fn is_castling(piece: Piece, from: Coordinates, to: Coordinates) -> bool {
    piece.piece_type == PieceType::King && from.y == to.y && distance(from.x as int, to.x as int)
        == 2
}

/// A pawn goes diagonally onto the empty en-passant target: the move
/// captures en passant.
pub open spec fn is_en_passant(pos: Position, piece: Piece, from: Coordinates, to: Coordinates) -> bool {
    &&& piece.piece_type == PieceType::Pawn
    &&& pos.en_passant == Some(to)
    &&& distance(from.x as int, to.x as int) == 1
    &&& distance(from.y as int, to.y as int) == 1
    &&& pos.is_empty(to)
}

/// A pawn reaches the back rank of the other side: the move promotes.
pub open spec fn is_promotion(piece: Piece, to: Coordinates) -> bool {
    piece.piece_type == PieceType::Pawn && to.y == piece.color.opposite().back_rank()
}

/// A pawn advances by two ranks.
pub open spec fn is_double_step(piece: Piece, from: Coordinates, to: Coordinates) -> bool {
    piece.piece_type == PieceType::Pawn && distance(from.y as int, to.y as int) == 2
}

/// A pawn may become a queen, a rook, a bishop or a knight.
pub open spec fn promotion_allowed(kind: PieceType) -> bool {
    kind != PieceType::King && kind != PieceType::Pawn
}

/// The pieces after the rook's part of castling: the corner toward which
/// the king goes is emptied and a rook of the king's side is put on the
/// f-file (king's side) or the d-file (queen's side) of the king's rank.
pub open spec fn rook_castled(pos: Position, color: Color, from: Coordinates, to: Coordinates) -> Position {
    let rook = Some(Piece { piece_type: PieceType::Rook, color });
    if to.x > from.x {
        pos.with_square(square(8, from.y as int), None).with_square(square(6, from.y as int), rook)
    } else {
        pos.with_square(square(1, from.y as int), None).with_square(square(4, from.y as int), rook)
    }
}

/// The castling rights after `piece` has left `from`: a king's move,
/// castling among them, withdraws both rights of its side; a rook that
/// leaves the corner where it started withdraws the right that belongs to
/// that corner.
pub open spec fn rights_after(rights: CastlingRights, piece: Piece, from: Coordinates) -> CastlingRights {
    if piece.piece_type == PieceType::King {
        rights.without(piece.color)
    } else if piece.piece_type == PieceType::Rook && from.y == piece.color.back_rank() && from.x
        == 1 {
        rights.without_queenside(piece.color)
    } else if piece.piece_type == PieceType::Rook && from.y == piece.color.back_rank() && from.x
        == 8 {
        rights.without_kingside(piece.color)
    } else {
        rights
    }
}

/// The square of the pawn that an en-passant capture onto `to` removes: on
/// the file of `to`, one rank behind it as the capturing side sees it.
pub open spec fn en_passant_victim(color: Color, to: Coordinates) -> Coordinates {
    square(to.x as int, to.y - color.forward())
}

/// The move takes a piece: it ends on an occupied square or captures en
/// passant.
pub open spec fn is_capture(pos: Position, piece: Piece, from: Coordinates, to: Coordinates) -> bool {
    !pos.is_empty(to) || is_en_passant(pos, piece, from, to)
}

/// A counter raised by one, kept at the largest value once it is reached.
pub open spec fn bumped(n: u32) -> u32 {
    if n < u32::MAX {
        (n + 1) as u32
    } else {
        n
    }
}

/// The pieces after the piece on `from` has moved to `to`, in this order:
/// the rook's part of castling; the removal of the pawn taken en passant;
/// the carrying of the piece; the exchange of a promoting pawn for a piece
/// of kind `promotion`.
pub open spec fn pieces_after(
    pos: Position,
    piece: Piece,
    from: Coordinates,
    to: Coordinates,
    promotion: PieceType,
) -> Position {
    let rooked = if is_castling(piece, from, to) {
        rook_castled(pos, piece.color, from, to)
    } else {
        pos
    };
    let taken = if is_en_passant(pos, piece, from, to) {
        rooked.with_square(en_passant_victim(piece.color, to), None)
    } else {
        rooked
    };
    let carried = taken.with_square(from, None).with_square(to, Some(piece));
    if is_promotion(piece, to) {
        carried.with_square(to, Some(Piece { piece_type: promotion, color: piece.color }))
    } else {
        carried
    }
}

/// The position after the piece on `from` has moved to `to`, a promoting
/// pawn becoming a piece of kind `promotion`.
///
/// Besides the pieces, the castling rights follow `rights_after`; the
/// en-passant target is the square that a pawn's double step passed over,
/// and none after any other move; the side to move is flipped; the halfmove
/// clock restarts at 0 on a pawn move or a capture and is raised by one
/// otherwise; the fullmove number is raised by one after a move of Black.
pub open spec fn applied(
    pos: Position,
    from: Coordinates,
    to: Coordinates,
    promotion: PieceType,
) -> Position
    recommends
        pos.at(from) is Some,
{
    let piece = pos.at(from)->0;
    Position {
        pieces: pieces_after(pos, piece, from, to, promotion).pieces,
        color_to_move: pos.color_to_move.opposite(),
        castling: rights_after(pos.castling, piece, from),
        en_passant: if is_double_step(piece, from, to) {
            Some(square(from.x as int, (from.y + to.y) / 2))
        } else {
            None
        },
        halfmove_clock: if piece.piece_type == PieceType::Pawn || is_capture(pos, piece, from, to) {
            0
        } else {
            bumped(pos.halfmove_clock)
        },
        fullmove_number: if pos.color_to_move == Color::Black {
            bumped(pos.fullmove_number)
        } else {
            pos.fullmove_number
        },
    }
}

/// The kind that a promoting pawn becomes: the kind asked for, or a queen
/// when none is asked for.
pub open spec fn promotion_choice(requested: Option<PieceType>) -> PieceType {
    match requested {
        Some(kind) => kind,
        None => PieceType::Queen,
    }
}

/// The move from `from` to `to` is legal, promotes a pawn, and the kind
/// asked for is a king or a pawn.
pub open spec fn bad_promotion(
    pos: Position,
    from: Coordinates,
    to: Coordinates,
    requested: Option<PieceType>,
) -> bool {
    &&& legal(pos, from, to)
    &&& is_promotion(pos.at(from)->0, to)
    &&& !promotion_allowed(promotion_choice(requested))
}

/// Tells whether the pair `(from, to)` is among `moves`.
pub fn contains_move(moves: &Vec<(Coordinates, Coordinates)>, from: Coordinates, to: Coordinates) -> (found:
    bool)
    ensures
        found == moves@.contains((from, to)),
{
    let mut i: usize = 0;
    while i < moves.len()
        invariant
            i <= moves.len(),
            forall|j: int| 0 <= j < i ==> moves@[j] != (from, to),
        decreases moves.len() - i,
    {
        if moves[i].0 == from && moves[i].1 == to {
            return true;
        }
        i += 1;
    }
    false
}

/// Raises a counter by one unless it has reached the largest value.
fn bump(n: u32) -> (m: u32)
    ensures
        m == bumped(n),
{
    if n < u32::MAX {
        n + 1
    } else {
        n
    }
}

impl Board {
    /// Makes the move from `from` to `to` for the side to move; a pawn that
    /// reaches the last rank becomes a queen.
    ///
    /// The move is refused with `IllegalMove`, and the position left as it
    /// was, unless it is legal. Otherwise the position becomes
    /// `applied(.., Queen)`.
    pub fn apply_move(&mut self, from: Coordinates, to: Coordinates) -> (done: Result<
        (),
        ChessError,
    >)
        ensures
            legal(old(self)@, from, to) ==> done == Ok::<(), ChessError>(()) && final(self)@
                == applied(old(self)@, from, to, PieceType::Queen),
            !legal(old(self)@, from, to) ==> done == Err::<(), ChessError>(
                ChessError::IllegalMove,
            ) && *final(self) == *old(self),
    {
        self.apply_move_with_promotion(from, to, None)
    }

    /// Makes the move from `from` to `to` for the side to move; a pawn that
    /// reaches the last rank becomes a piece of the kind `promotion`, or a
    /// queen when `promotion` is `None`.
    ///
    /// The move is refused with `IllegalMove` unless it is legal, and with
    /// `InvalidPromotion` if it is legal, promotes a pawn and a king or a
    /// pawn is asked for; a refused move leaves the position as it was.
    /// Otherwise the position becomes `applied(..)`. Where the move does
    /// not promote, `promotion` is not looked at.
    pub fn apply_move_with_promotion(
        &mut self,
        from: Coordinates,
        to: Coordinates,
        promotion: Option<PieceType>,
    ) -> (done: Result<(), ChessError>)
        ensures
            !legal(old(self)@, from, to) ==> done == Err::<(), ChessError>(
                ChessError::IllegalMove,
            ) && *final(self) == *old(self),
            bad_promotion(old(self)@, from, to, promotion) ==> done == Err::<(), ChessError>(
                ChessError::InvalidPromotion,
            ) && *final(self) == *old(self),
            legal(old(self)@, from, to) && !bad_promotion(old(self)@, from, to, promotion)
                ==> done == Ok::<(), ChessError>(()) && final(self)@ == applied(
                old(self)@,
                from,
                to,
                promotion_choice(promotion),
            ),
    {
        let legal_moves = self.generate_legal_moves();
        if !contains_move(&legal_moves, from, to) {
            return Err(ChessError::IllegalMove);
        }
        let ghost pos = self@;
        let piece = match self.get_checked(from) {
            Some(p) => p,
            None => {
                return Err(ChessError::IllegalMove);
            },
        };
        proof {
            lemma_target_on_board(pos, from, piece, to);
        }
        let kind = match promotion {
            Some(k) => k,
            None => PieceType::Queen,
        };
        let last_rank: i8 = match piece.color {
            Color::White => 8,
            Color::Black => 1,
        };
        let promotes = piece.piece_type == PieceType::Pawn && to.y == last_rank;
        if promotes && (kind == PieceType::King || kind == PieceType::Pawn) {
            return Err(ChessError::InvalidPromotion);
        }
        let dx: i16 = Coordinates::gap(from.x, to.x);
        let dy: i16 = Coordinates::gap(from.y, to.y);
        let capture_on_target = self.get(to).is_some();

        // Castling: the rook's part. Any move of the king: both rights of
        // its side.
        if piece.piece_type == PieceType::King {
            if from.y == to.y && dx == 2 {
                let rook = Some(Piece { piece_type: PieceType::Rook, color: piece.color });
                if to.x > from.x {
                    self.set(Coordinates { x: 8, y: from.y }, None);
                    self.set(Coordinates { x: 6, y: from.y }, rook);
                } else {
                    self.set(Coordinates { x: 1, y: from.y }, None);
                    self.set(Coordinates { x: 4, y: from.y }, rook);
                }
            }
            match piece.color {
                Color::White => {
                    self.castling_rights[0] = false;
                    self.castling_rights[1] = false;
                },
                Color::Black => {
                    self.castling_rights[2] = false;
                    self.castling_rights[3] = false;
                },
            }
        } else if piece.piece_type == PieceType::Rook {
            // A rook leaves its corner: the right of that corner.
            match piece.color {
                Color::White => {
                    if from.y == 1 && from.x == 1 {
                        self.castling_rights[1] = false;
                    } else if from.y == 1 && from.x == 8 {
                        self.castling_rights[0] = false;
                    }
                },
                Color::Black => {
                    if from.y == 8 && from.x == 1 {
                        self.castling_rights[3] = false;
                    } else if from.y == 8 && from.x == 8 {
                        self.castling_rights[2] = false;
                    }
                },
            }
        }
        // En passant: the pawn that is taken.
        let en_passant = match self.en_passant {
            Some(ep) => piece.piece_type == PieceType::Pawn && ep == to && dx == 1 && dy == 1
                && !capture_on_target,
            None => false,
        };
        if en_passant {
            let victim_y: i8 = match piece.color {
                Color::White => to.y - 1,
                Color::Black => to.y + 1,
            };
            self.set(Coordinates { x: to.x, y: victim_y }, None);
        }
        // The piece itself.
        self.set(from, None);
        self.set(to, Some(piece));
        // Promotion.
        if promotes {
            self.set(to, Some(Piece { piece_type: kind, color: piece.color }));
        }
        // The en-passant target, the side to move and the counters.
        if piece.piece_type == PieceType::Pawn && dy == 2 {
            self.en_passant = Some(Coordinates { x: from.x, y: (from.y + to.y) / 2 });
        } else {
            self.en_passant = None;
        }
        let mover = self.color_to_move;
        self.color_to_move = mover.reverse();
        if piece.piece_type == PieceType::Pawn || capture_on_target || en_passant {
            self.halfmove_clock = 0;
        } else {
            self.halfmove_clock = bump(self.halfmove_clock);
        }
        match mover {
            Color::Black => {
                self.fullmove_number = bump(self.fullmove_number);
            },
            Color::White => {},
        }
        proof {
            let goal = applied(pos, from, to, kind);
            assert(self@.pieces =~= goal.pieces);
            assert(self@.castling == goal.castling);
            assert(self@.en_passant == goal.en_passant);
        }
        Ok(())
    }

    /// The content of the square `c`, and `None` for a square off the
    /// board.
    pub(crate) fn get_checked(&self, c: Coordinates) -> (piece: Option<Piece>)
        ensures
            c.on_board() ==> piece == self@.at(c),
            !c.on_board() ==> piece is None,
    {
        if c.is_valid() {
            self.get(c)
        } else {
            None
        }
    }
}

} // verus!
