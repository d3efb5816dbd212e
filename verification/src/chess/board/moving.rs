//! Pieces handled one by one on the board: putting, taking and moving a
//! located piece.

use vstd::prelude::*;
use crate::chess::board::board::{empty_position, Board, Piece, Position};
use crate::chess::board::coordinates::Coordinates;
use crate::chess::board::legality::lemma_target_on_board;
use crate::chess::board::movegen::contains_square;
use crate::chess::board::notation::Notation;
use crate::chess::board::rules::pseudo_target;
use crate::chess::error::ChessError;
use crate::chess::piece::piece::{CastlingRights, Color, PieceType};
use crate::chess::piece::piece_enum::ChessPieceEnum;

verus! {

/// The outcome `done` and the position `after` of moving, by the piece's
/// way of moving alone, what stands on `from` of `before` to `to`.
///
/// A square `from` off the board is `OutOfBounds`; an empty `from`, or a
/// `to` that is no pseudo-legal target of the piece on `from`, is
/// `IllegalMove`; in both cases the position stays. Otherwise the piece is
/// carried over. Neither the side to move nor the king's safety is looked
/// at, and nothing but the two squares changes.
pub open spec fn moved_by_rule(
    before: Position,
    from: Coordinates,
    to: Coordinates,
    done: Result<(), ChessError>,
    after: Position,
) -> bool {
    if !from.on_board() {
        done == Err::<(), ChessError>(ChessError::OutOfBounds) && after == before
    } else if before.at(from) is Some && pseudo_target(before, from, before.at(from)->0, to) {
        done == Ok::<(), ChessError>(()) && after == before.relocate(from, to)
    } else {
        done == Err::<(), ChessError>(ChessError::IllegalMove) && after == before
    }
}

/// The located piece that stands on the square `c`, if one stands there.
pub open spec fn located_at(pos: Position, c: Coordinates) -> Option<ChessPieceEnum> {
    match pos.at(c) {
        Some(piece) => Some(ChessPieceEnum::located(piece, c)),
        None => None,
    }
}

/// The position after what stands on `source` has been forced over to
/// `destination`; with nothing on `source` the position stays.
pub open spec fn forced(pos: Position, source: Coordinates, destination: Coordinates) -> Position {
    if pos.at(source) is Some {
        pos.relocate(source, destination)
    } else {
        pos
    }
}

/// A piece of kind `kind` and side `color`.
pub open spec fn man(kind: PieceType, color: Color) -> Piece {
    Piece { piece_type: kind, color }
}

/// The kind of piece that starts on file `x` of the back rank.
pub open spec fn back_rank_kind(x: int) -> PieceType {
    if x == 1 || x == 8 {
        PieceType::Rook
    } else if x == 2 || x == 7 {
        PieceType::Knight
    } else if x == 3 || x == 6 {
        PieceType::Bishop
    } else if x == 4 {
        PieceType::Queen
    } else {
        PieceType::King
    }
}

/// What stands on the square `c` at the start of a game.
pub open spec fn starting_piece(c: Coordinates) -> Option<Piece> {
    if !c.on_board() {
        None
    } else if c.y == 1 {
        Some(man(back_rank_kind(c.x as int), Color::White))
    } else if c.y == 2 {
        Some(man(PieceType::Pawn, Color::White))
    } else if c.y == 7 {
        Some(man(PieceType::Pawn, Color::Black))
    } else if c.y == 8 {
        Some(man(back_rank_kind(c.x as int), Color::Black))
    } else {
        None
    }
}

/// The position at the start of a game: the thirty-two pieces on their
/// squares, White to move, all castling rights, no en-passant target,
/// halfmove clock 0 and fullmove number 1.
pub open spec fn is_starting_position(pos: Position) -> bool {
    &&& forall|c: Coordinates| #[trigger] pos.at(c) == starting_piece(c)
    &&& pos.color_to_move == Color::White
    &&& pos.castling == (CastlingRights {
        white_kingside: true,
        white_queenside: true,
        black_kingside: true,
        black_queenside: true,
    })
    &&& pos.en_passant is None
    &&& pos.halfmove_clock == 0
    &&& pos.fullmove_number == 1
}

impl Board {
    /// An empty board of eight ranks and eight files, as `Board::new`
    /// gives it.
    pub fn new_two_dimensional() -> (board: Board)
        ensures
            board@ == empty_position(),
    {
        Board::new()
    }

    /// The board at the start of a game.
    pub fn new_two_dimensional_starting_position() -> (board: Board)
        ensures
            is_starting_position(board@),
    {
        let mut board = Board::new();
        let mut x: i8 = 1;
        while x <= 8
            invariant
                1 <= x <= 9,
                forall|c: Coordinates|
                    c.x < x ==> #[trigger] board@.at(c) == starting_piece(c),
                forall|c: Coordinates| c.x >= x ==> #[trigger] board@.at(c) is None,
                board@.color_to_move == Color::White,
                board@.castling == (CastlingRights {
                    white_kingside: true,
                    white_queenside: true,
                    black_kingside: true,
                    black_queenside: true,
                }),
                board@.en_passant is None,
                board@.halfmove_clock == 0,
                board@.fullmove_number == 1,
            decreases 9 - x,
        {
            let ghost before = board@;
            let kind = if x == 1 || x == 8 {
                PieceType::Rook
            } else if x == 2 || x == 7 {
                PieceType::Knight
            } else if x == 3 || x == 6 {
                PieceType::Bishop
            } else if x == 4 {
                PieceType::Queen
            } else {
                PieceType::King
            };
            board.set(
                Coordinates { x, y: 1 },
                Some(Piece { piece_type: kind, color: Color::White }),
            );
            board.set(
                Coordinates { x, y: 2 },
                Some(Piece { piece_type: PieceType::Pawn, color: Color::White }),
            );
            board.set(
                Coordinates { x, y: 7 },
                Some(Piece { piece_type: PieceType::Pawn, color: Color::Black }),
            );
            board.set(
                Coordinates { x, y: 8 },
                Some(Piece { piece_type: kind, color: Color::Black }),
            );
            proof {
                assert(kind == back_rank_kind(x as int));
                assert forall|c: Coordinates| c.x < x + 1 implies #[trigger] board@.at(c)
                    == starting_piece(c) by {
                    if c.x < x {
                        assert(before.at(c) == starting_piece(c));
                    } else {
                        assert(before.at(c) is None);
                    }
                }
                assert forall|c: Coordinates| c.x >= x + 1 implies #[trigger] board@.at(
                    c,
                ) is None by {
                    assert(before.at(c) is None);
                }
            }
            x = x + 1;
        }
        proof {
            assert forall|c: Coordinates| #[trigger] board@.at(c) == starting_piece(c) by {
                if c.x >= 9 {
                    assert(board@.at(c) is None);
                }
            }
        }
        board
    }

    /// Puts `piece` on the on-board square `coordinates`: its kind and its
    /// side are stored there, whatever square the piece takes itself to
    /// stand on.
    pub fn set_piece(&mut self, coordinates: Coordinates, piece: ChessPieceEnum)
        requires
            coordinates.on_board(),
        ensures
            final(self)@ == old(self)@.with_square(coordinates, Some(piece.piece())),
    {
        let stored = Piece { piece_type: piece.piece_type(), color: piece.color() };
        self.set(coordinates, Some(stored));
    }

    /// The located piece on the on-board square `coordinates`, if one
    /// stands there.
    pub fn get_piece(&self, coordinates: Coordinates) -> (piece: Option<ChessPieceEnum>)
        requires
            coordinates.on_board(),
        ensures
            piece == located_at(self@, coordinates),
    {
        match self.get(coordinates) {
            Some(piece) => Some(ChessPieceEnum::locate(piece, coordinates)),
            None => None,
        }
    }

    /// Takes what stands on the on-board square `coordinates` off the
    /// board and returns it.
    pub fn remove_piece(&mut self, coordinates: Coordinates) -> (piece: Option<ChessPieceEnum>)
        requires
            coordinates.on_board(),
        ensures
            piece == located_at(old(self)@, coordinates),
            final(self)@ == old(self)@.with_square(coordinates, None),
    {
        let piece = self.get_piece(coordinates);
        self.set(coordinates, None);
        piece
    }

    /// Forces what stands on `source` over to `destination`, whatever the
    /// rules say; with nothing on `source` the board stays. Both squares
    /// must lie on the board.
    pub fn move_piece(&mut self, source: Coordinates, destination: Coordinates)
        requires
            source.on_board(),
            destination.on_board(),
        ensures
            final(self)@ == forced(old(self)@, source, destination),
    {
        match self.remove_piece(source) {
            Some(piece) => {
                self.set_piece(destination, piece);
            },
            None => {
                assert(self@.pieces =~= old(self)@.pieces);
            },
        }
    }

    /// Moves what stands on `from` to `to` if the piece can go there by
    /// its way of moving; see `moved_by_rule`.
    pub fn move_piece_with_coordinates(&mut self, from: Coordinates, to: Coordinates) -> (done:
        Result<(), ChessError>)
        ensures
            moved_by_rule(old(self)@, from, to, done, final(self)@),
    {
        if !from.is_valid() {
            return Err(ChessError::OutOfBounds);
        }
        let piece = match self.get(from) {
            Some(p) => p,
            None => {
                return Err(ChessError::IllegalMove);
            },
        };
        let targets = self.generate_piece_moves(from, piece);
        if !contains_square(&targets, to) {
            return Err(ChessError::IllegalMove);
        }
        proof {
            lemma_target_on_board(self@, from, piece, to);
        }
        self.carry(from, to);
        Ok(())
    }

    /// Moves what stands on the square named `from` to the square named
    /// `to`, as `move_piece_with_coordinates` does. Both names must denote
    /// squares of the board.
    pub fn move_piece_with_notation(&mut self, from: Notation, to: Notation) -> (done: Result<
        (),
        ChessError,
    >)
        requires
            from.names_square(),
            to.names_square(),
        ensures
            moved_by_rule(old(self)@, from.square(), to.square(), done, final(self)@),
    {
        let from_coordinates = match from.to_coordinates() {
            Ok(c) => c,
            Err(e) => {
                return Err(e);
            },
        };
        let to_coordinates = match to.to_coordinates() {
            Ok(c) => c,
            Err(e) => {
                return Err(e);
            },
        };
        self.move_piece_with_coordinates(from_coordinates, to_coordinates)
    }

    /// Returns the side to move.
    pub fn get_color_to_move(&self) -> (side: Color)
        ensures
            side == self@.color_to_move,
    {
        self.color_to_move
    }

    /// Hands the move to the other side; nothing else changes.
    pub fn change_color_to_move(&mut self)
        ensures
            final(self)@ == (Position {
                color_to_move: old(self)@.color_to_move.opposite(),
                ..old(self)@
            }),
    {
        self.color_to_move = self.color_to_move.reverse();
        assert(self@.pieces =~= old(self)@.pieces);
    }
}

} // verus!
