//! The position: an 8×8 grid of pieces with the side to move, the castling
//! rights, the en-passant target and the two move counters.

use vstd::prelude::*;
use crate::chess::board::coordinates::Coordinates;
use crate::chess::piece::piece::{CastlingRights, Color, PieceType};

verus! {

/// A piece: its kind and its side.
#[derive(Debug, Clone, Copy, PartialEq, Eq, Structural)]
pub struct Piece {
    pub piece_type: PieceType,
    pub color: Color,
}

/// The letter that stands for a piece of kind `kind`, in lower case.
pub open spec fn kind_letter(kind: PieceType) -> char {
    match kind {
        PieceType::Pawn => 'p',
        PieceType::Knight => 'n',
        PieceType::Bishop => 'b',
        PieceType::Rook => 'r',
        PieceType::Queen => 'q',
        PieceType::King => 'k',
    }
}

/// The letter that stands for `piece`: `PNBRQK` for White, `pnbrqk` for
/// Black.
pub open spec fn letter_of(piece: Piece) -> char {
    match piece.color {
        Color::White => (kind_letter(piece.piece_type) as int - 'a' as int + 'A' as int) as char,
        Color::Black => kind_letter(piece.piece_type),
    }
}

/// The piece that the letter `c` stands for, if it stands for one.
pub open spec fn piece_of_letter(c: char) -> Option<Piece> {
    if c == 'P' {
        Some(Piece { piece_type: PieceType::Pawn, color: Color::White })
    } else if c == 'N' {
        Some(Piece { piece_type: PieceType::Knight, color: Color::White })
    } else if c == 'B' {
        Some(Piece { piece_type: PieceType::Bishop, color: Color::White })
    } else if c == 'R' {
        Some(Piece { piece_type: PieceType::Rook, color: Color::White })
    } else if c == 'Q' {
        Some(Piece { piece_type: PieceType::Queen, color: Color::White })
    } else if c == 'K' {
        Some(Piece { piece_type: PieceType::King, color: Color::White })
    } else if c == 'p' {
        Some(Piece { piece_type: PieceType::Pawn, color: Color::Black })
    } else if c == 'n' {
        Some(Piece { piece_type: PieceType::Knight, color: Color::Black })
    } else if c == 'b' {
        Some(Piece { piece_type: PieceType::Bishop, color: Color::Black })
    } else if c == 'r' {
        Some(Piece { piece_type: PieceType::Rook, color: Color::Black })
    } else if c == 'q' {
        Some(Piece { piece_type: PieceType::Queen, color: Color::Black })
    } else if c == 'k' {
        Some(Piece { piece_type: PieceType::King, color: Color::Black })
    } else {
        None
    }
}

/// Every piece is the piece that its letter stands for.
pub proof fn law_letters_name_pieces(piece: Piece)
    ensures
        piece_of_letter(letter_of(piece)) == Some(piece),
{
}

impl Piece {
    /// The letter that stands for the piece: `PNBRQK` for White, `pnbrqk`
    /// for Black.
    pub fn symbol(&self) -> (c: char)
        ensures
            c == letter_of(*self),
    {
        match (self.piece_type, self.color) {
            (PieceType::Pawn, Color::White) => 'P',
            (PieceType::Knight, Color::White) => 'N',
            (PieceType::Bishop, Color::White) => 'B',
            (PieceType::Rook, Color::White) => 'R',
            (PieceType::Queen, Color::White) => 'Q',
            (PieceType::King, Color::White) => 'K',
            (PieceType::Pawn, Color::Black) => 'p',
            (PieceType::Knight, Color::Black) => 'n',
            (PieceType::Bishop, Color::Black) => 'b',
            (PieceType::Rook, Color::Black) => 'r',
            (PieceType::Queen, Color::Black) => 'q',
            (PieceType::King, Color::Black) => 'k',
        }
    }

    /// The piece that the letter `c` stands for, or `None` if `c` is not
    /// one of `PNBRQKpnbrqk`.
    pub fn from_symbol(c: char) -> (piece: Option<Piece>)
        ensures
            piece == piece_of_letter(c),
    {
        let (piece_type, color) = match c {
            'P' => (PieceType::Pawn, Color::White),
            'N' => (PieceType::Knight, Color::White),
            'B' => (PieceType::Bishop, Color::White),
            'R' => (PieceType::Rook, Color::White),
            'Q' => (PieceType::Queen, Color::White),
            'K' => (PieceType::King, Color::White),
            'p' => (PieceType::Pawn, Color::Black),
            'n' => (PieceType::Knight, Color::Black),
            'b' => (PieceType::Bishop, Color::Black),
            'r' => (PieceType::Rook, Color::Black),
            'q' => (PieceType::Queen, Color::Black),
            'k' => (PieceType::King, Color::Black),
            _ => {
                return None;
            },
        };
        Some(Piece { piece_type, color })
    }
}

/// The mathematical model of a position.
///
/// `pieces` maps each occupied square to the piece on it; a square outside
/// its domain is empty.
pub struct Position {
    pub pieces: Map<Coordinates, Piece>,
    pub color_to_move: Color,
    pub castling: CastlingRights,
    pub en_passant: Option<Coordinates>,
    pub halfmove_clock: u32,
    pub fullmove_number: u32,
}

impl Position {
    /// The piece on square `c`, if there is one.
    pub open spec fn at(self, c: Coordinates) -> Option<Piece> {
        if self.pieces.dom().contains(c) {
            Some(self.pieces[c])
        } else {
            None
        }
    }

    /// Whether square `c` holds no piece.
    pub open spec fn is_empty(self, c: Coordinates) -> bool {
        !self.pieces.dom().contains(c)
    }

    /// Whether square `c` holds a piece of side `color`.
    pub open spec fn holds_color(self, c: Coordinates, color: Color) -> bool {
        self.pieces.dom().contains(c) && self.pieces[c].color == color
    }

    /// The position with square `c` set to `piece`, or emptied when `piece`
    /// is `None`.
    pub open spec fn with_square(self, c: Coordinates, piece: Option<Piece>) -> Position {
        Position {
            pieces: match piece {
                Some(p) => self.pieces.insert(c, p),
                None => self.pieces.remove(c),
            },
            ..self
        }
    }

    /// The position after whatever stands on `from` has been carried to
    /// `to`: `from` is emptied first, then `to` receives what `from` held.
    /// Nothing else changes.
    pub open spec fn relocate(self, from: Coordinates, to: Coordinates) -> Position {
        self.with_square(from, None).with_square(to, self.at(from))
    }

    /// Every occupied square lies on the board.
    pub open spec fn well_formed(self) -> bool {
        forall|c: Coordinates| self.pieces.dom().contains(c) ==> c.on_board()
    }
}

/// The position of an empty board: no piece, White to move, all four
/// castling rights granted, no en-passant target, halfmove clock 0 and
/// fullmove number 1.
pub open spec fn empty_position() -> Position {
    Position {
        pieces: Map::empty(),
        color_to_move: Color::White,
        castling: CastlingRights {
            white_kingside: true,
            white_queenside: true,
            black_kingside: true,
            black_queenside: true,
        },
        en_passant: None,
        halfmove_clock: 0,
        fullmove_number: 1,
    }
}

/// A chess position.
///
/// `squares[y - 1][x - 1]` is the content of the square of file `x` and rank
/// `y`. `castling_rights` holds, in this order, the rights of White on the
/// king's side, White on the queen's side, Black on the king's side and
/// Black on the queen's side.
#[derive(Debug, Clone, Copy, PartialEq, Eq)]
pub struct Board {
    pub squares: [[Option<Piece>; 8]; 8],
    pub color_to_move: Color,
    pub castling_rights: [bool; 4],
    pub en_passant: Option<Coordinates>,
    pub halfmove_clock: u32,
    pub fullmove_number: u32,
}

impl View for Board {
    type V = Position;

    open spec fn view(&self) -> Position {
        Position {
            pieces: Map::new(
                |c: Coordinates| c.on_board() && self.squares[c.y - 1][c.x - 1] is Some,
                |c: Coordinates| self.squares[c.y - 1][c.x - 1]->0,
            ),
            color_to_move: self.color_to_move,
            castling: CastlingRights {
                white_kingside: self.castling_rights[0],
                white_queenside: self.castling_rights[1],
                black_kingside: self.castling_rights[2],
                black_queenside: self.castling_rights[3],
            },
            en_passant: self.en_passant,
            halfmove_clock: self.halfmove_clock,
            fullmove_number: self.fullmove_number,
        }
    }
}

impl Board {
    /// Every piece of a board stands on a square of the board.
    pub proof fn lemma_view_well_formed(self)
        ensures
            self@.well_formed(),
    {
    }

    /// An empty board: White to move, all four castling rights granted, no
    /// en-passant target, halfmove clock 0 and fullmove number 1.
    pub fn new() -> (board: Board)
        ensures
            board@ == empty_position(),
    {
        let board = Board {
            squares: [[None; 8]; 8],
            color_to_move: Color::White,
            castling_rights: [true, true, true, true],
            en_passant: None,
            halfmove_clock: 0,
            fullmove_number: 1,
        };
        assert(board@.pieces =~= Map::<Coordinates, Piece>::empty());
        board
    }

    /// The content of the square `coord`, which must lie on the board.
    pub fn get(&self, coord: Coordinates) -> (piece: Option<Piece>)
        requires
            coord.on_board(),
        ensures
            piece == self@.at(coord),
    {
        let x: usize = (coord.x - 1) as usize;
        let y: usize = (coord.y - 1) as usize;
        self.squares[y][x]
    }

    /// Puts `piece` on the square `coord`, which must lie on the board, or
    /// empties the square when `piece` is `None`. Nothing else changes.
    pub fn set(&mut self, coord: Coordinates, piece: Option<Piece>)
        requires
            coord.on_board(),
        ensures
            final(self)@ == old(self)@.with_square(coord, piece),
    {
        let x: usize = (coord.x - 1) as usize;
        let y: usize = (coord.y - 1) as usize;
        self.squares[y][x] = piece;
        assert(self@.pieces =~= old(self)@.with_square(coord, piece).pieces);
    }
}

} // verus!
