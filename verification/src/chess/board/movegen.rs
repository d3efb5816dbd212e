//! The pseudo-legal move generator: the squares a piece can reach by the
//! way it moves, whether or not its own king is left attacked.

use vstd::prelude::*;
use crate::chess::board::board::{Board, Piece, Position};
use crate::chess::board::coordinates::{distance, Coordinates};
use crate::chess::board::rules::{
    attacked, attacker, basic_target, castle_kingside, castle_queenside, king_step, may_land,
    path_clear, path_square, pseudo_target, reach, slide_target, square, toward,
};
use crate::chess::piece::piece::{Color, PieceType};
use crate::chess::sequences::lemma_push_contains;

verus! {

/// `-1`, `0` or `1` as `d` is negative, zero or positive.
pub open spec fn sign(d: int) -> int {
    if d > 0 {
        1
    } else if d < 0 {
        -1
    } else {
        0
    }
}

/// `to` lies on the ray that leaves `from` in the direction `(dx, dy)`.
pub open spec fn on_ray(from: Coordinates, dx: int, dy: int, to: Coordinates) -> bool {
    &&& from != to
    &&& sign(to.x - from.x) == dx
    &&& sign(to.y - from.y) == dy
    &&& (dx == 0 || dy == 0 || distance(from.x as int, to.x as int) == distance(
        from.y as int,
        to.y as int,
    ))
}

/// `to` is a target of a sliding piece of side `color` on the ray that
/// leaves `from` in the direction `(dx, dy)`.
pub open spec fn ray_target(
    pos: Position,
    from: Coordinates,
    color: Color,
    dx: int,
    dy: int,
    to: Coordinates,
) -> bool {
    may_land(pos, color, to) && on_ray(from, dx, dy, to) && path_clear(pos, from, to)
}

/// The `k`-th square of the ray that leaves `from` in the direction
/// `(dx, dy)`.
pub open spec fn ray_square(from: Coordinates, dx: int, dy: int, k: int) -> Coordinates {
    square(from.x + toward(dx, k), from.y + toward(dy, k))
}

/// Tells whether `c` is among `squares`.
pub fn contains_square(squares: &Vec<Coordinates>, c: Coordinates) -> (found: bool)
    ensures
        found == squares@.contains(c),
{
    let mut i: usize = 0;
    while i < squares.len()
        invariant
            i <= squares.len(),
            forall|j: int| 0 <= j < i ==> squares@[j] != c,
        decreases squares.len() - i,
    {
        if squares[i] == c {
            return true;
        }
        i += 1;
    }
    false
}

/// Appends `c`, which is not yet among `squares`.
fn add_square(squares: &mut Vec<Coordinates>, c: Coordinates)
    requires
        old(squares)@.no_duplicates(),
        !old(squares)@.contains(c),
    ensures
        final(squares)@.no_duplicates(),
        final(squares)@ == old(squares)@.push(c),
        forall|d: Coordinates| #[trigger]
            final(squares)@.contains(d) <==> old(squares)@.contains(d) || d == c,
{
    proof {
        lemma_push_contains(squares@, c);
    }
    squares.push(c);
}

impl Board {
    /// Appends the square `(from.x + dx, from.y + dy)` to `moves` if a piece
    /// of side `color` may land there.
    fn add_step(
        &self,
        moves: &mut Vec<Coordinates>,
        from: Coordinates,
        color: Color,
        dx: i8,
        dy: i8,
    )
        requires
            from.on_board(),
            -2 <= dx <= 2,
            -2 <= dy <= 2,
            old(moves)@.no_duplicates(),
            !old(moves)@.contains(square(from.x + dx, from.y + dy)),
        ensures
            final(moves)@.no_duplicates(),
            forall|d: Coordinates| #[trigger]
                final(moves)@.contains(d) <==> old(moves)@.contains(d) || (d == square(
                    from.x + dx,
                    from.y + dy,
                ) && may_land(self@, color, d)),
    {
        let to = Coordinates { x: from.x + dx, y: from.y + dy };
        if to.is_valid() {
            let free = match self.get(to) {
                Some(p) => p.color != color,
                None => true,
            };
            if free {
                add_square(moves, to);
            }
        }
    }

    /// Appends to `moves` the targets of a sliding piece of side `color` on
    /// the ray that leaves `from` in the direction `(dx, dy)`: the empty
    /// squares up to the first piece, and that piece's square if it is an
    /// enemy.
    fn add_ray(
        &self,
        moves: &mut Vec<Coordinates>,
        from: Coordinates,
        color: Color,
        dx: i8,
        dy: i8,
    )
        requires
            from.on_board(),
            -1 <= dx <= 1,
            -1 <= dy <= 1,
            dx != 0 || dy != 0,
            old(moves)@.no_duplicates(),
            forall|d: Coordinates| #[trigger]
                old(moves)@.contains(d) ==> !on_ray(from, dx as int, dy as int, d),
        ensures
            final(moves)@.no_duplicates(),
            forall|d: Coordinates| #[trigger]
                final(moves)@.contains(d) <==> old(moves)@.contains(d) || ray_target(
                    self@,
                    from,
                    color,
                    dx as int,
                    dy as int,
                    d,
                ),
    {
        let ghost pos = self@;
        let mut x: i8 = from.x + dx;
        let mut y: i8 = from.y + dy;
        let mut k: i8 = 1;
        let mut blocked = false;
        while !blocked && 1 <= x && x <= 8 && 1 <= y && y <= 8
            invariant
                pos == self@,
                from.on_board(),
                -1 <= dx <= 1,
                -1 <= dy <= 1,
                dx != 0 || dy != 0,
                1 <= k <= 9,
                !blocked ==> x == from.x + toward(dx as int, k as int),
                !blocked ==> y == from.y + toward(dy as int, k as int),
                forall|j: int|
                    1 <= j < k && !blocked ==> pos.is_empty(
                        #[trigger] ray_square(from, dx as int, dy as int, j),
                    ),
                moves@.no_duplicates(),
                forall|d: Coordinates| #[trigger]
                    old(moves)@.contains(d) ==> !on_ray(from, dx as int, dy as int, d),
                forall|d: Coordinates| #[trigger]
                    moves@.contains(d) <==> old(moves)@.contains(d) || (ray_target(
                        pos,
                        from,
                        color,
                        dx as int,
                        dy as int,
                        d,
                    ) && reach(from, d) < k),
                blocked ==> forall|d: Coordinates| #[trigger]
                    ray_target(pos, from, color, dx as int, dy as int, d) ==> reach(from, d) < k,
            decreases 9 - k + (if blocked { 0int } else { 1int }),
        {
            let to = Coordinates { x, y };
            let ghost before = moves@;
            proof {
                assert(to == ray_square(from, dx as int, dy as int, k as int));
                assert(reach(from, to) == k);
                assert(on_ray(from, dx as int, dy as int, to));
                assert forall|j: int| 1 <= j < reach(from, to) implies pos.is_empty(
                    #[trigger] path_square(from, to, j),
                ) by {
                    assert(path_square(from, to, j) == ray_square(from, dx as int, dy as int, j));
                }
                assert(path_clear(pos, from, to));
                assert(!before.contains(to));
            }
            let content = self.get(to);
            match content {
                Some(p) => {
                    if p.color != color {
                        add_square(moves, to);
                    }
                    blocked = true;
                    proof {
                        assert forall|d: Coordinates| #[trigger]
                            ray_target(pos, from, color, dx as int, dy as int, d) implies reach(
                            from,
                            d,
                        ) < k + 1 by {
                            if reach(from, d) > k {
                                assert(path_square(from, d, k as int) == to);
                            }
                        }
                        assert forall|d: Coordinates|
                            ray_target(pos, from, color, dx as int, dy as int, d) && reach(from, d)
                                == k implies d == to by {}
                    }
                },
                None => {
                    add_square(moves, to);
                    x = x + dx;
                    y = y + dy;
                    proof {
                        assert forall|d: Coordinates|
                            ray_target(pos, from, color, dx as int, dy as int, d) && reach(from, d)
                                == k implies d == to by {}
                    }
                },
            }
            k = k + 1;
        }
        proof {
            if !blocked {
                assert forall|d: Coordinates| #[trigger]
                    ray_target(pos, from, color, dx as int, dy as int, d) implies reach(from, d)
                    < k by {}
            }
        }
    }

    /// Appends the diagonal pawn target `to` of a pawn of side `color` if it
    /// lies on the board and holds an enemy piece, or is empty and the
    /// en-passant target.
    fn add_pawn_capture(&self, moves: &mut Vec<Coordinates>, color: Color, to: Coordinates)
        requires
            old(moves)@.no_duplicates(),
            !old(moves)@.contains(to),
        ensures
            final(moves)@.no_duplicates(),
            forall|d: Coordinates| #[trigger]
                final(moves)@.contains(d) <==> old(moves)@.contains(d) || (d == to
                    && to.on_board() && (self@.holds_color(to, color.opposite()) || (
                self@.is_empty(to) && self@.en_passant == Some(to)))),
    {
        if to.is_valid() {
            match self.get(to) {
                Some(target) => {
                    if target.color != color {
                        add_square(moves, to);
                    }
                },
                None => {
                    match self.en_passant {
                        Some(ep) => {
                            if ep == to {
                                add_square(moves, to);
                            }
                        },
                        None => {},
                    }
                },
            }
        }
    }

    /// The targets of a pawn of side `color` on `from`: one step ahead, two
    /// steps from its starting rank, and the diagonal captures, en passant
    /// included.
    fn pawn_moves(&self, from: Coordinates, color: Color) -> (moves: Vec<Coordinates>)
        requires
            from.on_board(),
        ensures
            moves@.no_duplicates(),
            forall|d: Coordinates| #[trigger]
                moves@.contains(d) <==> basic_target(
                    self@,
                    from,
                    Piece { piece_type: PieceType::Pawn, color },
                    d,
                ),
    {
        let mut moves: Vec<Coordinates> = Vec::new();
        let dir: i8 = match color {
            Color::White => 1,
            Color::Black => -1,
        };
        let home: i8 = match color {
            Color::White => 2,
            Color::Black => 7,
        };
        let next_y: i8 = from.y + dir;
        if next_y >= 1 && next_y <= 8 {
            let forward = Coordinates { x: from.x, y: next_y };
            if self.get(forward).is_none() {
                add_square(&mut moves, forward);
                if from.y == home {
                    let double_forward = Coordinates { x: from.x, y: from.y + 2 * dir };
                    if self.get(double_forward).is_none() {
                        add_square(&mut moves, double_forward);
                    }
                }
            }
            self.add_pawn_capture(&mut moves, color, Coordinates { x: from.x - 1, y: next_y });
            self.add_pawn_capture(&mut moves, color, Coordinates { x: from.x + 1, y: next_y });
        }
        moves
    }

    /// The targets of a knight of side `color` on `from`.
    fn knight_moves(&self, from: Coordinates, color: Color) -> (moves: Vec<Coordinates>)
        requires
            from.on_board(),
        ensures
            moves@.no_duplicates(),
            forall|d: Coordinates| #[trigger]
                moves@.contains(d) <==> basic_target(
                    self@,
                    from,
                    Piece { piece_type: PieceType::Knight, color },
                    d,
                ),
    {
        let mut moves: Vec<Coordinates> = Vec::new();
        self.add_step(&mut moves, from, color, 2, 1);
        self.add_step(&mut moves, from, color, 1, 2);
        self.add_step(&mut moves, from, color, -1, 2);
        self.add_step(&mut moves, from, color, -2, 1);
        self.add_step(&mut moves, from, color, -2, -1);
        self.add_step(&mut moves, from, color, -1, -2);
        self.add_step(&mut moves, from, color, 1, -2);
        self.add_step(&mut moves, from, color, 2, -1);
        moves
    }

    /// The eight squares around `from` on which a king of side `color` may
    /// land.
    fn king_steps(&self, from: Coordinates, color: Color) -> (moves: Vec<Coordinates>)
        requires
            from.on_board(),
        ensures
            moves@.no_duplicates(),
            forall|d: Coordinates| #[trigger]
                moves@.contains(d) <==> basic_target(
                    self@,
                    from,
                    Piece { piece_type: PieceType::King, color },
                    d,
                ),
    {
        let mut moves: Vec<Coordinates> = Vec::new();
        self.add_step(&mut moves, from, color, 1, 0);
        self.add_step(&mut moves, from, color, 1, 1);
        self.add_step(&mut moves, from, color, 0, 1);
        self.add_step(&mut moves, from, color, -1, 1);
        self.add_step(&mut moves, from, color, -1, 0);
        self.add_step(&mut moves, from, color, -1, -1);
        self.add_step(&mut moves, from, color, 0, -1);
        self.add_step(&mut moves, from, color, 1, -1);
        moves
    }

    /// The targets of a piece of side `color` on `from` that slides along
    /// ranks and files (`straight`), along diagonals (`diagonal`) or both.
    fn slide_moves(&self, from: Coordinates, color: Color, straight: bool, diagonal: bool) -> (moves:
        Vec<Coordinates>)
        requires
            from.on_board(),
        ensures
            moves@.no_duplicates(),
            forall|d: Coordinates| #[trigger]
                moves@.contains(d) <==> slide_target(self@, from, color, d, straight, diagonal),
    {
        let mut moves: Vec<Coordinates> = Vec::new();
        if diagonal {
            self.add_ray(&mut moves, from, color, 1, 1);
            self.add_ray(&mut moves, from, color, 1, -1);
            self.add_ray(&mut moves, from, color, -1, 1);
            self.add_ray(&mut moves, from, color, -1, -1);
        }
        if straight {
            self.add_ray(&mut moves, from, color, 1, 0);
            self.add_ray(&mut moves, from, color, -1, 0);
            self.add_ray(&mut moves, from, color, 0, 1);
            self.add_ray(&mut moves, from, color, 0, -1);
        }
        moves
    }

    /// The targets of `piece` on `from` by its ordinary way of moving,
    /// castling left aside.
    pub fn basic_moves(&self, from: Coordinates, piece: Piece) -> (moves: Vec<Coordinates>)
        requires
            from.on_board(),
        ensures
            moves@.no_duplicates(),
            forall|d: Coordinates| #[trigger]
                moves@.contains(d) <==> basic_target(self@, from, piece, d),
    {
        match piece.piece_type {
            PieceType::Pawn => self.pawn_moves(from, piece.color),
            PieceType::Knight => self.knight_moves(from, piece.color),
            PieceType::Bishop => self.slide_moves(from, piece.color, false, true),
            PieceType::Rook => self.slide_moves(from, piece.color, true, false),
            PieceType::Queen => self.slide_moves(from, piece.color, true, true),
            PieceType::King => self.king_steps(from, piece.color),
        }
    }

    /// Tells whether a piece of side `color` may land on the on-board
    /// square `to`: whether `to` holds no piece of that side.
    pub fn may_land_on(&self, color: Color, to: Coordinates) -> (free: bool)
        requires
            to.on_board(),
        ensures
            free == may_land(self@, color, to),
    {
        match self.get(to) {
            Some(p) => p.color != color,
            None => true,
        }
    }

    /// Tells whether every square strictly between `from` and `to` is
    /// empty. The two squares must lie on the board and share a rank, a
    /// file or a diagonal.
    pub fn path_is_clear(&self, from: Coordinates, to: Coordinates) -> (clear: bool)
        requires
            from.on_board(),
            to.on_board(),
            from.x == to.x || from.y == to.y || distance(from.x as int, to.x as int) == distance(
                from.y as int,
                to.y as int,
            ),
        ensures
            clear == path_clear(self@, from, to),
    {
        let dx: i8 = if to.x > from.x {
            1
        } else if to.x < from.x {
            -1
        } else {
            0
        };
        let dy: i8 = if to.y > from.y {
            1
        } else if to.y < from.y {
            -1
        } else {
            0
        };
        let mut x: i8 = from.x + dx;
        let mut y: i8 = from.y + dy;
        let mut k: i8 = 1;
        while x != to.x || y != to.y
            invariant
                from.on_board(),
                to.on_board(),
                from.x == to.x || from.y == to.y || distance(from.x as int, to.x as int) == distance(
                    from.y as int,
                    to.y as int,
                ),
                dx == sign(to.x - from.x),
                dy == sign(to.y - from.y),
                from != to ==> 1 <= k <= reach(from, to),
                from == to ==> k >= 1,
                from != to ==> x == from.x + toward(to.x - from.x, k as int),
                from != to ==> y == from.y + toward(to.y - from.y, k as int),
                from == to ==> x == to.x && y == to.y,
                forall|j: int| 1 <= j < k ==> self@.is_empty(#[trigger] path_square(from, to, j)),
            decreases reach(from, to) - k,
        {
            let here = Coordinates { x, y };
            assert(here == path_square(from, to, k as int));
            if self.get(here).is_some() {
                return false;
            }
            x = x + dx;
            y = y + dy;
            k = k + 1;
        }
        true
    }

    /// Tells whether some piece of side `by` bears on `sq`. A king bears on
    /// its own square and the eight around it; every other piece bears on
    /// its ordinary targets.
    pub fn is_attacked(&self, sq: Coordinates, by: Color) -> (hit: bool)
        ensures
            hit == attacked(self@, sq, by),
    {
        let mut i: usize = 0;
        while i < 64
            invariant
                i <= 64,
                forall|c: Coordinates|
                    c.on_board() && c.linear_index() < i ==> !#[trigger] attacker(
                        self@,
                        c,
                        sq,
                        by,
                    ),
            decreases 64 - i,
        {
            let from = Coordinates::from_index(i);
            match self.get(from) {
                Some(p) => {
                    if p.color == by {
                        let bears = if p.piece_type == PieceType::King {
                            from.is_adjacent(sq)
                        } else {
                            let targets = self.basic_moves(from, p);
                            contains_square(&targets, sq)
                        };
                        if bears {
                            assert(attacker(self@, from, sq, by));
                            return true;
                        }
                    }
                },
                None => {},
            }
            proof {
                assert(!attacker(self@, from, sq, by));
                assert forall|c: Coordinates|
                    c.on_board() && c.linear_index() < i + 1 implies !#[trigger] attacker(
                    self@,
                    c,
                    sq,
                    by,
                ) by {
                    if c.linear_index() == i {
                        assert(c == from);
                    }
                }
            }
            i += 1;
        }
        proof {
            assert forall|c: Coordinates| !#[trigger] attacker(self@, c, sq, by) by {
                if c.on_board() {
                    assert(c.linear_index() < 64);
                }
            }
        }
        false
    }

    /// Appends the castling targets of the king of side `color` standing on
    /// `from`.
    pub(crate) fn add_castling(
        &self,
        moves: &mut Vec<Coordinates>,
        from: Coordinates,
        color: Color,
    )
        requires
            from.on_board(),
            old(moves)@.no_duplicates(),
            forall|d: Coordinates| #[trigger] old(moves)@.contains(d) ==> king_step(from, d),
        ensures
            final(moves)@.no_duplicates(),
            forall|d: Coordinates| #[trigger]
                final(moves)@.contains(d) <==> old(moves)@.contains(d) || castle_kingside(
                    self@,
                    from,
                    color,
                    d,
                ) || castle_queenside(self@, from, color, d),
    {
        let rank: i8 = match color {
            Color::White => 1,
            Color::Black => 8,
        };
        let (kingside, queenside) = match color {
            Color::White => (self.castling_rights[0], self.castling_rights[1]),
            Color::Black => (self.castling_rights[2], self.castling_rights[3]),
        };
        if from.x != 5 || from.y != rank {
            return ;
        }
        let enemy = color.reverse();
        let rook = Some(Piece { piece_type: PieceType::Rook, color });
        if kingside && self.get(Coordinates { x: 6, y: rank }).is_none() && self.get(
            Coordinates { x: 7, y: rank },
        ).is_none() && self.get(Coordinates { x: 8, y: rank }) == rook && !self.is_attacked(
            Coordinates { x: 5, y: rank },
            enemy,
        ) && !self.is_attacked(Coordinates { x: 6, y: rank }, enemy) && !self.is_attacked(
            Coordinates { x: 7, y: rank },
            enemy,
        ) {
            add_square(moves, Coordinates { x: 7, y: rank });
        }
        if queenside && self.get(Coordinates { x: 4, y: rank }).is_none() && self.get(
            Coordinates { x: 3, y: rank },
        ).is_none() && self.get(Coordinates { x: 2, y: rank }).is_none() && self.get(
            Coordinates { x: 1, y: rank },
        ) == rook && !self.is_attacked(Coordinates { x: 5, y: rank }, enemy) && !self.is_attacked(
            Coordinates { x: 4, y: rank },
            enemy,
        ) && !self.is_attacked(Coordinates { x: 3, y: rank }, enemy) {
            add_square(moves, Coordinates { x: 3, y: rank });
        }
    }

    /// The pseudo-legal targets of `piece` standing on `from`, each once:
    /// the squares it can reach by the way it moves, castling included,
    /// whether or not its own king is left attacked. A square off the board
    /// has no targets.
    pub fn generate_piece_moves(&self, from: Coordinates, piece: Piece) -> (moves: Vec<
        Coordinates,
    >)
        ensures
            moves@.no_duplicates(),
            forall|to: Coordinates| #[trigger]
                moves@.contains(to) <==> pseudo_target(self@, from, piece, to),
    {
        if !from.is_valid() {
            let moves: Vec<Coordinates> = Vec::new();
            assert(forall|to: Coordinates| !moves@.contains(to));
            return moves;
        }
        let mut moves = self.basic_moves(from, piece);
        if piece.piece_type == PieceType::King {
            self.add_castling(&mut moves, from, piece.color);
        }
        moves
    }
}

} // verus!
