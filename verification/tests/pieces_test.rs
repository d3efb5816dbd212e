use fenex::chess::board::board::{Board, Piece};
use fenex::chess::board::coordinates::Coordinates;
use fenex::chess::board::notation::Notation;
use fenex::chess::board::notation_parser::{
    convert_to_coordinates, convert_to_notation, get_piece_from_char, parse_notation,
};
use fenex::chess::error::ChessError;
use fenex::chess::piece::piece::{Castle, CastlingRights, ChessPiece, Color, PieceType};
use fenex::chess::piece::piece_enum::ChessPieceEnum;
use fenex::chess::piece::types::bishop::Bishop;
use fenex::chess::piece::types::king::King;
use fenex::chess::piece::types::knight::Knight;
use fenex::chess::piece::types::pawn::Pawn;
use fenex::chess::piece::types::queen::Queen;
use fenex::chess::piece::types::rook::Rook;
use fenex::chess::state::chess_move::ChessMove;
use fenex::chess::state::movement::Move;

fn sq(x: i8, y: i8) -> Coordinates {
    Coordinates::new(x, y)
}

fn targets(board: &Board, piece: &dyn ChessPiece, filter: bool) -> Vec<Coordinates> {
    let mut found = Vec::new();
    for y in 1..=8 {
        for x in 1..=8 {
            if piece.is_valid_move(sq(x, y), board, filter) {
                found.push(sq(x, y));
            }
        }
    }
    found
}

fn sorted(mut squares: Vec<Coordinates>) -> Vec<(i8, i8)> {
    let mut pairs: Vec<(i8, i8)> = squares.drain(..).map(|c| (c.x, c.y)).collect();
    pairs.sort();
    pairs
}

#[test]
fn colors_reverse() {
    assert_eq!(Color::White.reverse(), Color::Black);
    assert_eq!(Color::Black.reverse(), Color::White);
}

#[test]
fn castling_rights_default_to_all() {
    let rights = CastlingRights::default();
    assert!(rights.white_kingside);
    assert!(rights.white_queenside);
    assert!(rights.black_kingside);
    assert!(rights.black_queenside);
}

#[test]
fn castle_records_and_resets() {
    let mut castle = Castle::new(true, false, false, true);
    assert_eq!(
        castle.rights(),
        CastlingRights {
            white_kingside: true,
            white_queenside: false,
            black_kingside: false,
            black_queenside: true,
        }
    );
    castle.reset();
    assert_eq!(
        castle.rights(),
        CastlingRights {
            white_kingside: false,
            white_queenside: false,
            black_kingside: false,
            black_queenside: false,
        }
    );
}

#[test]
fn moves_keep_their_parts() {
    let m = Move::new(sq(5, 2), sq(5, 4), PieceType::Pawn);
    assert_eq!(m.from(), sq(5, 2));
    assert_eq!(m.to(), sq(5, 4));
    assert_eq!(m.piece_type(), PieceType::Pawn);
    let c = ChessMove::new(sq(7, 1), sq(6, 3), PieceType::Knight);
    assert_eq!(c.from(), sq(7, 1));
    assert_eq!(c.to(), sq(6, 3));
    assert_eq!(c.piece_type(), PieceType::Knight);
}

#[test]
fn moves_are_written_down() {
    let board =
        Board::from_fen("rnbqkbnr/ppp1pppp/8/3p4/4P3/8/PPPP1PPP/RNBQKBNR w KQkq d6 0 2").unwrap();
    assert_eq!(ChessMove::new(sq(7, 1), sq(6, 3), PieceType::Knight).to_san(&board), "Nf3");
    assert_eq!(ChessMove::new(sq(5, 4), sq(4, 5), PieceType::Pawn).to_san(&board), "exd5");
    assert_eq!(ChessMove::new(sq(5, 4), sq(5, 5), PieceType::Pawn).to_san(&board), "e5");
    assert_eq!(ChessMove::new(sq(6, 1), sq(2, 5), PieceType::Bishop).to_san(&board), "Bb5");
    assert_eq!(ChessMove::new(sq(4, 1), sq(4, 5), PieceType::Queen).to_san(&board), "Qdxd5");
    assert_eq!(ChessMove::new(sq(5, 1), sq(5, 2), PieceType::King).to_san(&board), "Ke2");
    assert_eq!(ChessMove::new(sq(1, 1), sq(1, 7), PieceType::Rook).to_san(&board), "Raxa7");
}

#[test]
fn pieces_are_built_from_side_and_square() {
    let pawn = Pawn::new(Color::White, sq(5, 2));
    assert_eq!((pawn.color, pawn.coordinates), (Color::White, sq(5, 2)));
    assert_eq!(pawn.piece_type(), PieceType::Pawn);
    assert_eq!(pawn.color(), Color::White);
    assert_eq!(pawn.coordinates(), sq(5, 2));
    assert_eq!(Knight::new(Color::Black, sq(2, 8)).piece_type(), PieceType::Knight);
    assert_eq!(Bishop::new(Color::Black, sq(3, 8)).piece_type(), PieceType::Bishop);
    assert_eq!(Rook::new(Color::Black, sq(1, 8)).piece_type(), PieceType::Rook);
    assert_eq!(Queen::new(Color::Black, sq(4, 8)).piece_type(), PieceType::Queen);
    let king = King::new(Color::Black, sq(5, 8));
    assert_eq!(king.piece_type(), PieceType::King);
    assert_eq!((king.color(), king.coordinates()), (Color::Black, sq(5, 8)));
}

#[test]
fn pieces_change_side_and_square() {
    let mut rook = Rook::new(Color::White, sq(1, 1));
    rook.change_color(Color::Black);
    assert_eq!(rook, Rook { color: Color::Black, coordinates: sq(1, 1) });
    rook.change_coordinates(sq(1, 8));
    assert_eq!(rook, Rook { color: Color::Black, coordinates: sq(1, 8) });
}

#[test]
fn located_pieces_tell_kind_side_and_square() {
    let mut piece = ChessPieceEnum::Queen(Queen::new(Color::White, sq(4, 1)));
    assert_eq!(piece.piece_type(), PieceType::Queen);
    assert_eq!(piece.get_piece_type(), PieceType::Queen);
    assert_eq!(piece.color(), Color::White);
    assert_eq!(piece.coordinates(), sq(4, 1));
    assert_eq!(piece.to_string(), "Q");
    piece.set_coordinates(sq(4, 4));
    assert_eq!(piece, ChessPieceEnum::Queen(Queen::new(Color::White, sq(4, 4))));
    piece.change_color_and_coordinates(Color::Black, sq(4, 8));
    assert_eq!(piece, ChessPieceEnum::Queen(Queen::new(Color::Black, sq(4, 8))));
    assert_eq!(piece.to_string(), "q");
    let located = ChessPieceEnum::locate(
        Piece { piece_type: PieceType::Knight, color: Color::Black },
        sq(7, 8),
    );
    assert_eq!(located, ChessPieceEnum::Knight(Knight::new(Color::Black, sq(7, 8))));
    assert_eq!(located.to_string(), "n");
}

#[test]
fn located_piece_letters() {
    let at = sq(1, 1);
    let cases = [
        (ChessPieceEnum::Pawn(Pawn::new(Color::White, at)), "P"),
        (ChessPieceEnum::Pawn(Pawn::new(Color::Black, at)), "p"),
        (ChessPieceEnum::Knight(Knight::new(Color::White, at)), "N"),
        (ChessPieceEnum::Bishop(Bishop::new(Color::White, at)), "B"),
        (ChessPieceEnum::Bishop(Bishop::new(Color::Black, at)), "b"),
        (ChessPieceEnum::Rook(Rook::new(Color::White, at)), "R"),
        (ChessPieceEnum::Rook(Rook::new(Color::Black, at)), "r"),
        (ChessPieceEnum::King(King::new(Color::White, at)), "K"),
        (ChessPieceEnum::King(King::new(Color::Black, at)), "k"),
    ];
    for (piece, letter) in cases {
        assert_eq!(piece.to_string(), letter);
    }
}

#[test]
fn knight_targets() {
    let board = Board::from_fen("8/8/8/4N3/8/3P4/8/8 w - - 0 1").unwrap();
    let knight = Knight::new(Color::White, sq(5, 5));
    assert_eq!(
        sorted(targets(&board, &knight, false)),
        vec![(3, 4), (3, 6), (4, 7), (6, 3), (6, 7), (7, 4), (7, 6)]
    );
    let corner = Knight::new(Color::Black, sq(1, 1));
    assert_eq!(sorted(targets(&board, &corner, false)), vec![(2, 3), (3, 2)]);
}

#[test]
fn rook_targets_stop_at_pieces() {
    let board = Board::from_fen("8/8/3p4/8/1P1R4/8/8/8 w - - 0 1").unwrap();
    let rook = Rook::new(Color::White, sq(4, 4));
    assert_eq!(
        sorted(targets(&board, &rook, false)),
        vec![(3, 4), (4, 1), (4, 2), (4, 3), (4, 5), (4, 6), (5, 4), (6, 4), (7, 4), (8, 4)]
    );
    assert_eq!(
        sorted(board.generate_piece_moves(
            sq(4, 4),
            Piece { piece_type: PieceType::Rook, color: Color::White }
        )),
        sorted(targets(&board, &rook, false))
    );
}

#[test]
fn bishop_and_queen_targets() {
    let board = Board::from_fen("8/8/8/8/8/2p5/1B6/8 w - - 0 1").unwrap();
    let bishop = Bishop::new(Color::White, sq(2, 2));
    assert_eq!(sorted(targets(&board, &bishop, false)), vec![(1, 1), (1, 3), (3, 1), (3, 3)]);
    let queen = Queen::new(Color::White, sq(2, 2));
    assert_eq!(
        sorted(targets(&board, &queen, false)),
        vec![
            (1, 1),
            (1, 2),
            (1, 3),
            (2, 1),
            (2, 3),
            (2, 4),
            (2, 5),
            (2, 6),
            (2, 7),
            (2, 8),
            (3, 1),
            (3, 2),
            (3, 3),
            (4, 2),
            (5, 2),
            (6, 2),
            (7, 2),
            (8, 2)
        ]
    );
}

#[test]
fn pawn_targets() {
    let board = Board::from_fen("8/8/8/8/8/3p1P2/4P3/8 w - - 0 1").unwrap();
    let pawn = Pawn::new(Color::White, sq(5, 2));
    assert_eq!(sorted(targets(&board, &pawn, false)), vec![(4, 3), (5, 3), (5, 4)]);
    let blocked = Board::from_fen("8/8/8/8/4p3/8/4P3/8 w - - 0 1").unwrap();
    assert_eq!(sorted(targets(&blocked, &pawn, false)), vec![(5, 3)]);
    let stuck = Board::from_fen("8/8/8/8/8/4p3/4P3/8 w - - 0 1").unwrap();
    assert_eq!(sorted(targets(&stuck, &pawn, false)), vec![]);
    let black = Pawn::new(Color::Black, sq(5, 7));
    let open = Board::from_fen("8/4p3/8/8/8/8/8/8 b - - 0 1").unwrap();
    assert_eq!(sorted(targets(&open, &black, false)), vec![(5, 5), (5, 6)]);
    let moved = Pawn::new(Color::White, sq(5, 3));
    let later = Board::from_fen("8/8/8/8/8/4P3/8/8 w - - 0 1").unwrap();
    assert_eq!(sorted(targets(&later, &moved, false)), vec![(5, 4)]);
    let last = Pawn::new(Color::White, sq(5, 8));
    let top = Board::from_fen("4P3/8/8/8/8/8/8/8 w - - 0 1").unwrap();
    assert_eq!(sorted(targets(&top, &last, false)), vec![]);
}

#[test]
fn pawn_takes_en_passant_only_onto_the_empty_target() {
    let board = Board::from_fen("8/8/8/4pP2/8/8/8/8 w - e6 0 1").unwrap();
    let pawn = Pawn::new(Color::White, sq(6, 5));
    assert_eq!(sorted(targets(&board, &pawn, false)), vec![(5, 6), (6, 6)]);
    let none = Board::from_fen("8/8/8/4pP2/8/8/8/8 w - - 0 1").unwrap();
    assert_eq!(sorted(targets(&none, &pawn, false)), vec![(6, 6)]);
    let own = Board::from_fen("8/8/4P3/4pP2/8/8/8/8 w - e6 0 1").unwrap();
    assert_eq!(sorted(targets(&own, &pawn, false)), vec![(6, 6)]);
}

#[test]
fn king_targets_with_castling() {
    let board = Board::from_fen("r3k2r/8/8/8/8/8/8/R3K2R w KQkq - 0 1").unwrap();
    let king = King::new(Color::White, sq(5, 1));
    assert_eq!(
        sorted(targets(&board, &king, false)),
        vec![(3, 1), (4, 1), (4, 2), (5, 2), (6, 1), (6, 2), (7, 1)]
    );
    assert_eq!(
        sorted(board.generate_piece_moves(
            sq(5, 1),
            Piece { piece_type: PieceType::King, color: Color::White }
        )),
        sorted(targets(&board, &king, false))
    );
    assert_eq!(
        sorted(
            board.basic_moves(sq(5, 1), Piece { piece_type: PieceType::King, color: Color::White })
        ),
        vec![(4, 1), (4, 2), (5, 2), (6, 1), (6, 2)]
    );
    assert!(king.can_move_one_square(sq(6, 2)));
    assert!(king.can_move_one_square(sq(5, 1)));
    assert!(!king.can_move_one_square(sq(7, 1)));
}

#[test]
fn king_moves_by_itself() {
    let mut king = King::new(Color::White, sq(5, 1));
    assert_eq!(king.move_piece(sq(6, 2)), Ok(()));
    assert_eq!(king.coordinates, sq(6, 2));
    assert_eq!(king.move_piece(sq(8, 2)), Err(ChessError::IllegalMove));
    assert_eq!(king, King::new(Color::White, sq(6, 2)));
}

#[test]
fn filter_keeps_only_king_safe_moves() {
    let board = Board::from_fen("4k3/8/8/8/8/8/4B3/4K2r w - - 0 1").unwrap();
    let bishop = Bishop::new(Color::White, sq(5, 2));
    assert_eq!(targets(&board, &bishop, false).len(), 9);
    assert_eq!(sorted(targets(&board, &bishop, true)), vec![(6, 1)]);
    let piece = ChessPieceEnum::Bishop(bishop);
    assert!(piece.is_valid_move(sq(6, 1), &board, true));
    assert!(piece.is_valid_move(sq(4, 3), &board, false));
    assert!(!piece.is_valid_move(sq(4, 3), &board, true));
    assert!(!piece.is_valid_move(sq(5, 3), &board, false));
}

#[test]
fn pieces_off_the_board_have_no_moves() {
    let board = Board::new();
    let rook = Rook::new(Color::White, sq(0, 4));
    assert!(targets(&board, &rook, false).is_empty());
    let queen = Queen::new(Color::White, sq(4, 4));
    assert!(!queen.is_valid_move(sq(4, 9), &board, false));
    assert!(!queen.is_valid_move(sq(9, 9), &board, true));
    assert!(!queen.is_valid_move(sq(4, 4), &board, false));
    assert!(board
        .generate_piece_moves(sq(9, 1), Piece { piece_type: PieceType::Rook, color: Color::White })
        .is_empty());
}

#[test]
fn captures_need_the_other_side() {
    let white = ChessPieceEnum::Rook(Rook::new(Color::White, sq(4, 4)));
    let black = ChessPieceEnum::Knight(Knight::new(Color::Black, sq(5, 5)));
    let far = ChessPieceEnum::Knight(Knight::new(Color::Black, sq(5, 6)));
    assert!(Rook::new(Color::White, sq(1, 1)).can_capture(&black));
    assert!(!Rook::new(Color::White, sq(1, 1)).can_capture(&white));
    assert!(King::new(Color::Black, sq(1, 1)).can_capture(&white));
    assert!(!Knight::new(Color::Black, sq(1, 1)).can_capture(&black));
    let pawn = Pawn::new(Color::White, sq(4, 4));
    assert!(pawn.can_capture(&black));
    assert!(!pawn.can_capture(&far));
    assert!(!pawn.can_capture(&white));
    assert!(Pawn::new(Color::White, sq(6, 6)).can_capture(&black));
}

#[test]
fn board_hands_out_located_pieces() {
    let mut board = Board::new();
    board.set_piece(sq(3, 3), ChessPieceEnum::Rook(Rook::new(Color::Black, sq(8, 8))));
    assert_eq!(
        board.get(sq(3, 3)),
        Some(Piece { piece_type: PieceType::Rook, color: Color::Black })
    );
    assert_eq!(
        board.get_piece(sq(3, 3)),
        Some(ChessPieceEnum::Rook(Rook::new(Color::Black, sq(3, 3))))
    );
    assert_eq!(board.get_piece(sq(3, 4)), None);
    board.move_piece(sq(3, 3), sq(1, 1));
    assert_eq!(
        board.get_piece(sq(1, 1)),
        Some(ChessPieceEnum::Rook(Rook::new(Color::Black, sq(1, 1))))
    );
    assert_eq!(board.get_piece(sq(3, 3)), None);
    let before = board;
    board.move_piece(sq(5, 5), sq(1, 1));
    assert_eq!(board, before);
    assert_eq!(
        board.remove_piece(sq(1, 1)),
        Some(ChessPieceEnum::Rook(Rook::new(Color::Black, sq(1, 1))))
    );
    assert_eq!(board.remove_piece(sq(1, 1)), None);
    assert_eq!(board, Board::new());
}

#[test]
fn side_to_move_is_read_and_flipped() {
    let mut board = Board::new();
    assert_eq!(board.get_color_to_move(), Color::White);
    board.change_color_to_move();
    assert_eq!(board.get_color_to_move(), Color::Black);
    board.change_color_to_move();
    assert_eq!(board, Board::new());
}

#[test]
fn moving_by_rule() {
    let mut board = Board::new_two_dimensional_starting_position();
    let start = board;
    assert_eq!(board.move_piece_with_coordinates(sq(5, 2), sq(5, 5)), Err(ChessError::IllegalMove));
    assert_eq!(board.move_piece_with_coordinates(sq(5, 4), sq(5, 5)), Err(ChessError::IllegalMove));
    assert_eq!(board.move_piece_with_coordinates(sq(0, 4), sq(5, 5)), Err(ChessError::OutOfBounds));
    assert_eq!(board.move_piece_with_coordinates(sq(5, 2), sq(5, 9)), Err(ChessError::IllegalMove));
    assert_eq!(board, start);
    assert_eq!(board.move_piece_with_coordinates(sq(5, 2), sq(5, 4)), Ok(()));
    assert_eq!(board.to_fen(), "rnbqkbnr/pppppppp/8/8/4P3/8/PPPP1PPP/RNBQKBNR w KQkq - 0 1");
    // The side to move is not looked at.
    assert_eq!(board.move_piece_with_coordinates(sq(5, 4), sq(5, 5)), Ok(()));
    let e7 = Notation { file: 'e', rank: '7' };
    let e6 = Notation { file: 'e', rank: '6' };
    assert_eq!(board.move_piece_with_notation(e7, e6), Ok(()));
    assert_eq!(board.to_fen(), "rnbqkbnr/pppp1ppp/4p3/4P3/8/8/PPPP1PPP/RNBQKBNR w KQkq - 0 1");
    let knight = Knight::new(Color::White, sq(7, 1));
    assert_eq!(knight.move_to(sq(6, 3), &mut board), Ok(()));
    assert_eq!(knight.move_to(sq(6, 3), &mut board), Err(ChessError::IllegalMove));
    assert_eq!(board.to_fen(), "rnbqkbnr/pppp1ppp/4p3/4P3/8/5N2/PPPP1PPP/RNBQKB1R w KQkq - 0 1");
}

#[test]
fn unchecked_moves_carry_whatever_is_there() {
    let mut board = Board::from_fen("4k3/8/8/8/8/8/8/R3K3 w Q - 0 1").unwrap();
    let copy = board.make_move_unchecked_new(Move::new(sq(1, 1), sq(8, 8), PieceType::Rook));
    assert_eq!(copy.to_fen(), "4k2R/8/8/8/8/8/8/4K3 w Q - 0 1");
    assert_eq!(board.to_fen(), "4k3/8/8/8/8/8/8/R3K3 w Q - 0 1");
    board.make_move_unchecked(Move::new(sq(1, 1), sq(8, 8), PieceType::Rook));
    assert_eq!(board, copy);
    // From an empty square: the target is emptied.
    board.make_move_unchecked(Move::new(sq(2, 2), sq(5, 8), PieceType::Pawn));
    assert_eq!(board.to_fen(), "7R/8/8/8/8/8/8/4K3 w Q - 0 1");
    // A square onto itself: the square is emptied first and then filled again.
    board.make_move_unchecked(Move::new(sq(5, 1), sq(5, 1), PieceType::King));
    assert_eq!(board.to_fen(), "7R/8/8/8/8/8/8/4K3 w Q - 0 1");
}

#[test]
fn moves_of_a_side() {
    let board = Board::from_fen("4k3/8/8/8/8/8/4B3/4K2r w - - 0 1").unwrap();
    let pseudo = board.generate_moves(Color::White, false);
    let legal = board.generate_moves(Color::White, true);
    assert_eq!(pseudo.len(), 13);
    assert_eq!(legal.len(), 3);
    assert!(legal.contains(&Move::new(sq(5, 2), sq(6, 1), PieceType::Bishop)));
    assert!(legal.contains(&Move::new(sq(5, 1), sq(4, 2), PieceType::King)));
    assert!(legal.contains(&Move::new(sq(5, 1), sq(6, 2), PieceType::King)));
    // On d1 the king would still stand on the rook's line.
    assert!(!legal.contains(&Move::new(sq(5, 1), sq(4, 1), PieceType::King)));
    assert!(pseudo.contains(&Move::new(sq(5, 1), sq(4, 1), PieceType::King)));
    let pairs = board.generate_legal_moves();
    assert_eq!(pairs.len(), legal.len());
    for m in &legal {
        assert!(pairs.contains(&(m.from(), m.to())));
        assert!(pseudo.contains(m));
    }
    let black = board.generate_moves(Color::Black, true);
    assert_eq!(black.len(), board.legal_moves_of(Color::Black).len());
    assert_eq!(black.len(), 5 + 10);
}

#[test]
fn squares_bear_attacks() {
    let board = Board::from_fen("4k3/8/8/8/8/8/4p3/R3K3 w Q - 0 1").unwrap();
    // The pawn's push goes to e1 only if e1 is empty; its diagonals count
    // only onto pieces of the other side.
    assert!(!board.is_attacked(sq(4, 1), Color::Black));
    assert!(!board.is_attacked(sq(6, 1), Color::Black));
    assert!(board.is_attacked(sq(4, 8), Color::Black));
    assert!(board.is_attacked(sq(5, 8), Color::Black));
    assert!(board.is_attacked(sq(1, 8), Color::White));
    assert!(board.is_attacked(sq(4, 1), Color::White));
    assert!(!board.is_attacked(sq(8, 8), Color::White));
    assert!(board.is_attacked(sq(5, 2), Color::White));
    assert!(board.path_is_clear(sq(1, 1), sq(5, 1)));
    assert!(!board.path_is_clear(sq(1, 1), sq(6, 1)));
    assert!(board.may_land_on(Color::White, sq(5, 2)));
    assert!(!board.may_land_on(Color::Black, sq(5, 2)));
    assert!(board.leaves_king_safe(sq(5, 1), sq(5, 2), Color::White));
    let pinned = Board::from_fen("4r3/8/8/8/8/8/4R3/4K3 w - - 0 1").unwrap();
    assert!(!pinned.leaves_king_safe(sq(5, 2), sq(1, 2), Color::White));
    assert!(pinned.leaves_king_safe(sq(5, 2), sq(5, 5), Color::White));
}

#[test]
fn captures_written_out_in_full_are_read() {
    let m = parse_notation("Pe4xpd5").unwrap();
    assert_eq!(m.source_piece, (PieceType::Pawn, Color::White));
    assert_eq!(m.source_location, sq(5, 4));
    assert_eq!(m.captured_piece, Some((PieceType::Pawn, Color::Black)));
    assert_eq!(m.captured_piece_location, Some(sq(4, 5)));
    let n = parse_notation("qa8-Rh1 and more").unwrap();
    assert_eq!(n.source_piece, (PieceType::Queen, Color::Black));
    assert_eq!(n.source_location, sq(1, 8));
    assert_eq!(n.captured_piece, Some((PieceType::Rook, Color::White)));
    assert_eq!(n.captured_piece_location, Some(sq(8, 1)));
    for bad in ["", "Pe4xpd", "Xe4xpd5", "Pe4xxd5", "Pi4xpd5", "Pe9xpd5", "Pe4xpd0", "PE4xpd5"] {
        assert_eq!(parse_notation(bad), Err(ChessError::ParseError));
    }
}

#[test]
fn letters_and_names_convert() {
    assert_eq!(get_piece_from_char('n'), (PieceType::Knight, Color::Black));
    assert_eq!(get_piece_from_char('K'), (PieceType::King, Color::White));
    assert_eq!(convert_to_coordinates(Notation { file: 'a', rank: '1' }), sq(1, 1));
    assert_eq!(convert_to_coordinates(Notation { file: 'e', rank: '4' }), sq(5, 4));
    assert_eq!(convert_to_notation(sq(8, 8)), Notation { file: 'h', rank: '8' });
    assert_eq!(convert_to_notation(sq(5, 4)), Notation { file: 'e', rank: '4' });
}
