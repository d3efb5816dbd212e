use fenex::chess::board::board::{Board, Piece};
use fenex::chess::board::coordinates::Coordinates;
use fenex::chess::board::game_state::GameState;
use fenex::chess::error::ChessError;
use fenex::chess::piece::piece::{Color, PieceType};

const START: &str = "rnbqkbnr/pppppppp/8/8/8/8/PPPPPPPP/RNBQKBNR w KQkq - 0 1";

fn sq(x: i8, y: i8) -> Coordinates {
    Coordinates::new(x, y)
}

#[test]
fn boards_and_moves() {
    let fen = "r1b4r/ppkppppq/4P2p/7n/RNK2b1n/Q7/PPPPP1PP/2B2BNR w - - 0 1";
    let board = Board::from_fen(fen).unwrap();
    assert_eq!(board.to_fen(), fen);
}

#[test]
fn round_trip_start_position() {
    let board = Board::from_fen(START).unwrap();
    assert_eq!(board.to_fen(), START);
}

#[test]
fn round_trip_partial_castling_rights() {
    for fen in [
        "r3k2r/8/8/8/8/8/8/R3K2R w Kq - 0 1",
        "r3k2r/8/8/8/8/8/8/R3K2R b Qk - 12 34",
        "r3k2r/8/8/8/8/8/8/R3K2R w q - 3 7",
        "4k3/8/8/8/8/8/8/4K3 b - - 99 100",
    ] {
        let board = Board::from_fen(fen).unwrap();
        assert_eq!(board.to_fen(), fen);
    }
}

#[test]
fn round_trip_en_passant_target() {
    for fen in [
        "8/8/8/4pP2/8/8/8/8 w - e6 0 1",
        "rnbqkbnr/pppppppp/8/8/4P3/8/PPPP1PPP/RNBQKBNR b KQkq e3 0 1",
        "rnbqkbnr/ppp1pppp/8/3p4/4P3/8/PPPP1PPP/RNBQKBNR w KQkq d6 0 2",
    ] {
        let board = Board::from_fen(fen).unwrap();
        assert_eq!(board.to_fen(), fen);
    }
}

#[test]
fn start_position_has_twenty_moves_and_no_check() {
    let board = Board::from_fen(START).unwrap();
    assert!(!board.is_in_check());
    let moves = board.generate_legal_moves();
    assert_eq!(moves.len(), 20);
    assert!(!board.is_checkmate());
    assert!(!board.is_stalemate());
    assert_eq!(board.game_state(Color::White), GameState::Normal);
    assert_eq!(board.game_state(Color::Black), GameState::Normal);
}

#[test]
fn start_position_moves_are_the_known_ones() {
    let board = Board::from_fen(START).unwrap();
    let moves = board.generate_legal_moves();
    for x in 1..=8 {
        assert!(moves.contains(&(sq(x, 2), sq(x, 3))));
        assert!(moves.contains(&(sq(x, 2), sq(x, 4))));
    }
    assert!(moves.contains(&(sq(2, 1), sq(1, 3))));
    assert!(moves.contains(&(sq(2, 1), sq(3, 3))));
    assert!(moves.contains(&(sq(7, 1), sq(6, 3))));
    assert!(moves.contains(&(sq(7, 1), sq(8, 3))));
    for (i, a) in moves.iter().enumerate() {
        for b in moves.iter().skip(i + 1) {
            assert_ne!(a, b);
        }
    }
}

#[test]
fn promotion_defaults_to_queen() {
    let mut board = Board::from_fen("8/P7/8/8/8/8/8/8 w - - 0 1").unwrap();
    board.apply_move(sq(1, 7), sq(1, 8)).unwrap();
    assert_eq!(
        board.get(sq(1, 8)),
        Some(Piece { piece_type: PieceType::Queen, color: Color::White })
    );
    assert_eq!(board.get(sq(1, 7)), None);
    assert_eq!(board.color_to_move, Color::Black);
}

#[test]
fn promotion_to_each_allowed_kind() {
    for kind in [PieceType::Queen, PieceType::Rook, PieceType::Bishop, PieceType::Knight] {
        let mut board = Board::from_fen("8/P7/8/8/8/8/8/8 w - - 0 1").unwrap();
        board.apply_move_with_promotion(sq(1, 7), sq(1, 8), Some(kind)).unwrap();
        assert_eq!(board.get(sq(1, 8)), Some(Piece { piece_type: kind, color: Color::White }));
    }
    let mut black = Board::from_fen("8/8/8/8/8/8/7p/8 b - - 0 1").unwrap();
    black.apply_move_with_promotion(sq(8, 2), sq(8, 1), Some(PieceType::Knight)).unwrap();
    assert_eq!(
        black.get(sq(8, 1)),
        Some(Piece { piece_type: PieceType::Knight, color: Color::Black })
    );
}

#[test]
fn promotion_to_king_or_pawn_is_refused() {
    for kind in [PieceType::King, PieceType::Pawn] {
        let mut board = Board::from_fen("8/P7/8/8/8/8/8/8 w - - 0 1").unwrap();
        let before = board;
        assert_eq!(
            board.apply_move_with_promotion(sq(1, 7), sq(1, 8), Some(kind)),
            Err(ChessError::InvalidPromotion)
        );
        assert_eq!(board, before);
    }
}

#[test]
fn promotion_kind_is_not_looked_at_for_other_moves() {
    let mut board = Board::from_fen(START).unwrap();
    assert_eq!(
        board.apply_move_with_promotion(sq(5, 2), sq(5, 4), Some(PieceType::King)),
        Ok(())
    );
    assert_eq!(
        board.get(sq(5, 4)),
        Some(Piece { piece_type: PieceType::Pawn, color: Color::White })
    );
}

#[test]
fn illegal_move_leaves_the_position() {
    let mut board = Board::from_fen(START).unwrap();
    let before = board;
    assert_eq!(board.apply_move(sq(5, 2), sq(5, 5)), Err(ChessError::IllegalMove));
    assert_eq!(board.apply_move(sq(5, 7), sq(5, 5)), Err(ChessError::IllegalMove));
    assert_eq!(board.apply_move(sq(0, 0), sq(5, 5)), Err(ChessError::IllegalMove));
    assert_eq!(board.apply_move(sq(5, 2), sq(5, 9)), Err(ChessError::IllegalMove));
    assert_eq!(board.apply_move(sq(4, 4), sq(4, 5)), Err(ChessError::IllegalMove));
    assert_eq!(board, before);
}

#[test]
fn kingside_castling_moves_the_rook_and_clears_both_rights() {
    let mut board = Board::from_fen("r3k2r/8/8/8/8/8/8/R3K2R w KQkq - 0 1").unwrap();
    board.apply_move(sq(5, 1), sq(7, 1)).unwrap();
    assert_eq!(
        board.get(sq(7, 1)),
        Some(Piece { piece_type: PieceType::King, color: Color::White })
    );
    assert_eq!(
        board.get(sq(6, 1)),
        Some(Piece { piece_type: PieceType::Rook, color: Color::White })
    );
    assert_eq!(board.get(sq(8, 1)), None);
    assert_eq!(board.get(sq(5, 1)), None);
    assert_eq!(board.castling_rights, [false, false, true, true]);
    assert_eq!(board.to_fen(), "r3k2r/8/8/8/8/8/8/R4RK1 b kq - 1 1");
}

#[test]
fn queenside_castling_of_black() {
    let mut board = Board::from_fen("r3k2r/8/8/8/8/8/8/R3K2R b KQkq - 4 9").unwrap();
    board.apply_move(sq(5, 8), sq(3, 8)).unwrap();
    assert_eq!(
        board.get(sq(3, 8)),
        Some(Piece { piece_type: PieceType::King, color: Color::Black })
    );
    assert_eq!(
        board.get(sq(4, 8)),
        Some(Piece { piece_type: PieceType::Rook, color: Color::Black })
    );
    assert_eq!(board.get(sq(1, 8)), None);
    assert_eq!(board.castling_rights, [true, true, false, false]);
    assert_eq!(board.to_fen(), "2kr3r/8/8/8/8/8/8/R3K2R w KQ - 5 10");
}

#[test]
fn castling_needs_right_empty_squares_and_safe_squares() {
    let no_right = Board::from_fen("r3k2r/8/8/8/8/8/8/R3K2R w Qkq - 0 1").unwrap();
    let moves = no_right.generate_legal_moves();
    assert!(!moves.contains(&(sq(5, 1), sq(7, 1))));
    assert!(moves.contains(&(sq(5, 1), sq(3, 1))));

    let blocked = Board::from_fen("r3k2r/8/8/8/8/8/8/RN2K1NR w KQkq - 0 1").unwrap();
    let moves = blocked.generate_legal_moves();
    assert!(!moves.contains(&(sq(5, 1), sq(7, 1))));
    assert!(!moves.contains(&(sq(5, 1), sq(3, 1))));

    // A black rook on f8 bears on f1: the king may not pass.
    let through = Board::from_fen("4kr2/8/8/8/8/8/8/R3K2R w KQ - 0 1").unwrap();
    let moves = through.generate_legal_moves();
    assert!(!moves.contains(&(sq(5, 1), sq(7, 1))));
    assert!(moves.contains(&(sq(5, 1), sq(3, 1))));

    // In check, no castling at all.
    let checked = Board::from_fen("4r3/8/8/8/8/8/8/R3K2R w KQ - 0 1").unwrap();
    let moves = checked.generate_legal_moves();
    assert!(!moves.contains(&(sq(5, 1), sq(7, 1))));
    assert!(!moves.contains(&(sq(5, 1), sq(3, 1))));

    // A king away from its square does not castle, whatever the rights say.
    let away = Board::from_fen("r3k2r/8/8/8/8/8/8/R2K3R w KQkq - 0 1").unwrap();
    let moves = away.generate_legal_moves();
    assert!(!moves.contains(&(sq(4, 1), sq(7, 1))));
    assert!(!moves.contains(&(sq(4, 1), sq(2, 1))));
}

#[test]
fn rook_leaving_its_corner_clears_one_right() {
    let mut board = Board::from_fen("r3k2r/8/8/8/8/8/8/R3K2R w KQkq - 0 1").unwrap();
    board.apply_move(sq(1, 1), sq(1, 4)).unwrap();
    assert_eq!(board.castling_rights, [true, false, true, true]);
    board.apply_move(sq(8, 8), sq(8, 5)).unwrap();
    assert_eq!(board.castling_rights, [true, false, false, true]);
    board.apply_move(sq(8, 1), sq(7, 1)).unwrap();
    assert_eq!(board.castling_rights, [false, false, false, true]);
    board.apply_move(sq(1, 8), sq(2, 8)).unwrap();
    assert_eq!(board.castling_rights, [false, false, false, false]);
}

#[test]
fn king_move_clears_both_rights_of_its_side() {
    let mut board = Board::from_fen("r3k2r/8/8/8/8/8/8/R3K2R w KQkq - 0 1").unwrap();
    board.apply_move(sq(5, 1), sq(5, 2)).unwrap();
    assert_eq!(board.castling_rights, [false, false, true, true]);
    board.apply_move(sq(5, 8), sq(4, 8)).unwrap();
    assert_eq!(board.castling_rights, [false, false, false, false]);
    assert_eq!(board.to_fen(), "r2k3r/8/8/8/8/8/4K3/R6R w - - 2 2");
}

#[test]
fn a_rook_away_from_its_own_corner_clears_nothing() {
    let mut board = Board::from_fen("4k2r/8/8/8/8/8/8/4K2R b Kk - 0 1").unwrap();
    board.apply_move(sq(8, 8), sq(8, 2)).unwrap();
    assert_eq!(board.castling_rights, [true, false, false, false]);
    // The white rook leaves a8, a corner of Black: no right goes.
    let mut other = Board::from_fen("R3k3/8/8/8/8/8/8/4K2R w Kq - 0 1").unwrap();
    other.apply_move(sq(1, 8), sq(1, 2)).unwrap();
    assert_eq!(other.castling_rights, [true, false, false, true]);
}

#[test]
fn en_passant_capture_removes_the_pawn() {
    let mut board = Board::from_fen("8/8/8/4pP2/8/8/8/8 w - e6 0 1").unwrap();
    board.apply_move(sq(6, 5), sq(5, 6)).unwrap();
    assert_eq!(board.get(sq(5, 5)), None);
    assert_eq!(board.get(sq(6, 5)), None);
    assert_eq!(
        board.get(sq(5, 6)),
        Some(Piece { piece_type: PieceType::Pawn, color: Color::White })
    );
    assert_eq!(board.en_passant, None);
    assert_eq!(board.to_fen(), "8/8/4P3/8/8/8/8/8 b - - 0 1");
}

#[test]
fn en_passant_capture_by_black() {
    let mut board = Board::from_fen("8/8/8/8/3Pp3/8/8/8 b - d3 0 1").unwrap();
    board.apply_move(sq(5, 4), sq(4, 3)).unwrap();
    assert_eq!(board.get(sq(4, 4)), None);
    assert_eq!(
        board.get(sq(4, 3)),
        Some(Piece { piece_type: PieceType::Pawn, color: Color::Black })
    );
    assert_eq!(board.to_fen(), "8/8/8/8/8/3p4/8/8 w - - 0 2");
}

#[test]
fn double_step_sets_the_en_passant_target() {
    let mut board = Board::from_fen(START).unwrap();
    board.apply_move(sq(5, 2), sq(5, 4)).unwrap();
    assert_eq!(board.en_passant, Some(sq(5, 3)));
    assert_eq!(
        board.to_fen(),
        "rnbqkbnr/pppppppp/8/8/4P3/8/PPPP1PPP/RNBQKBNR b KQkq e3 0 1"
    );
    board.apply_move(sq(3, 7), sq(3, 5)).unwrap();
    assert_eq!(board.en_passant, Some(sq(3, 6)));
    assert_eq!(
        board.to_fen(),
        "rnbqkbnr/pp1ppppp/8/2p5/4P3/8/PPPP1PPP/RNBQKBNR w KQkq c6 0 2"
    );
    board.apply_move(sq(7, 1), sq(6, 3)).unwrap();
    assert_eq!(board.en_passant, None);
    assert_eq!(
        board.to_fen(),
        "rnbqkbnr/pp1ppppp/8/2p5/4P3/5N2/PPPP1PPP/RNBQKB1R b KQkq - 1 2"
    );
}

#[test]
fn counters_follow_the_moves() {
    let mut board = Board::from_fen("4k3/8/8/8/8/8/8/R3K3 w - - 7 20").unwrap();
    board.apply_move(sq(1, 1), sq(1, 8)).unwrap();
    assert_eq!((board.halfmove_clock, board.fullmove_number), (8, 20));
    board.apply_move(sq(5, 8), sq(5, 7)).unwrap();
    assert_eq!((board.halfmove_clock, board.fullmove_number), (9, 21));
    let mut capture = Board::from_fen("r3k3/8/8/8/8/8/8/R3K3 w - - 7 20").unwrap();
    capture.apply_move(sq(1, 1), sq(1, 8)).unwrap();
    assert_eq!((capture.halfmove_clock, capture.fullmove_number), (0, 20));
    let mut full = Board::from_fen("4k3/8/8/8/8/8/8/R3K3 b - - 4294967295 4294967295").unwrap();
    full.apply_move(sq(5, 8), sq(5, 7)).unwrap();
    assert_eq!((full.halfmove_clock, full.fullmove_number), (u32::MAX, u32::MAX));
}

#[test]
fn fools_mate_is_checkmate() {
    let board =
        Board::from_fen("rnbqkbnr/pppp1ppp/8/4p3/6Pq/5P2/PPPPP2P/RNBQKBNR w KQkq - 1 3").unwrap();
    assert!(board.is_in_check());
    assert!(board.is_checkmate());
    assert!(!board.is_stalemate());
    assert!(board.generate_legal_moves().is_empty());
    assert_eq!(board.game_state(Color::White), GameState::Checkmate);
}

#[test]
fn queen_and_king_stalemate() {
    let board = Board::from_fen("7k/5Q2/6K1/8/8/8/8/8 b - - 0 1").unwrap();
    assert!(!board.is_in_check());
    assert!(board.is_stalemate());
    assert!(!board.is_checkmate());
    assert!(board.generate_legal_moves().is_empty());
    assert_eq!(board.game_state(Color::Black), GameState::Stalemate);
    assert_eq!(board.game_state(Color::White), GameState::Normal);
}

#[test]
fn check_with_an_escape_is_check() {
    let board = Board::from_fen("4k3/8/8/8/8/8/8/4K2r w - - 0 1").unwrap();
    assert_eq!(board.game_state(Color::White), GameState::Check);
    assert!(board.is_king_in_check(Color::White));
    assert!(!board.is_king_in_check(Color::Black));
}

#[test]
fn mate_and_stalemate_exclude_each_other() {
    for fen in [
        START,
        "rnbqkbnr/pppp1ppp/8/4p3/6Pq/5P2/PPPPP2P/RNBQKBNR w KQkq - 1 3",
        "7k/5Q2/6K1/8/8/8/8/8 b - - 0 1",
        "4k3/8/8/8/8/8/8/4K2r w - - 0 1",
        "1R4k1/5ppp/8/8/8/8/8/7K b - - 0 1",
        "8/8/8/8/8/8/8/8 w - - 0 1",
    ] {
        let board = Board::from_fen(fen).unwrap();
        let mate = board.is_checkmate();
        let stale = board.is_stalemate();
        assert!(!(mate && stale));
        if mate || stale {
            assert!(board.generate_legal_moves().is_empty());
        }
    }
}

#[test]
fn every_legal_move_keeps_the_king_safe() {
    for fen in [
        START,
        "r3k2r/8/8/8/8/8/8/R3K2R w KQkq - 0 1",
        "4k3/8/8/8/8/8/4B3/4K2r w - - 0 1",
        "r1bqkb1r/pppp1ppp/2n2n2/4p3/2B1P3/5N2/PPPP1PPP/RNBQK2R w KQkq - 4 4",
        "8/P6k/8/8/8/8/8/K7 w - - 0 1",
        "8/8/8/4pP2/8/8/8/4K2k w - e6 0 1",
    ] {
        let board = Board::from_fen(fen).unwrap();
        let mover = board.color_to_move;
        for (from, to) in board.generate_legal_moves() {
            let mut next = board;
            next.apply_move(from, to).unwrap();
            assert!(!next.is_king_in_check(mover));
        }
    }
}

#[test]
fn en_passant_may_uncover_the_king() {
    // The capture takes the pawn that shields the king from the rook.
    let mut board = Board::from_fen("8/8/8/K3pP1r/8/8/8/8 w - e6 0 1").unwrap();
    assert!(board.generate_legal_moves().contains(&(sq(6, 5), sq(5, 6))));
    board.apply_move(sq(6, 5), sq(5, 6)).unwrap();
    assert!(board.is_king_in_check(Color::White));
}

#[test]
fn a_side_without_king_is_not_in_check() {
    let board = Board::from_fen("8/8/8/3q4/8/8/8/8 w - - 0 1").unwrap();
    assert_eq!(board.find_king(Color::White), None);
    assert!(!board.is_in_check());
    assert!(board.is_stalemate());
    let with_pawn = Board::from_fen("8/8/8/3q4/8/8/P7/8 w - - 0 1").unwrap();
    assert_eq!(with_pawn.generate_legal_moves().len(), 2);
}

#[test]
fn find_king_takes_the_first_in_reading_order() {
    let board = Board::from_fen("4k3/8/8/2K5/8/8/6K1/8 w - - 0 1").unwrap();
    assert_eq!(board.find_king(Color::White), Some(sq(7, 2)));
    assert_eq!(board.find_king(Color::Black), Some(sq(5, 8)));
}
