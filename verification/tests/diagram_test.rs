use fenex::chess::board::board::Board;
use fenex::chess::board::fen::Fen;

#[test]
fn board_is_drawn_from_the_eighth_rank_down() {
    let board = Board::from_fen("r3k3/8/8/8/8/8/8/4K2R w - - 0 1").unwrap();
    let expected = "8 [r][ ][ ][ ][k][ ][ ][ ]\n\
                    7 [ ][ ][ ][ ][ ][ ][ ][ ]\n\
                    6 [ ][ ][ ][ ][ ][ ][ ][ ]\n\
                    5 [ ][ ][ ][ ][ ][ ][ ][ ]\n\
                    4 [ ][ ][ ][ ][ ][ ][ ][ ]\n\
                    3 [ ][ ][ ][ ][ ][ ][ ][ ]\n\
                    2 [ ][ ][ ][ ][ ][ ][ ][ ]\n\
                    1 [ ][ ][ ][ ][K][ ][ ][R]\n   \
                    a  b  c  d  e  f  g  h\n";
    assert_eq!(board.diagram(), expected);
}

#[test]
fn board_is_drawn_with_letters_on_top() {
    let board = Board::from_fen("8/8/8/8/8/8/8/Q7 w - - 0 1").unwrap();
    let text = board.diagram_with_labels();
    let lines: Vec<&str> = text.lines().collect();
    assert_eq!(lines.len(), 9);
    assert_eq!(lines[0], "   a  b  c  d  e  f  g  h");
    assert_eq!(lines[1], "8 [ ][ ][ ][ ][ ][ ][ ][ ]");
    assert_eq!(lines[8], "1 [Q][ ][ ][ ][ ][ ][ ][ ]");
    assert!(text.ends_with('\n'));
}

#[test]
fn grid_is_drawn_from_the_first_rank_up() {
    let board = Board::from_fen("7q/8/8/8/8/8/8/Q7 w - - 0 1").unwrap();
    let text = board.grid();
    let lines: Vec<&str> = text.lines().collect();
    assert_eq!(lines.len(), 8);
    assert_eq!(lines[0], "[Q][ ][ ][ ][ ][ ][ ][ ]");
    assert_eq!(lines[3], "[ ][ ][ ][ ][ ][ ][ ][ ]");
    assert_eq!(lines[7], "[ ][ ][ ][ ][ ][ ][ ][q]");
}

#[test]
fn placement_is_drawn_in_braces() {
    let fen = Fen::new("r2k/8/P1P");
    assert_eq!(
        fen.boardify(),
        "{P} { }  {P} \n{ } { } { } { } { } { } { } { }  \n{r} { } { }  {k} \n"
    );
    assert_eq!(Fen::new("").boardify(), "\n");
    assert_eq!(Fen::new("K/").boardify(), "\n{K} \n");
    assert_eq!(Fen::new("/").boardify(), "\n\n");
    assert_eq!(Fen::new("x9").boardify(), "{x} {9} \n");
}

#[test]
fn placement_is_drawn_in_brackets() {
    let fen = Fen::parse_fen("r2k/8/P1P b - - 0 1").unwrap();
    assert_eq!(
        fen.diagram(),
        "8 [r][ ][ ][k]\n7 [ ][ ][ ][ ][ ][ ][ ][ ]\n6 [P][ ][P]\n   \
         a  b  c  d  e  f  g  h\nBlack's turn\n"
    );
    let white = Fen::parse_fen("K7 w").unwrap();
    assert_eq!(white.diagram(), "8 [K][ ][ ][ ][ ][ ][ ][ ]\n   a  b  c  d  e  f  g  h\nWhite's turn\n");
    let unknown = Fen::new("8/8/8/8/8/8/8/8/x");
    let text = unknown.diagram();
    let lines: Vec<&str> = text.lines().collect();
    assert_eq!(lines.len(), 11);
    assert_eq!(lines[8], "0 [x]");
    assert_eq!(lines[10], "Unknown");
}
