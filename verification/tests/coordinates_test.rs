use fenex::chess::board::coordinates::Coordinates;
use fenex::chess::board::notation::Notation;
use fenex::chess::error::ChessError;

#[test]
fn coordinates_keep_their_fields() {
    let c = Coordinates::new(5, 4);
    assert_eq!(c.x, 5);
    assert_eq!(c.y, 4);
    assert!(c.is_valid());
    let far = Coordinates::new(-3, 100);
    assert_eq!((far.x, far.y), (-3, 100));
}

#[test]
fn validity_is_the_range_one_to_eight() {
    assert!(Coordinates::new(1, 1).is_valid());
    assert!(Coordinates::new(8, 8).is_valid());
    assert!(!Coordinates::new(0, 1).is_valid());
    assert!(!Coordinates::new(1, 0).is_valid());
    assert!(!Coordinates::new(9, 8).is_valid());
    assert!(!Coordinates::new(8, 9).is_valid());
    assert!(!Coordinates::new(-1, -1).is_valid());
}

#[test]
fn linear_index_counts_rank_by_rank() {
    assert_eq!(Coordinates::new(1, 1).to_index(), Ok(0));
    assert_eq!(Coordinates::new(8, 1).to_index(), Ok(7));
    assert_eq!(Coordinates::new(1, 2).to_index(), Ok(8));
    assert_eq!(Coordinates::new(5, 4).to_index(), Ok(28));
    assert_eq!(Coordinates::new(8, 8).to_index(), Ok(63));
    assert_eq!(Coordinates::new(0, 1).to_index(), Err(ChessError::OutOfBounds));
    assert_eq!(Coordinates::new(9, 1).to_index(), Err(ChessError::OutOfBounds));
    assert_eq!(Coordinates::new(1, 0).to_index(), Err(ChessError::OutOfBounds));
    assert_eq!(Coordinates::new(1, 9).to_index(), Err(ChessError::OutOfBounds));
}

#[test]
fn from_index_inverts_to_index() {
    for i in 0..64usize {
        let c = Coordinates::from_index(i);
        assert!(c.is_valid());
        assert_eq!(c.to_index(), Ok(i));
    }
    assert_eq!(Coordinates::from_index(28), Coordinates::new(5, 4));
    assert_eq!(Coordinates::from_index(64), Coordinates::new(1, 9));
    assert_eq!(Coordinates::from_index(71), Coordinates::new(8, 9));
    // 2047 / 8 + 1 is 256, which is 0 in eight bits.
    assert_eq!(Coordinates::from_index(2047), Coordinates::new(8, 0));
}

#[test]
fn from_string_reads_a_pair() {
    assert_eq!(Coordinates::from_string("5,4"), Ok(Coordinates::new(5, 4)));
    assert_eq!(Coordinates::from_string(" 1 ,\t8 "), Ok(Coordinates::new(1, 8)));
    assert_eq!(Coordinates::from_string("+3,007"), Ok(Coordinates::new(3, 7)));
}

#[test]
fn from_string_refuses_what_is_no_pair() {
    assert_eq!(Coordinates::from_string(""), Err(ChessError::ParseError));
    assert_eq!(Coordinates::from_string("54"), Err(ChessError::ParseError));
    assert_eq!(Coordinates::from_string("5,4,3"), Err(ChessError::ParseError));
    assert_eq!(Coordinates::from_string("a,4"), Err(ChessError::ParseError));
    assert_eq!(Coordinates::from_string("5,"), Err(ChessError::ParseError));
    assert_eq!(Coordinates::from_string(",4"), Err(ChessError::ParseError));
    assert_eq!(Coordinates::from_string("5 5,4"), Err(ChessError::ParseError));
    assert_eq!(Coordinates::from_string("5,+"), Err(ChessError::ParseError));
    assert_eq!(Coordinates::from_string("5,-"), Err(ChessError::ParseError));
    assert_eq!(Coordinates::from_string("128,4"), Err(ChessError::ParseError));
    assert_eq!(Coordinates::from_string("4,-129"), Err(ChessError::ParseError));
}

#[test]
fn from_string_refuses_what_is_off_the_board() {
    assert_eq!(Coordinates::from_string("0,4"), Err(ChessError::OutOfBounds));
    assert_eq!(Coordinates::from_string("9,4"), Err(ChessError::OutOfBounds));
    assert_eq!(Coordinates::from_string("4,0"), Err(ChessError::OutOfBounds));
    assert_eq!(Coordinates::from_string("4,9"), Err(ChessError::OutOfBounds));
    assert_eq!(Coordinates::from_string("-1,4"), Err(ChessError::OutOfBounds));
    assert_eq!(Coordinates::from_string("127,-128"), Err(ChessError::OutOfBounds));
    assert_eq!(Coordinates::from_string("-0,4"), Err(ChessError::OutOfBounds));
}

#[test]
fn from_notation_string_reads_a_square_name() {
    assert_eq!(Coordinates::from_notation_string("e4"), Ok(Coordinates::new(5, 4)));
    assert_eq!(Coordinates::from_notation_string("E4"), Ok(Coordinates::new(5, 4)));
    assert_eq!(Coordinates::from_notation_string("a1"), Ok(Coordinates::new(1, 1)));
    assert_eq!(Coordinates::from_notation_string("h8"), Ok(Coordinates::new(8, 8)));
    assert_eq!(Coordinates::from_notation_string("H1"), Ok(Coordinates::new(8, 1)));
    for bad in ["", "e", "e44", "i4", "e9", "e0", "4e", "ex", " e4", "\u{e9}"] {
        assert_eq!(Coordinates::from_notation_string(bad), Err(ChessError::ParseError));
    }
}

#[test]
fn to_string_writes_file_and_rank_raised_by_one() {
    assert_eq!(Coordinates::new(5, 4).to_string(), "65");
    assert_eq!(Coordinates::new(1, 1).to_string(), "22");
    assert_eq!(Coordinates::new(8, 8).to_string(), "99");
    assert_eq!(Coordinates::new(9, 10).to_string(), "1011");
    assert_eq!(Coordinates::new(-1, 0).to_string(), "01");
    assert_eq!(Coordinates::new(-5, -128).to_string(), "-4-127");
    assert_eq!(Coordinates::new(127, 99).to_string(), "128100");
}

#[test]
fn notation_and_coordinates_convert() {
    let e4 = Notation { file: 'e', rank: '4' };
    assert_eq!(Coordinates::from_notation(e4), Ok(Coordinates::new(5, 4)));
    assert_eq!(Coordinates::new(5, 4).to_notation(), Ok(e4));
    assert_eq!(Coordinates::new(1, 8).to_notation(), Ok(Notation { file: 'a', rank: '8' }));
    assert_eq!(Coordinates::new(0, 4).to_notation(), Err(ChessError::OutOfBounds));
    assert_eq!(Coordinates::new(4, 9).to_notation(), Err(ChessError::OutOfBounds));
    assert_eq!(
        Coordinates::from_notation(Notation { file: 'i', rank: '4' }),
        Err(ChessError::OutOfBounds)
    );
    assert_eq!(
        Coordinates::from_notation(Notation { file: 'e', rank: '9' }),
        Err(ChessError::OutOfBounds)
    );
    for x in 1..=8 {
        for y in 1..=8 {
            let c = Coordinates::new(x, y);
            assert_eq!(Coordinates::from_notation(c.to_notation().unwrap()), Ok(c));
        }
    }
}

#[test]
fn lines_between_squares() {
    let e4 = Coordinates::new(5, 4);
    assert!(e4.is_diagonal(Coordinates::new(8, 7)));
    assert!(e4.is_diagonal(Coordinates::new(2, 7)));
    assert!(e4.is_diagonal(e4));
    assert!(!e4.is_diagonal(Coordinates::new(5, 7)));
    assert!(e4.is_straight(Coordinates::new(5, 7)));
    assert!(e4.is_straight(Coordinates::new(1, 4)));
    assert!(e4.is_straight(e4));
    assert!(!e4.is_straight(Coordinates::new(6, 5)));
    assert!(e4.is_adjacent(Coordinates::new(6, 5)));
    assert!(e4.is_adjacent(Coordinates::new(5, 3)));
    assert!(e4.is_adjacent(e4));
    assert!(!e4.is_adjacent(Coordinates::new(7, 4)));
    // Far apart, beyond what eight bits can subtract.
    assert!(Coordinates::new(127, 127).is_diagonal(Coordinates::new(-128, -128)));
    assert!(!Coordinates::new(127, 0).is_adjacent(Coordinates::new(-128, 0)));
}

#[test]
fn notation_is_built_from_letter_and_digit() {
    assert_eq!(Notation::new('e', '4'), Ok(Notation { file: 'e', rank: '4' }));
    assert_eq!(Notation::new('z', '0'), Ok(Notation { file: 'z', rank: '0' }));
    assert_eq!(Notation::new('E', '4'), Err(ChessError::ParseError));
    assert_eq!(Notation::new('e', 'x'), Err(ChessError::ParseError));
    assert_eq!(Notation::new('4', 'e'), Err(ChessError::ParseError));
    assert_eq!(Notation::from_char('e', '4'), Some(Notation { file: 'e', rank: '4' }));
    assert_eq!(Notation::from_char('E', '4'), None);
    assert_eq!(Notation::from_char('e', ' '), None);
}

#[test]
fn notation_reads_and_writes_text() {
    assert_eq!(Notation::from_string("e4"), Ok(Notation { file: 'e', rank: '4' }));
    assert_eq!(Notation::from_string("z9"), Ok(Notation { file: 'z', rank: '9' }));
    for bad in ["", "e", "e44", "E4", "4e", "e "] {
        assert_eq!(Notation::from_string(bad), Err(ChessError::ParseError));
    }
    assert_eq!(Notation { file: 'e', rank: '4' }.to_string(), "e4");
    assert_eq!(Notation { file: 'h', rank: '8' }.to_string(), "h8");
}

#[test]
fn notation_converts_to_and_from_squares() {
    assert_eq!(
        Notation::from_coordinates(Coordinates::new(5, 4)),
        Ok(Notation { file: 'e', rank: '4' })
    );
    assert_eq!(
        Notation::from_coordinates(Coordinates::new(8, 1)),
        Ok(Notation { file: 'h', rank: '1' })
    );
    assert_eq!(Notation::from_coordinates(Coordinates::new(9, 1)), Err(ChessError::OutOfBounds));
    assert_eq!(Notation { file: 'a', rank: '1' }.to_coordinates(), Ok(Coordinates::new(1, 1)));
    assert_eq!(Notation { file: 'h', rank: '8' }.to_coordinates(), Ok(Coordinates::new(8, 8)));
    assert_eq!(Notation { file: 'z', rank: '4' }.to_coordinates(), Err(ChessError::OutOfBounds));
    assert_eq!(Notation { file: 'a', rank: '0' }.to_coordinates(), Err(ChessError::OutOfBounds));
    assert_eq!(Notation { file: 'a', rank: '9' }.to_coordinates(), Err(ChessError::OutOfBounds));
    assert_eq!(Notation::from_coordinates_string("5,4"), Ok(Notation { file: 'e', rank: '4' }));
    assert_eq!(Notation::from_coordinates_string("5;4"), Err(ChessError::ParseError));
    assert_eq!(Notation::from_coordinates_string("9,4"), Err(ChessError::OutOfBounds));
}
