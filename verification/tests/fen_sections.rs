use lark::board::defs::{Castling, Pieces, Sides, Squares, BB_RANKS};
use lark::board::fen::{
    castling, color, en_passant, full_move_number, half_move_clock, pieces, replace_dashes,
    split_fen_string, split_sections, FenError,
};
use lark::board::Board;

#[test]
fn default_position_is_the_starting_position() {
    let mut board = Board::new();
    assert_eq!(board.fen_read(None), Ok(()));
    assert_eq!(board.bb_side[Sides::WHITE], BB_RANKS[0] | BB_RANKS[1]);
    assert_eq!(board.bb_side[Sides::BLACK], BB_RANKS[6] | BB_RANKS[7]);
    assert_eq!(board.bb_pieces[Sides::WHITE][Pieces::PAWN], BB_RANKS[1]);
    assert_eq!(board.bb_pieces[Sides::BLACK][Pieces::KING], 1u64 << Squares::E8);
    assert_eq!(board.bb_pieces[Sides::WHITE][Pieces::QUEEN], 1u64 << Squares::D1);
    assert_eq!(board.state.material, [3900, 3900]);
}

#[test]
fn each_section_has_its_error() {
    let cases = [
        ("8/8/8/8/8/8/8/8 w - - 0", FenError::IncorrectLength),
        ("8/8/8/8/8/8/8/8 w - - 0 1 x", FenError::IncorrectLength),
        ("", FenError::IncorrectLength),
        ("8/8/8/8/8/8/8/7x w - - 0 1", FenError::PieceSection),
        ("9/8/8/8/8/8/8/8 w - - 0 1", FenError::PieceSection),
        ("7/8/8/8/8/8/8/8 w - - 0 1", FenError::PieceSection),
        ("ppppppppp/8/8/8/8/8/8/8 w - - 0 1", FenError::PieceSection),
        ("8/8/8/8/8/8/8/8/8 w - - 0 1", FenError::PieceSection),
        ("8/8/8/8/8/8/8/8 W - - 0 1", FenError::ColorSection),
        ("8/8/8/8/8/8/8/8 wb - - 0 1", FenError::ColorSection),
        ("8/8/8/8/8/8/8/8 w KX - 0 1", FenError::CastlingSection),
        ("8/8/8/8/8/8/8/8 w - e4 0 1", FenError::EnPassantSection),
        ("8/8/8/8/8/8/8/8 w - i3 0 1", FenError::EnPassantSection),
        ("8/8/8/8/8/8/8/8 w - x 0 1", FenError::EnPassantSection),
        ("8/8/8/8/8/8/8/8 w - - 101 1", FenError::HalfMoveClockSection),
        ("8/8/8/8/8/8/8/8 w - - x 1", FenError::HalfMoveClockSection),
        ("8/8/8/8/8/8/8/8 w - - 0010 1", FenError::HalfMoveClockSection),
        ("8/8/8/8/8/8/8/8 w - - 0 2049", FenError::FullMoveSection),
        ("8/8/8/8/8/8/8/8 w - - 0 +", FenError::FullMoveSection),
        ("8/8/8/8/8/8/8/8 w - - 0 -1", FenError::FullMoveSection),
    ];
    for (text, error) in cases {
        let mut board = Board::new();
        board.state.half_move_clock = 9;
        assert_eq!(board.fen_read(Some(text)), Err(error), "{}", text);
        assert_eq!(board.state.half_move_clock, 9);
        assert_eq!(board.bb_side, [0, 0]);
    }
}

#[test]
fn short_notation_and_dashes() {
    let mut board = Board::new();
    assert_eq!(board.fen_read(Some("4k3/8/8/8/8/8/8/4K2R b K \u{2013}")), Ok(()));
    assert_eq!(board.state.active_side, Sides::BLACK as u8);
    assert_eq!(board.state.castling, Castling::WK);
    assert_eq!(board.state.en_passant, None);
    assert_eq!(board.state.half_move_clock, 0);
    assert_eq!(board.state.full_move_number, 1);
    assert_eq!(board.bb_pieces[Sides::WHITE][Pieces::ROOK], 1u64 << Squares::H1);
    assert_eq!(board.bb_pieces[Sides::WHITE][Pieces::KING], 1u64 << Squares::E1);
    assert_eq!(board.bb_pieces[Sides::BLACK][Pieces::KING], 1u64 << Squares::E8);
    assert_eq!(board.state.material, [500, 0]);
}

#[test]
fn numbers_may_carry_a_plus_sign() {
    let mut board = Board::new();
    assert_eq!(board.fen_read(Some("8/8/8/8/8/8/8/8 w - h6 +99 2048")), Ok(()));
    assert_eq!(board.state.half_move_clock, 99);
    assert_eq!(board.state.full_move_number, 2048);
    assert_eq!(board.state.en_passant, Some(Squares::H6 as u8));
    assert_eq!(board.fen_read(Some("8/8/8/8/8/8/8/8 w - - 100 007")), Ok(()));
    assert_eq!(board.state.half_move_clock, 100);
    assert_eq!(board.state.full_move_number, 7);
    assert_eq!(board.state.en_passant, Some(Squares::H6 as u8));
}

#[test]
fn reading_adds_to_what_the_board_holds() {
    let mut board = Board::new();
    board.put_piece(Sides::WHITE, Pieces::QUEEN, Squares::A1);
    board.state.castling = Castling::BQ;
    assert_eq!(board.fen_read(Some("8/8/8/8/8/8/8/7R w K - 0 1")), Ok(()));
    assert_eq!(board.bb_side[Sides::WHITE], 0x81);
    assert_eq!(board.state.castling, Castling::BQ | Castling::WK);
    assert_eq!(board.state.material, [1400, 0]);
}

#[test]
fn text_is_split_at_its_spaces() {
    assert_eq!(replace_dashes("a \u{2013} b-".as_bytes()), b"a - b-".to_vec());
    assert_eq!(replace_dashes(&[0xE2, 0x80]), vec![0xE2, 0x80]);
    assert_eq!(
        split_sections(b"ab  c "),
        vec![b"ab".to_vec(), Vec::new(), b"c".to_vec(), Vec::new()]
    );
    assert_eq!(split_sections(b""), vec![Vec::<u8>::new()]);
    let parts = split_fen_string(Some("p w - -")).unwrap();
    assert_eq!(
        parts,
        vec![
            b"p".to_vec(),
            b"w".to_vec(),
            b"-".to_vec(),
            b"-".to_vec(),
            b"0".to_vec(),
            b"1".to_vec()
        ]
    );
    assert_eq!(split_fen_string(Some("a b c")).err(), Some(FenError::IncorrectLength));
    assert_eq!(split_fen_string(None).unwrap().len(), 6);
}

#[test]
fn sections_one_by_one() {
    let mut board = Board::new();
    assert_eq!(pieces(&mut board, b"k7/8/8/8/8/8/8/7K"), Ok(()));
    assert_eq!(board.bb_pieces[Sides::BLACK][Pieces::KING], 1u64 << Squares::A8);
    assert_eq!(board.bb_pieces[Sides::WHITE][Pieces::KING], 1u64 << Squares::H1);
    assert_eq!(board.bb_side, [0, 0]);
    assert_eq!(pieces(&mut board, b"8/8"), Ok(()));
    assert_eq!(pieces(&mut board, b"4Q3/9"), Err(FenError::PieceSection));
    assert_eq!(board.bb_pieces[Sides::WHITE][Pieces::QUEEN], 0);

    assert_eq!(color(&mut board, b"b"), Ok(()));
    assert_eq!(board.state.active_side, 1);
    assert_eq!(color(&mut board, b"w"), Ok(()));
    assert_eq!(board.state.active_side, 0);
    assert_eq!(color(&mut board, b""), Err(FenError::ColorSection));

    assert_eq!(castling(&mut board, b"Kq"), Ok(()));
    assert_eq!(board.state.castling, 9);
    assert_eq!(castling(&mut board, b"-"), Ok(()));
    assert_eq!(board.state.castling, 9);
    assert_eq!(castling(&mut board, b"KQkqK"), Ok(()));
    assert_eq!(castling(&mut board, b""), Ok(()));
    assert_eq!(board.state.castling, 9);
    assert_eq!(castling(&mut board, b"Qx"), Err(FenError::CastlingSection));
    assert_eq!(board.state.castling, 9);

    assert_eq!(en_passant(&mut board, b"c3"), Ok(()));
    assert_eq!(board.state.en_passant, Some(Squares::C3 as u8));
    assert_eq!(en_passant(&mut board, b"-"), Ok(()));
    assert_eq!(board.state.en_passant, Some(Squares::C3 as u8));
    assert_eq!(en_passant(&mut board, b"c4"), Err(FenError::EnPassantSection));

    assert_eq!(half_move_clock(&mut board, b"42"), Ok(()));
    assert_eq!(board.state.half_move_clock, 42);
    assert_eq!(half_move_clock(&mut board, b""), Err(FenError::HalfMoveClockSection));
    assert_eq!(full_move_number(&mut board, b"1999"), Ok(()));
    assert_eq!(board.state.full_move_number, 1999);
    assert_eq!(full_move_number(&mut board, b"12345"), Err(FenError::FullMoveSection));
    assert_eq!(FenError::ColorSection.message(), "Error in FEN Section: Colors");
}
