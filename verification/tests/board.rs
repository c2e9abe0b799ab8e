use lark::board::defs::{Pieces, Ranks, Sides, Squares, BB_RANKS, BB_SQUARES, PIECE_VALUES};
use lark::board::Board;

#[test]
fn test_board_new_makes_empty_board() {
    let board = Board::new();
    assert_eq!(board.bb_side[Sides::WHITE], 0);
    assert_eq!(board.bb_side[Sides::BLACK], 0);

    let bb_w = board.bb_pieces[Sides::WHITE];
    let bb_b = board.bb_pieces[Sides::BLACK];

    for (w, b) in bb_w.iter().zip(bb_b.iter()) {
        assert_eq!(*w, 0);
        assert_eq!(*b, 0);
    }
}

#[test]
fn test_board_current_side() {
    let mut board = Board::new();
    board.state.active_side = Sides::WHITE as u8;
    assert_eq!(board.current_side(), Sides::WHITE);
    board.state.active_side = Sides::BLACK as u8;
    assert_eq!(board.current_side(), Sides::BLACK);
}

#[test]
fn test_board_opponent() {
    let mut board = Board::new();
    board.state.active_side = Sides::WHITE as u8;
    assert_eq!(board.opponent(), Sides::BLACK);
    board.state.active_side = Sides::BLACK as u8;
    assert_eq!(board.opponent(), Sides::WHITE);
}

#[test]
fn test_board_init() {
    // Create a new board and manually set up the normal starting position.
    let mut board = Board::new();

    // Pawns
    board.bb_pieces[Sides::WHITE][Pieces::PAWN] |= BB_RANKS[Ranks::R2];
    board.bb_pieces[Sides::BLACK][Pieces::PAWN] |= BB_RANKS[Ranks::R7];

    // Rooks
    board.bb_pieces[Sides::WHITE][Pieces::ROOK] |= Squares::bb_of(&[Squares::A1, Squares::H1]);
    board.bb_pieces[Sides::BLACK][Pieces::ROOK] |= Squares::bb_of(&[Squares::A8, Squares::H8]);

    // Knights
    board.bb_pieces[Sides::WHITE][Pieces::KNIGHT] |=
        Squares::bb_of(&[Squares::B1, Squares::G1]);
    board.bb_pieces[Sides::BLACK][Pieces::KNIGHT] |=
        Squares::bb_of(&[Squares::B8, Squares::G8]);

    // Bishops
    board.bb_pieces[Sides::WHITE][Pieces::BISHOP] |=
        Squares::bb_of(&[Squares::C1, Squares::F1]);
    board.bb_pieces[Sides::BLACK][Pieces::BISHOP] |=
        Squares::bb_of(&[Squares::C8, Squares::F8]);

    // Queens
    board.bb_pieces[Sides::WHITE][Pieces::QUEEN] |= BB_SQUARES[Squares::D1];
    board.bb_pieces[Sides::BLACK][Pieces::QUEEN] |= BB_SQUARES[Squares::D8];

    // Kings
    board.bb_pieces[Sides::WHITE][Pieces::KING] |= BB_SQUARES[Squares::E1];
    board.bb_pieces[Sides::BLACK][Pieces::KING] |= BB_SQUARES[Squares::E8];

    board.init();

    // Total material for the standard starting position is 3900
    assert_eq!(board.state.material[Sides::WHITE], 3900);
    assert_eq!(board.state.material[Sides::BLACK], 3900);

    // Ranks 1-2 and 7-8 should be completely full of pieces after init()
    assert_eq!(
        board.bb_side[Sides::WHITE] & BB_RANKS[Ranks::R1],
        BB_RANKS[Ranks::R1]
    );
    assert_eq!(
        board.bb_side[Sides::WHITE] & BB_RANKS[Ranks::R2],
        BB_RANKS[Ranks::R2]
    );
    assert_eq!(
        board.bb_side[Sides::BLACK] & BB_RANKS[Ranks::R7],
        BB_RANKS[Ranks::R7]
    );
    assert_eq!(
        board.bb_side[Sides::BLACK] & BB_RANKS[Ranks::R8],
        BB_RANKS[Ranks::R8]
    );
}

#[test]
fn test_board_put_piece() {
    let mut board = Board::new();

    // Add a piece for white.
    assert!(board.bb_pieces[Sides::WHITE][Pieces::QUEEN] & BB_SQUARES[Squares::F1] == 0);
    board.put_piece(Sides::WHITE, Pieces::QUEEN, Squares::F1);
    assert!(board.bb_pieces[Sides::WHITE][Pieces::QUEEN] & BB_SQUARES[Squares::F1] > 0);

    assert_eq!(
        board.state.material[Sides::WHITE],
        PIECE_VALUES[Pieces::QUEEN]
    );

    // Add a piece for black.
    assert!(board.bb_pieces[Sides::BLACK][Pieces::ROOK] & BB_SQUARES[Squares::H1] == 0);
    board.put_piece(Sides::BLACK, Pieces::ROOK, Squares::H1);
    assert!(board.bb_pieces[Sides::BLACK][Pieces::ROOK] & BB_SQUARES[Squares::H1] > 0);

    assert_eq!(
        board.state.material[Sides::BLACK],
        PIECE_VALUES[Pieces::ROOK]
    );
}


#[test]
fn test_board_remove_piece() {
    let mut board = Board::new();

    // Add a piece for white.
    board.bb_pieces[Sides::WHITE][Pieces::QUEEN] |= BB_SQUARES[Squares::F1];

    // Add a piece for black.
    board.bb_pieces[Sides::BLACK][Pieces::ROOK] |= BB_SQUARES[Squares::H1];

    board.init();

    assert_eq!(
        board.state.material[Sides::WHITE],
        PIECE_VALUES[Pieces::QUEEN]
    );
    assert_eq!(
        board.state.material[Sides::BLACK],
        PIECE_VALUES[Pieces::ROOK]
    );

    board.remove_piece(Sides::WHITE, Pieces::QUEEN, Squares::F1);
    board.remove_piece(Sides::BLACK, Pieces::ROOK, Squares::H1);

    assert_eq!(board.state.material[Sides::WHITE], 0);
    assert_eq!(board.state.material[Sides::BLACK], 0);
    assert_eq!(board.bb_side[Sides::WHITE], 0);
    assert_eq!(board.bb_side[Sides::BLACK], 0);
}

#[test]
fn test_board_move_piece() {
    let mut board = Board::new();

    board.put_piece(Sides::WHITE, Pieces::PAWN, Squares::D2);

    // Play the move D4
    board.move_piece(Sides::WHITE, Pieces::PAWN, Squares::D2, Squares::D4);

    assert!(board.bb_pieces[Sides::WHITE][Pieces::PAWN] & BB_SQUARES[Squares::D4] > 0);
    assert!(board.bb_pieces[Sides::WHITE][Pieces::PAWN] & BB_SQUARES[Squares::D2] == 0);
}
