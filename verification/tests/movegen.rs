use lark::board::defs::{Castling, Pieces, Sides, Square, Squares};
use lark::board::Board;
use lark::movegen::defs::Move;
use lark::movegen::MoveGenerator;

#[test]
fn king_moves_white() {
    generate_king_moves(Sides::WHITE)
}

#[test]
fn king_moves_edge_of_board_white() {
    generate_king_moves_edge_of_board(Sides::WHITE)
}

#[test]
fn knight_moves_white() {
    generate_knight_moves(Sides::WHITE)
}

#[test]
fn knight_moves_edge_of_board_white() {
    generate_knight_moves_edge_of_board(Sides::WHITE)
}

#[test]
fn rook_moves_white() {
    generate_rook_moves(Sides::WHITE)
}

#[test]
fn rook_moves_with_collisions_white() {
    generate_rook_moves_with_collisions(Sides::WHITE)
}

#[test]
fn rook_moves_with_captures_white() {
    generate_rook_moves_with_captures(Sides::WHITE)
}

#[test]
fn bishop_moves_white() {
    generate_bishop_moves(Sides::WHITE)
}

#[test]
fn bishop_moves_with_collisions_white() {
    generate_bishop_moves_with_collisions(Sides::WHITE)
}

#[test]
fn bishop_moves_with_captures_white() {
    generate_bishop_moves_with_captures(Sides::WHITE)
}

#[test]
fn queen_moves_white() {
    generate_queen_moves(Sides::WHITE)
}

#[test]
fn queen_moves_with_collisions_white() {
    generate_queen_moves_with_collisions(Sides::WHITE)
}

#[test]
fn queen_moves_with_captures_white() {
    generate_queen_moves_with_captures(Sides::WHITE)
}

#[test]
fn king_moves_black() {
    generate_king_moves(Sides::BLACK)
}

#[test]
fn king_moves_edge_of_board_black() {
    generate_king_moves_edge_of_board(Sides::BLACK)
}

#[test]
fn knight_moves_black() {
    generate_knight_moves(Sides::BLACK)
}

#[test]
fn knight_moves_edge_of_board_black() {
    generate_knight_moves_edge_of_board(Sides::BLACK)
}

#[test]
fn rook_moves_black() {
    generate_rook_moves(Sides::BLACK)
}

#[test]
fn rook_moves_with_collisions_black() {
    generate_rook_moves_with_collisions(Sides::BLACK)
}

#[test]
fn rook_moves_with_captures_black() {
    generate_rook_moves_with_captures(Sides::BLACK)
}

#[test]
fn bishop_moves_black() {
    generate_bishop_moves(Sides::BLACK)
}

#[test]
fn bishop_moves_with_collisions_black() {
    generate_bishop_moves_with_collisions(Sides::BLACK)
}

#[test]
fn bishop_moves_with_captures_black() {
    generate_bishop_moves_with_captures(Sides::BLACK)
}

#[test]
fn queen_moves_black() {
    generate_queen_moves(Sides::BLACK)
}

#[test]
fn queen_moves_with_collisions_black() {
    generate_queen_moves_with_collisions(Sides::BLACK)
}

#[test]
fn queen_moves_with_captures_black() {
    generate_queen_moves_with_captures(Sides::BLACK)
}

// Need to manually test pawns for each side since they move in different directions and
// capture in different directions.

#[test]
fn test_generate_pawn_moves_white() {
    let mut board = Board::new();
    board.put_piece(Sides::WHITE, Pieces::PAWN, Squares::D2);
    board.put_piece(Sides::WHITE, Pieces::PAWN, Squares::E4);

    board.put_piece(Sides::BLACK, Pieces::PAWN, Squares::D5);

    board.state.active_side = Sides::WHITE as u8;

    let mg = MoveGenerator::new().unwrap();
    let mut move_list: Vec<Move> = Vec::new();
    mg.generate_moves(&board, &mut move_list);

    let mut expected_sq = Vec::from([Squares::D3, Squares::D4, Squares::E5, Squares::D5]);

    // There should be 8 total moves
    assert_eq!(move_list.len(), expected_sq.len());

    for mv in move_list {
        assert!(Vec::from([Squares::D2, Squares::E4]).contains(&mv.from()));
        assert!(expected_sq.contains(&mv.to()));

        // Remove the square from the expected_sq
        expected_sq.retain(|&x| x != mv.to());
    }

    // By now expected_sq should be empty.
    assert_eq!(expected_sq.len(), 0);
}

#[test]
fn test_generate_pawn_moves_black() {
    let mut board = Board::new();
    board.put_piece(Sides::BLACK, Pieces::PAWN, Squares::E7);
    board.put_piece(Sides::BLACK, Pieces::PAWN, Squares::D5);

    board.put_piece(Sides::WHITE, Pieces::PAWN, Squares::E4);

    board.state.active_side = Sides::BLACK as u8;

    let mg = MoveGenerator::new().unwrap();
    let mut move_list: Vec<Move> = Vec::new();
    mg.generate_moves(&board, &mut move_list);

    let mut expected_sq = Vec::from([Squares::E6, Squares::E5, Squares::D4, Squares::E4]);

    // There should be 8 total moves
    assert_eq!(move_list.len(), expected_sq.len());

    for mv in move_list {
        assert!(Vec::from([Squares::E7, Squares::D5]).contains(&mv.from()));
        assert!(expected_sq.contains(&mv.to()));

        // Remove the square from the expected_sq
        expected_sq.retain(|&x| x != mv.to());
    }

    // By now expected_sq should be empty.
    assert_eq!(expected_sq.len(), 0);
}

#[test]
fn test_generate_castling_moves_white() {
    let mut board = Board::new();
    board.state.castling = Castling::WK | Castling::WQ;

    board.put_piece(Sides::WHITE, Pieces::KING, Squares::E1);
    board.put_piece(Sides::WHITE, Pieces::ROOK, Squares::H1);
    board.put_piece(Sides::WHITE, Pieces::ROOK, Squares::A1);

    board.state.active_side = Sides::WHITE as u8;

    let mg = MoveGenerator::new().unwrap();
    let mut move_list: Vec<Move> = Vec::new();
    mg.generate_moves(&board, &mut move_list);

    // Discard all non-king moves.
    move_list.retain(|mv| mv.piece() == Pieces::KING);
    let destinations: Vec<Square> = move_list.iter().map(|mv| mv.to()).collect();

    assert!(destinations.contains(&Squares::C1));
    assert!(destinations.contains(&Squares::G1));
}

#[test]
fn test_generate_castling_moves_white_no_permissions() {
    let mut board = Board::new();
    board.state.castling = 0;

    board.put_piece(Sides::WHITE, Pieces::KING, Squares::E1);
    board.put_piece(Sides::WHITE, Pieces::ROOK, Squares::H1);
    board.put_piece(Sides::WHITE, Pieces::ROOK, Squares::A1);

    board.state.active_side = Sides::WHITE as u8;

    let mg = MoveGenerator::new().unwrap();
    let mut move_list: Vec<Move> = Vec::new();
    mg.generate_moves(&board, &mut move_list);

    // Discard all non-king moves.
    move_list.retain(|mv| mv.piece() == Pieces::KING);
    let destinations: Vec<Square> = move_list.iter().map(|mv| mv.to()).collect();

    assert!(!destinations.contains(&Squares::C1));
    assert!(!destinations.contains(&Squares::G1));
}

#[test]
fn test_generate_castling_moves_white_kingside_attacker() {
    let mut board = Board::new();
    board.state.castling = Castling::WK | Castling::WQ;

    board.put_piece(Sides::WHITE, Pieces::KING, Squares::E1);
    board.put_piece(Sides::WHITE, Pieces::ROOK, Squares::H1);
    board.put_piece(Sides::WHITE, Pieces::ROOK, Squares::A1);
    board.put_piece(Sides::BLACK, Pieces::ROOK, Squares::F8);

    board.state.active_side = Sides::WHITE as u8;

    let mg = MoveGenerator::new().unwrap();
    let mut move_list: Vec<Move> = Vec::new();
    mg.generate_moves(&board, &mut move_list);

    // Discard all non-king moves.
    move_list.retain(|mv| mv.piece() == Pieces::KING);
    let destinations: Vec<Square> = move_list.iter().map(|mv| mv.to()).collect();

    assert!(destinations.contains(&Squares::C1));
    assert!(!destinations.contains(&Squares::G1));
}

#[test]
fn test_generate_castling_moves_white_queenside_attacker() {
    let mut board = Board::new();
    board.state.castling = Castling::WK | Castling::WQ;

    board.put_piece(Sides::WHITE, Pieces::KING, Squares::E1);
    board.put_piece(Sides::WHITE, Pieces::ROOK, Squares::H1);
    board.put_piece(Sides::WHITE, Pieces::ROOK, Squares::A1);
    board.put_piece(Sides::BLACK, Pieces::QUEEN, Squares::D8);

    board.state.active_side = Sides::WHITE as u8;

    let mg = MoveGenerator::new().unwrap();
    let mut move_list: Vec<Move> = Vec::new();
    mg.generate_moves(&board, &mut move_list);

    // Discard all non-king moves.
    move_list.retain(|mv| mv.piece() == Pieces::KING);
    let destinations: Vec<Square> = move_list.iter().map(|mv| mv.to()).collect();

    assert!(!destinations.contains(&Squares::C1));
    assert!(destinations.contains(&Squares::G1));
}

#[test]
fn test_generate_castling_moves_white_king_in_check() {
    let mut board = Board::new();
    board.state.castling = Castling::WK | Castling::WQ;

    board.put_piece(Sides::WHITE, Pieces::KING, Squares::E1);
    board.put_piece(Sides::WHITE, Pieces::ROOK, Squares::H1);
    board.put_piece(Sides::WHITE, Pieces::ROOK, Squares::A1);
    board.put_piece(Sides::BLACK, Pieces::QUEEN, Squares::E8);

    board.state.active_side = Sides::WHITE as u8;

    let mg = MoveGenerator::new().unwrap();
    let mut move_list: Vec<Move> = Vec::new();
    mg.generate_moves(&board, &mut move_list);

    // Discard all non-king moves.
    move_list.retain(|mv| mv.piece() == Pieces::KING);
    let destinations: Vec<Square> = move_list.iter().map(|mv| mv.to()).collect();

    assert!(!destinations.contains(&Squares::C1));
    assert!(!destinations.contains(&Squares::G1));
}

#[test]
fn test_generate_castling_moves_black() {
    let mut board = Board::new();
    board.state.castling = Castling::BK | Castling::BQ;

    board.put_piece(Sides::BLACK, Pieces::KING, Squares::E8);
    board.put_piece(Sides::BLACK, Pieces::ROOK, Squares::H8);
    board.put_piece(Sides::BLACK, Pieces::ROOK, Squares::A8);

    board.state.active_side = Sides::BLACK as u8;

    let mg = MoveGenerator::new().unwrap();
    let mut move_list: Vec<Move> = Vec::new();
    mg.generate_moves(&board, &mut move_list);

    // Discard all non-king moves.
    move_list.retain(|mv| mv.piece() == Pieces::KING);
    let destinations: Vec<Square> = move_list.iter().map(|mv| mv.to()).collect();

    assert!(destinations.contains(&Squares::C8));
    assert!(destinations.contains(&Squares::G8));
}

#[test]
fn test_generate_castling_moves_black_kingside_attacker() {
    let mut board = Board::new();
    board.state.castling = Castling::BK | Castling::BQ;

    board.put_piece(Sides::BLACK, Pieces::KING, Squares::E8);
    board.put_piece(Sides::BLACK, Pieces::ROOK, Squares::H8);
    board.put_piece(Sides::BLACK, Pieces::ROOK, Squares::A8);
    board.put_piece(Sides::WHITE, Pieces::ROOK, Squares::F1);

    board.state.active_side = Sides::BLACK as u8;

    let mg = MoveGenerator::new().unwrap();
    let mut move_list: Vec<Move> = Vec::new();
    mg.generate_moves(&board, &mut move_list);

    // Discard all non-king moves.
    move_list.retain(|mv| mv.piece() == Pieces::KING);
    let destinations: Vec<Square> = move_list.iter().map(|mv| mv.to()).collect();

    assert!(destinations.contains(&Squares::C8));
    assert!(!destinations.contains(&Squares::G8));
}

#[test]
fn test_generate_castling_moves_black_queenside_attacker() {
    let mut board = Board::new();
    board.state.castling = Castling::BK | Castling::BQ;

    board.put_piece(Sides::BLACK, Pieces::KING, Squares::E8);
    board.put_piece(Sides::BLACK, Pieces::ROOK, Squares::H8);
    board.put_piece(Sides::BLACK, Pieces::ROOK, Squares::A8);
    board.put_piece(Sides::WHITE, Pieces::QUEEN, Squares::D1);

    board.state.active_side = Sides::BLACK as u8;

    let mg = MoveGenerator::new().unwrap();
    let mut move_list: Vec<Move> = Vec::new();
    mg.generate_moves(&board, &mut move_list);

    // Discard all non-king moves.
    move_list.retain(|mv| mv.piece() == Pieces::KING);
    let destinations: Vec<Square> = move_list.iter().map(|mv| mv.to()).collect();

    assert!(!destinations.contains(&Squares::C8));
    assert!(destinations.contains(&Squares::G8));
}

#[test]
fn test_generate_castling_moves_black_king_in_check() {
    let mut board = Board::new();
    board.state.castling = Castling::BK | Castling::BQ;

    board.put_piece(Sides::BLACK, Pieces::KING, Squares::E8);
    board.put_piece(Sides::BLACK, Pieces::ROOK, Squares::H8);
    board.put_piece(Sides::BLACK, Pieces::ROOK, Squares::A8);
    board.put_piece(Sides::WHITE, Pieces::QUEEN, Squares::E1);

    board.state.active_side = Sides::BLACK as u8;

    let mg = MoveGenerator::new().unwrap();
    let mut move_list: Vec<Move> = Vec::new();
    mg.generate_moves(&board, &mut move_list);

    // Discard all non-king moves.
    move_list.retain(|mv| mv.piece() == Pieces::KING);
    let destinations: Vec<Square> = move_list.iter().map(|mv| mv.to()).collect();

    assert!(!destinations.contains(&Squares::C8));
    assert!(!destinations.contains(&Squares::G8));
}

#[test]
fn test_generate_castling_moves_black_no_permissions() {
    let mut board = Board::new();
    board.state.castling = 0;

    board.put_piece(Sides::BLACK, Pieces::KING, Squares::E8);
    board.put_piece(Sides::BLACK, Pieces::ROOK, Squares::H8);
    board.put_piece(Sides::BLACK, Pieces::ROOK, Squares::A8);

    board.state.active_side = Sides::BLACK as u8;

    let mg = MoveGenerator::new().unwrap();
    let mut move_list: Vec<Move> = Vec::new();
    mg.generate_moves(&board, &mut move_list);

    // Discard all non-king moves.
    move_list.retain(|mv| mv.piece() == Pieces::KING);
    let destinations: Vec<Square> = move_list.iter().map(|mv| mv.to()).collect();

    assert!(!destinations.contains(&Squares::C8));
    assert!(!destinations.contains(&Squares::G8));
}

fn generate_king_moves(side: usize) {
    let mut board = Board::new();
    board.put_piece(side, Pieces::KING, Squares::D4);
    board.state.active_side = side as u8;
    let mg = MoveGenerator::new().unwrap();
    let mut move_list: Vec<Move> = Vec::new();
    mg.generate_moves(&board, &mut move_list);

    let mut expected_sq = Vec::from([
        Squares::C3,
        Squares::C4,
        Squares::C5,
        Squares::D3,
        Squares::D5,
        Squares::E3,
        Squares::E4,
        Squares::E5,
    ]);

    // There should be 8 total moves
    assert_eq!(move_list.len(), expected_sq.len());

    for mv in move_list {
        assert_eq!(mv.from(), Squares::D4);
        assert!(expected_sq.contains(&mv.to()));

        // Remove the square from the expected_sq
        expected_sq.retain(|&x| x != mv.to());
    }

    // By now expected_sq should be empty.
    assert_eq!(expected_sq.len(), 0);
}

fn generate_rook_moves(side: usize) {
    let mut board = Board::new();
    board.put_piece(side, Pieces::ROOK, Squares::B2);
    board.state.active_side = side as u8;
    let mg = MoveGenerator::new().unwrap();
    let mut move_list: Vec<Move> = Vec::new();
    mg.generate_moves(&board, &mut move_list);

    let mut expected_sq = Vec::from([
        Squares::A2,
        Squares::C2,
        Squares::D2,
        Squares::E2,
        Squares::F2,
        Squares::G2,
        Squares::H2,
        Squares::B1,
        Squares::B3,
        Squares::B4,
        Squares::B5,
        Squares::B6,
        Squares::B7,
        Squares::B8,
    ]);

    // There should be 14 total moves
    assert_eq!(move_list.len(), expected_sq.len());

    for mv in move_list {
        assert_eq!(mv.from(), Squares::B2);
        assert!(expected_sq.contains(&mv.to()));

        // Remove the square from the expected_sq
        expected_sq.retain(|&x| x != mv.to());
    }

    // By now expected_sq should be empty.
    assert_eq!(expected_sq.len(), 0);
}

fn generate_rook_moves_with_collisions(side: usize) {
    let mut board = Board::new();
    board.put_piece(side, Pieces::ROOK, Squares::A1);
    board.put_piece(side, Pieces::KING, Squares::A6);
    board.put_piece(side, Pieces::KNIGHT, Squares::C1);
    board.state.active_side = side as u8;
    let mg = MoveGenerator::new().unwrap();
    let mut move_list: Vec<Move> = Vec::new();
    mg.generate_moves(&board, &mut move_list);

    let mut expected_sq = Vec::from([
        Squares::B1,
        Squares::A2,
        Squares::A3,
        Squares::A4,
        Squares::A5,
    ]);

    // Keep only the moves for the rook.
    move_list.retain(|mv| mv.piece() == Pieces::ROOK);

    // There should be 5 total moves
    assert_eq!(move_list.len(), expected_sq.len());

    for mv in move_list {
        assert_eq!(mv.from(), Squares::A1);
        assert!(expected_sq.contains(&mv.to()));

        // Remove the square from the expected_sq
        expected_sq.retain(|&x| x != mv.to());
    }

    // By now expected_sq should be empty.
    assert_eq!(expected_sq.len(), 0);
}

fn generate_rook_moves_with_captures(side: usize) {
    let mut board = Board::new();
    board.put_piece(side, Pieces::ROOK, Squares::A1);

    board.state.active_side = side as u8;

    board.put_piece(board.opponent(), Pieces::KING, Squares::A6);
    board.put_piece(board.opponent(), Pieces::KNIGHT, Squares::C1);

    let mg = MoveGenerator::new().unwrap();
    let mut move_list: Vec<Move> = Vec::new();
    mg.generate_moves(&board, &mut move_list);

    let mut expected_sq = Vec::from([
        Squares::B1,
        Squares::C1,
        Squares::A2,
        Squares::A3,
        Squares::A4,
        Squares::A5,
        Squares::A6,
    ]);

    // Keep only the moves for the rook.
    move_list.retain(|mv| mv.piece() == Pieces::ROOK);

    // There should be 7 total moves
    assert_eq!(move_list.len(), expected_sq.len());

    for mv in move_list {
        assert_eq!(mv.from(), Squares::A1);
        assert!(expected_sq.contains(&mv.to()));

        // Remove the square from the expected_sq
        expected_sq.retain(|&x| x != mv.to());
    }

    // By now expected_sq should be empty.
    assert_eq!(expected_sq.len(), 0);
}

fn generate_bishop_moves(side: usize) {
    let mut board = Board::new();
    board.put_piece(side, Pieces::BISHOP, Squares::B2);
    board.state.active_side = side as u8;
    let mg = MoveGenerator::new().unwrap();
    let mut move_list: Vec<Move> = Vec::new();
    mg.generate_moves(&board, &mut move_list);

    let mut expected_sq = Vec::from([
        Squares::A1,
        Squares::A3,
        Squares::C1,
        Squares::C3,
        Squares::D4,
        Squares::E5,
        Squares::F6,
        Squares::G7,
        Squares::H8,
    ]);

    // There should be 9 total moves
    assert_eq!(move_list.len(), expected_sq.len());

    for mv in move_list {
        assert_eq!(mv.from(), Squares::B2);
        assert!(expected_sq.contains(&mv.to()));

        // Remove the square from the expected_sq
        expected_sq.retain(|&x| x != mv.to());
    }

    // By now expected_sq should be empty.
    assert_eq!(expected_sq.len(), 0);
}

fn generate_bishop_moves_with_collisions(side: usize) {
    let mut board = Board::new();
    board.put_piece(side, Pieces::BISHOP, Squares::D4);
    board.put_piece(side, Pieces::KING, Squares::B2);
    board.put_piece(side, Pieces::KNIGHT, Squares::B6);
    board.state.active_side = side as u8;
    let mg = MoveGenerator::new().unwrap();
    let mut move_list: Vec<Move> = Vec::new();
    mg.generate_moves(&board, &mut move_list);

    let mut expected_sq = Vec::from([
        Squares::C3,
        Squares::C5,
        Squares::E3,
        Squares::E5,
        Squares::F2,
        Squares::F6,
        Squares::G1,
        Squares::G7,
        Squares::H8,
    ]);

    // Keep only the moves for the bishop.
    move_list.retain(|mv| mv.piece() == Pieces::BISHOP);

    // There should be 9 total moves
    assert_eq!(move_list.len(), expected_sq.len());

    for mv in move_list {
        assert_eq!(mv.from(), Squares::D4);
        assert!(expected_sq.contains(&mv.to()));

        // Remove the square from the expected_sq
        expected_sq.retain(|&x| x != mv.to());
    }

    // By now expected_sq should be empty.
    assert_eq!(expected_sq.len(), 0);
}

fn generate_bishop_moves_with_captures(side: usize) {
    let mut board = Board::new();
    board.put_piece(side, Pieces::BISHOP, Squares::A1);

    board.state.active_side = side as u8;

    board.put_piece(board.opponent(), Pieces::KING, Squares::F6);

    let mg = MoveGenerator::new().unwrap();
    let mut move_list: Vec<Move> = Vec::new();
    mg.generate_moves(&board, &mut move_list);

    let mut expected_sq = Vec::from([
        Squares::B2,
        Squares::C3,
        Squares::D4,
        Squares::E5,
        Squares::F6,
    ]);

    // Keep only the moves for the bishop.
    move_list.retain(|mv| mv.piece() == Pieces::BISHOP);

    // There should be 5 total moves
    assert_eq!(move_list.len(), expected_sq.len());

    for mv in move_list {
        assert_eq!(mv.from(), Squares::A1);
        assert!(expected_sq.contains(&mv.to()));

        // Remove the square from the expected_sq
        expected_sq.retain(|&x| x != mv.to());
    }

    // By now expected_sq should be empty.
    assert_eq!(expected_sq.len(), 0);
}

fn generate_queen_moves(side: usize) {
    let mut board = Board::new();
    board.put_piece(side, Pieces::QUEEN, Squares::B2);
    board.state.active_side = side as u8;
    let mg = MoveGenerator::new().unwrap();
    let mut move_list: Vec<Move> = Vec::new();
    mg.generate_moves(&board, &mut move_list);

    let mut expected_sq = Vec::from([
        // Diagonals
        Squares::A1,
        Squares::A3,
        Squares::C1,
        Squares::C3,
        Squares::D4,
        Squares::E5,
        Squares::F6,
        Squares::G7,
        Squares::H8,
        // Horizontal
        Squares::A2,
        Squares::C2,
        Squares::D2,
        Squares::E2,
        Squares::F2,
        Squares::G2,
        Squares::H2,
        // Vertical
        Squares::B1,
        Squares::B3,
        Squares::B4,
        Squares::B5,
        Squares::B6,
        Squares::B7,
        Squares::B8,
    ]);

    // There should be 23 total moves
    assert_eq!(move_list.len(), expected_sq.len());

    for mv in move_list {
        assert_eq!(mv.from(), Squares::B2);
        assert!(expected_sq.contains(&mv.to()));

        // Remove the square from the expected_sq
        expected_sq.retain(|&x| x != mv.to());
    }

    // By now expected_sq should be empty.
    assert_eq!(expected_sq.len(), 0);
}

fn generate_queen_moves_with_collisions(side: usize) {
    let mut board = Board::new();

    board.put_piece(side, Pieces::QUEEN, Squares::B2);
    board.put_piece(side, Pieces::KING, Squares::F6);

    board.state.active_side = side as u8;

    let mg = MoveGenerator::new().unwrap();
    let mut move_list: Vec<Move> = Vec::new();
    mg.generate_moves(&board, &mut move_list);

    let mut expected_sq = Vec::from([
        // Diagonals
        Squares::A1,
        Squares::A3,
        Squares::C1,
        Squares::C3,
        Squares::D4,
        Squares::E5,
        // Horizontal
        Squares::A2,
        Squares::C2,
        Squares::D2,
        Squares::E2,
        Squares::F2,
        Squares::G2,
        Squares::H2,
        // Vertical
        Squares::B1,
        Squares::B3,
        Squares::B4,
        Squares::B5,
        Squares::B6,
        Squares::B7,
        Squares::B8,
    ]);

    // Keep just the queen's moves.
    move_list.retain(|mv| mv.piece() == Pieces::QUEEN);

    assert_eq!(move_list.len(), expected_sq.len());

    for mv in move_list {
        assert_eq!(mv.from(), Squares::B2);
        assert!(expected_sq.contains(&mv.to()));

        // Remove the square from the expected_sq
        expected_sq.retain(|&x| x != mv.to());
    }

    // By now expected_sq should be empty.
    assert_eq!(expected_sq.len(), 0);
}

fn generate_queen_moves_with_captures(side: usize) {
    let mut board = Board::new();
    board.put_piece(side, Pieces::QUEEN, Squares::B2);

    board.state.active_side = side as u8;

    board.put_piece(board.opponent(), Pieces::KING, Squares::F6);

    let mg = MoveGenerator::new().unwrap();
    let mut move_list: Vec<Move> = Vec::new();
    mg.generate_moves(&board, &mut move_list);

    let mut expected_sq = Vec::from([
        // Diagonals
        Squares::A1,
        Squares::A3,
        Squares::C1,
        Squares::C3,
        Squares::D4,
        Squares::E5,
        Squares::F6,
        // Horizontal
        Squares::A2,
        Squares::C2,
        Squares::D2,
        Squares::E2,
        Squares::F2,
        Squares::G2,
        Squares::H2,
        // Vertical
        Squares::B1,
        Squares::B3,
        Squares::B4,
        Squares::B5,
        Squares::B6,
        Squares::B7,
        Squares::B8,
    ]);

    // Keep just the queen's moves.
    move_list.retain(|mv| mv.piece() == Pieces::QUEEN);

    assert_eq!(move_list.len(), expected_sq.len());

    for mv in move_list {
        assert_eq!(mv.from(), Squares::B2);
        assert!(expected_sq.contains(&mv.to()));

        // Remove the square from the expected_sq
        expected_sq.retain(|&x| x != mv.to());
    }

    // By now expected_sq should be empty.
    assert_eq!(expected_sq.len(), 0);
}

fn generate_king_moves_edge_of_board(side: usize) {
    let mut board = Board::new();
    board.put_piece(side, Pieces::KING, Squares::A1);
    board.state.active_side = side as u8;
    let mg = MoveGenerator::new().unwrap();
    let mut move_list: Vec<Move> = Vec::new();
    mg.generate_moves(&board, &mut move_list);

    let mut expected_sq = Vec::from([Squares::A2, Squares::B1, Squares::B2]);

    // There should be 8 total moves
    assert_eq!(move_list.len(), expected_sq.len());

    for mv in move_list {
        assert_eq!(mv.from(), Squares::A1);
        assert!(expected_sq.contains(&mv.to()));

        // Remove the square from the expected_sq
        expected_sq.retain(|&x| x != mv.to());
    }

    // By now expected_sq should be empty.
    assert_eq!(expected_sq.len(), 0);
}

fn generate_knight_moves(side: usize) {
    let mut board = Board::new();
    board.put_piece(side, Pieces::KNIGHT, Squares::D4);
    board.state.active_side = side as u8;
    let mg = MoveGenerator::new().unwrap();
    let mut move_list: Vec<Move> = Vec::new();
    mg.generate_moves(&board, &mut move_list);

    let mut expected_sq = Vec::from([
        Squares::C2,
        Squares::C6,
        Squares::E2,
        Squares::E6,
        Squares::B3,
        Squares::B5,
        Squares::F3,
        Squares::F5,
    ]);

    // There should be 8 total moves
    assert_eq!(move_list.len(), expected_sq.len());

    for mv in move_list {
        assert_eq!(mv.from(), Squares::D4);
        assert!(expected_sq.contains(&mv.to()));

        // Remove the square from the expected_sq
        expected_sq.retain(|&x| x != mv.to());
    }

    // By now expected_sq should be empty.
    assert_eq!(expected_sq.len(), 0);
}

fn generate_knight_moves_edge_of_board(side: usize) {
    let mut board = Board::new();
    board.put_piece(side, Pieces::KNIGHT, Squares::A1);
    board.state.active_side = side as u8;
    let mg = MoveGenerator::new().unwrap();
    let mut move_list: Vec<Move> = Vec::new();
    mg.generate_moves(&board, &mut move_list);

    let mut expected_sq = Vec::from([Squares::C2, Squares::B3]);

    // There should be 8 total moves
    assert_eq!(move_list.len(), expected_sq.len());

    for mv in move_list {
        assert_eq!(mv.from(), Squares::A1);
        assert!(expected_sq.contains(&mv.to()));

        // Remove the square from the expected_sq
        expected_sq.retain(|&x| x != mv.to());
    }

    // By now expected_sq should be empty.
    assert_eq!(expected_sq.len(), 0);
}
