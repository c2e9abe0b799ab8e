use lark::board::defs::{Castling, Sides, Squares};
use lark::board::fen::FenError;
use lark::board::Board;

#[test]
fn test_fen_read_none_default_position() {
    let mut board = Board::new();
    let result = board.fen_read(None);
    assert!(result.is_ok());
}

#[test]
fn test_fen_read_default_position() {
    let mut board = Board::new();
    let result = board.fen_read(None);
    assert!(result.is_ok());
}

#[test]
fn test_fen_read_default_position_castling() {
    let mut board = Board::new();
    let result = board.fen_read(None);
    assert!(result.is_ok());
    assert_eq!(board.state.castling, Castling::ALL);
}

#[test]
fn test_fen_read_default_position_color() {
    let mut board = Board::new();
    let result = board.fen_read(None);
    assert!(result.is_ok());
    assert_eq!(board.state.active_side, Sides::WHITE as u8);
}

#[test]
fn test_fen_read_default_position_en_passant() {
    let mut board = Board::new();
    let result = board.fen_read(None);
    assert!(result.is_ok());
    assert_eq!(board.state.en_passant, None);
}

#[test]
fn test_fen_read_default_position_half_move_clock() {
    let mut board = Board::new();
    let result = board.fen_read(None);
    assert!(result.is_ok());
    assert_eq!(board.state.half_move_clock, 0);
}

#[test]
fn test_fen_read_default_position_full_move_counter() {
    let mut board = Board::new();
    let result = board.fen_read(None);
    assert!(result.is_ok());
    assert_eq!(board.state.full_move_number, 1);
}

#[test]
fn test_fen_read_color_invalid() {
    let mut board = Board::new();
    let result = board.fen_read(Some(
        "rnbqkbnr/pppppppp/8/8/8/8/PPPPPPPP/RNBQKBNR a kq - 0 1",
    ));
    assert!(result.is_err());
    assert_eq!(result.err(), Some(FenError::ColorSection))
}

#[test]
fn test_fen_read_color_black() {
    let mut board = Board::new();
    _ = board.fen_read(Some(
        "rnbqkbnr/pppppppp/8/8/8/8/PPPPPPPP/RNBQKBNR b kq - 0 1",
    ));
    assert_eq!(board.state.active_side, Sides::BLACK as u8);
}

#[test]
fn test_fen_read_black_only_castling() {
    let mut board = Board::new();
    _ = board.fen_read(Some(
        "rnbqkbnr/pppppppp/8/8/8/8/PPPPPPPP/RNBQKBNR w kq - 0 1",
    ));
    assert_eq!(board.state.castling, Castling::BK | Castling::BQ);
}

#[test]
fn test_fen_read_white_only_castling() {
    let mut board = Board::new();
    _ = board.fen_read(Some(
        "rnbqkbnr/pppppppp/8/8/8/8/PPPPPPPP/RNBQKBNR w KQ - 0 1",
    ));
    assert_eq!(board.state.castling, Castling::WK | Castling::WQ);
}

#[test]
fn test_fen_read_mixed_castling() {
    let mut board = Board::new();
    _ = board.fen_read(Some(
        "rnbqkbnr/pppppppp/8/8/8/8/PPPPPPPP/RNBQKBNR w Kq - 0 1",
    ));
    assert_eq!(board.state.castling, Castling::WK | Castling::BQ);
}

#[test]
fn test_fen_read_en_passant() {
    let mut board = Board::new();
    _ = board.fen_read(Some(
        "rnbqkbnr/pppppppp/8/8/8/8/PPPPPPPP/RNBQKBNR b kq a3 0 1",
    ));
    assert_eq!(board.state.en_passant, Some(Squares::A3 as u8));
}

#[test]
fn test_fen_read_en_passant_invalid() {
    let mut board = Board::new();
    let result = board.fen_read(Some(
        "rnbqkbnr/pppppppp/8/8/8/8/PPPPPPPP/RNBQKBNR b kq d5 0 1",
    ));
    assert!(result.is_err());
}

#[test]
fn test_fen_read_half_move_clock() {
    let mut board = Board::new();
    _ = board.fen_read(Some(
        "rnbqkbnr/pppppppp/8/8/8/8/PPPPPPPP/RNBQKBNR b kq - 25 1",
    ));
    assert_eq!(board.state.half_move_clock, 25);
}

#[test]
fn test_fen_read_full_move_counter() {
    let mut board = Board::new();
    _ = board.fen_read(Some(
        "rnbqkbnr/pppppppp/8/8/8/8/PPPPPPPP/RNBQKBNR b kq - 0 37",
    ));
    assert_eq!(board.state.full_move_number, 37);
}
