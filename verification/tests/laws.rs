use lark::board::defs::{Castling, Pieces, Sides, Square, Squares};
use lark::board::Board;
use lark::movegen::defs::{Direction, Move};
use lark::movegen::magics::{
    find_magics, Magic, MagicError, BISHOP_TABLE_SIZE, PRECALC_BISHOP_MAGIC_NUMBERS,
    PRECALC_ROOK_MAGIC_NUMBERS, ROOK_TABLE_SIZE,
};
use lark::movegen::MoveGenerator;

fn rook_rays(square: Square, blockers: u64) -> u64 {
    MoveGenerator::bb_ray(blockers, square, Direction::North)
        | MoveGenerator::bb_ray(blockers, square, Direction::East)
        | MoveGenerator::bb_ray(blockers, square, Direction::South)
        | MoveGenerator::bb_ray(blockers, square, Direction::West)
}

fn bishop_rays(square: Square, blockers: u64) -> u64 {
    MoveGenerator::bb_ray(blockers, square, Direction::NorthWest)
        | MoveGenerator::bb_ray(blockers, square, Direction::NorthEast)
        | MoveGenerator::bb_ray(blockers, square, Direction::SouthWest)
        | MoveGenerator::bb_ray(blockers, square, Direction::SouthEast)
}

fn moves_of(board: &Board) -> Vec<Move> {
    let mg = MoveGenerator::new().unwrap();
    let mut list: Vec<Move> = Vec::new();
    mg.generate_moves(board, &mut list);
    list
}

#[test]
fn table_holds_ray_casts_for_every_subset() {
    let mg = MoveGenerator::new().unwrap();
    for square in [Squares::A1, Squares::D4, Squares::H8, Squares::E1, Squares::B7] {
        let mask = MoveGenerator::rook_mask(square);
        for blockers in MoveGenerator::blocker_boards(mask) {
            let index = mg.rook_magics[square].get_index(blockers);
            assert_eq!(mg.rook[index], rook_rays(square, blockers));
        }
        let mask = MoveGenerator::bishop_mask(square);
        for blockers in MoveGenerator::blocker_boards(mask) {
            let index = mg.bishop_magics[square].get_index(blockers);
            assert_eq!(mg.bishop[index], bishop_rays(square, blockers));
        }
    }
}

#[test]
fn shared_index_means_equal_attacks() {
    let mg = MoveGenerator::new().unwrap();
    let square = Squares::A1;
    let boards = MoveGenerator::blocker_boards(MoveGenerator::rook_mask(square));
    let magic = mg.rook_magics[square];
    let mut seen: Vec<Option<u64>> = vec![None; boards.len()];
    for blockers in boards {
        let slot = magic.get_index(blockers) - magic.offset as usize;
        let attacks = rook_rays(square, blockers);
        match seen[slot] {
            Some(other) => assert_eq!(other, attacks),
            None => seen[slot] = Some(attacks),
        }
    }
}

#[test]
fn tables_have_their_exact_sizes() {
    let mg = MoveGenerator::new().unwrap();
    assert_eq!(mg.rook.len(), ROOK_TABLE_SIZE);
    assert_eq!(mg.bishop.len(), BISHOP_TABLE_SIZE);
    assert_eq!(mg.rook_magics[0].offset, 0);
    assert_eq!(mg.rook_magics[1].offset, 4096);
    assert_eq!(mg.rook_magics[0].shift, 52);
    assert_eq!(mg.bishop_magics[0].shift, 58);
    assert_eq!(mg.rook_magics[0].number, PRECALC_ROOK_MAGIC_NUMBERS[0]);
    assert_eq!(mg.bishop_magics[63].number, PRECALC_BISHOP_MAGIC_NUMBERS[63]);
}

#[test]
fn double_push_only_from_starting_rank() {
    let mut board = Board::new();
    board.put_piece(Sides::WHITE, Pieces::PAWN, Squares::A2);
    board.put_piece(Sides::WHITE, Pieces::PAWN, Squares::C3);
    board.put_piece(Sides::WHITE, Pieces::PAWN, Squares::E2);
    board.put_piece(Sides::BLACK, Pieces::PAWN, Squares::E4);
    board.put_piece(Sides::WHITE, Pieces::PAWN, Squares::G2);
    board.put_piece(Sides::BLACK, Pieces::PAWN, Squares::G3);
    board.state.active_side = Sides::WHITE as u8;

    let doubles: Vec<(Square, Square)> = moves_of(&board)
        .iter()
        .filter(|mv| mv.double_step() == 1)
        .map(|mv| (mv.from(), mv.to()))
        .collect();
    assert_eq!(doubles, vec![(Squares::A2, Squares::A4)]);

    let to_c5 = moves_of(&board).iter().any(|mv| mv.to() == Squares::C5);
    assert!(!to_c5);
}

#[test]
fn double_push_black() {
    let mut board = Board::new();
    board.put_piece(Sides::BLACK, Pieces::PAWN, Squares::H7);
    board.state.active_side = Sides::BLACK as u8;
    let list = moves_of(&board);
    assert_eq!(list.len(), 2);
    assert_eq!((list[0].to(), list[0].double_step()), (Squares::H5, 1));
    assert_eq!((list[1].to(), list[1].double_step()), (Squares::H6, 0));
}

#[test]
fn en_passant_capture_is_generated() {
    let mut board = Board::new();
    board.put_piece(Sides::WHITE, Pieces::PAWN, Squares::E5);
    board.put_piece(Sides::BLACK, Pieces::PAWN, Squares::D5);
    board.state.active_side = Sides::WHITE as u8;
    board.state.en_passant = Some(Squares::D6 as u8);

    let list = moves_of(&board);
    let captures: Vec<&Move> = list.iter().filter(|mv| mv.en_passant() == 1).collect();
    assert_eq!(captures.len(), 1);
    assert_eq!(captures[0].from(), Squares::E5);
    assert_eq!(captures[0].to(), Squares::D6);
    assert_eq!(captures[0].piece(), Pieces::PAWN);

    board.state.en_passant = Some(Squares::A6 as u8);
    assert!(moves_of(&board).iter().all(|mv| mv.en_passant() == 0));
    board.state.en_passant = None;
    assert!(moves_of(&board).iter().all(|mv| mv.en_passant() == 0));
}

#[test]
fn castling_moves_carry_the_flag() {
    let mut board = Board::new();
    board.state.castling = Castling::WK | Castling::WQ;
    board.put_piece(Sides::WHITE, Pieces::KING, Squares::E1);
    board.put_piece(Sides::WHITE, Pieces::ROOK, Squares::H1);
    board.put_piece(Sides::WHITE, Pieces::ROOK, Squares::A1);
    board.state.active_side = Sides::WHITE as u8;

    let list = moves_of(&board);
    let castles: Vec<Square> =
        list.iter().filter(|mv| mv.castling() == 1).map(|mv| mv.to()).collect();
    assert_eq!(castles, vec![Squares::G1, Squares::C1]);
    let last = list[list.len() - 1];
    assert_eq!(last.piece(), Pieces::KING);
    assert_eq!(last.from(), Squares::E1);

    board.put_piece(Sides::WHITE, Pieces::KNIGHT, Squares::B1);
    let castles: Vec<Square> =
        moves_of(&board).iter().filter(|mv| mv.castling() == 1).map(|mv| mv.to()).collect();
    assert_eq!(castles, vec![Squares::G1]);
}

#[test]
fn castling_without_a_king_adds_nothing() {
    let mut board = Board::new();
    board.state.castling = Castling::ALL;
    board.put_piece(Sides::WHITE, Pieces::ROOK, Squares::H1);
    let mg = MoveGenerator::new().unwrap();
    let mut list: Vec<Move> = Vec::new();
    mg.castling(&board, &mut list);
    assert!(list.is_empty());
}

fn attacked_by_scan(mg: &MoveGenerator, board: &Board, attacker: usize, square: Square) -> bool {
    let occupancy = board.bb_side[0] | board.bb_side[1];
    for kind in 0..6 {
        for from in 0..64usize {
            if board.bb_pieces[attacker][kind] & (1u64 << from) == 0 {
                continue;
            }
            let attacks = match kind {
                0 => mg.king[from],
                1 => rook_rays(from, occupancy) | bishop_rays(from, occupancy),
                2 => rook_rays(from, occupancy),
                3 => bishop_rays(from, occupancy),
                4 => mg.knight[from],
                _ => mg.pawns[attacker][from],
            };
            if attacks & (1u64 << square) != 0 {
                return true;
            }
        }
    }
    false
}

#[test]
fn square_attacked_agrees_with_a_scan() {
    let mg = MoveGenerator::new().unwrap();
    let mut board = Board::new();
    board.put_piece(Sides::WHITE, Pieces::KING, Squares::E1);
    board.put_piece(Sides::WHITE, Pieces::QUEEN, Squares::D1);
    board.put_piece(Sides::WHITE, Pieces::ROOK, Squares::A1);
    board.put_piece(Sides::WHITE, Pieces::BISHOP, Squares::C4);
    board.put_piece(Sides::WHITE, Pieces::KNIGHT, Squares::F3);
    board.put_piece(Sides::WHITE, Pieces::PAWN, Squares::E4);
    board.put_piece(Sides::BLACK, Pieces::KING, Squares::E8);
    board.put_piece(Sides::BLACK, Pieces::QUEEN, Squares::H4);
    board.put_piece(Sides::BLACK, Pieces::ROOK, Squares::A8);
    board.put_piece(Sides::BLACK, Pieces::BISHOP, Squares::G7);
    board.put_piece(Sides::BLACK, Pieces::KNIGHT, Squares::C6);
    board.put_piece(Sides::BLACK, Pieces::PAWN, Squares::D5);
    for attacker in [Sides::WHITE, Sides::BLACK] {
        for square in 0..64usize {
            assert_eq!(
                mg.square_attacked(&board, attacker, square),
                attacked_by_scan(&mg, &board, attacker, square)
            );
        }
    }
    assert!(mg.square_attacked(&board, Sides::WHITE, Squares::D5));
    assert!(mg.square_attacked(&board, Sides::BLACK, Squares::E4));
    assert!(mg.square_attacked(&board, Sides::BLACK, Squares::A1));
    assert!(!mg.square_attacked(&board, Sides::BLACK, Squares::B1));
    assert!(mg.square_attacked(&board, Sides::BLACK, Squares::C4));
    assert!(!mg.square_attacked(&board, Sides::WHITE, Squares::H8));
}

#[test]
fn move_fields_round_trip() {
    for piece in 0..8usize {
        for (from, to) in [(0usize, 63usize), (63, 0), (12, 28), (5, 5)] {
            for captured in [0usize, 3, 7] {
                for promoted in [0usize, 1, 4, 7] {
                    for flags in 0..8u8 {
                        let mv = Move::encode(
                            piece,
                            from,
                            to,
                            captured,
                            promoted,
                            flags & 1 == 1,
                            flags & 2 == 2,
                            flags & 4 == 4,
                        );
                        assert_eq!(mv.piece(), piece);
                        assert_eq!(mv.from(), from);
                        assert_eq!(mv.to(), to);
                        assert_eq!(mv.captured(), captured);
                        assert_eq!(mv.promoted(), promoted);
                        assert_eq!(mv.en_passant(), (flags & 1) as usize);
                        assert_eq!(mv.double_step(), ((flags >> 1) & 1) as usize);
                        assert_eq!(mv.castling(), ((flags >> 2) & 1) as usize);
                        assert_eq!(mv.get_sort_score(), 0);
                    }
                }
            }
        }
    }
}

#[test]
fn move_packs_its_fields_at_their_places() {
    let mv = Move::encode(Pieces::PAWN, Squares::E2, Squares::E4, 0, 0, false, true, false);
    assert_eq!(mv.data, 5 | (12 << 3) | (28 << 9) | (1 << 22));
    let mv = Move::encode(Pieces::ROOK, Squares::H8, Squares::A1, 7, 7, true, true, true);
    assert_eq!(mv.data, 2 | (63 << 3) | (7 << 15) | (7 << 18) | (7 << 21));
    assert_eq!(Move::new(mv.data), mv);
}

#[test]
fn sort_score_is_the_only_field_that_changes() {
    let mut mv = Move::encode(Pieces::QUEEN, Squares::D1, Squares::H5, 5, 0, false, false, false);
    mv.set_sort_score(0xFFFF_FFFF);
    assert_eq!(mv.get_sort_score(), 0xFFFF_FFFF);
    assert_eq!(mv.piece(), Pieces::QUEEN);
    assert_eq!(mv.from(), Squares::D1);
    assert_eq!(mv.to(), Squares::H5);
    assert_eq!(mv.captured(), 5);
    assert_eq!(mv.promoted(), 0);
    mv.set_sort_score(17);
    assert_eq!(mv.get_sort_score(), 17);
    assert_eq!(mv.data, 1 | (3 << 3) | (39 << 9) | (5 << 15) | (17 << 24));
    assert_eq!(mv.notation(), "qd1h5");
}

#[test]
fn promotions_come_in_four() {
    let mut board = Board::new();
    board.put_piece(Sides::WHITE, Pieces::PAWN, Squares::B7);
    board.put_piece(Sides::BLACK, Pieces::ROOK, Squares::C8);
    board.state.active_side = Sides::WHITE as u8;
    let list = moves_of(&board);
    let found: Vec<(Square, usize)> = list.iter().map(|mv| (mv.to(), mv.promoted())).collect();
    assert_eq!(
        found,
        vec![
            (Squares::B8, Pieces::QUEEN),
            (Squares::B8, Pieces::ROOK),
            (Squares::B8, Pieces::BISHOP),
            (Squares::B8, Pieces::KNIGHT),
            (Squares::C8, Pieces::QUEEN),
            (Squares::C8, Pieces::ROOK),
            (Squares::C8, Pieces::BISHOP),
            (Squares::C8, Pieces::KNIGHT),
        ]
    );
}

#[test]
fn pawn_on_the_last_rank_stays() {
    let mut board = Board::new();
    board.put_piece(Sides::WHITE, Pieces::PAWN, Squares::D8);
    board.put_piece(Sides::BLACK, Pieces::PAWN, Squares::D1);
    board.state.active_side = Sides::WHITE as u8;
    assert!(moves_of(&board).is_empty());
    board.state.active_side = Sides::BLACK as u8;
    assert!(moves_of(&board).is_empty());
}

#[test]
fn numbers_that_are_no_magic_numbers_are_refused() {
    let mut mg = MoveGenerator::new().unwrap();
    let rook_before = mg.rook.clone();
    let result = mg.init_magics_with_precalc([0u64; 64], PRECALC_BISHOP_MAGIC_NUMBERS);
    assert_eq!(result, Err(MagicError::InvalidMagic { piece: Pieces::ROOK, square: 0 }));
    assert_eq!(mg.rook, rook_before);

    let mut bishops = PRECALC_BISHOP_MAGIC_NUMBERS;
    bishops[10] = 1;
    let result = mg.init_magics_with_precalc(PRECALC_ROOK_MAGIC_NUMBERS, bishops);
    assert_eq!(result, Err(MagicError::InvalidMagic { piece: Pieces::BISHOP, square: 10 }));

    let result =
        mg.init_magics_with_precalc(PRECALC_ROOK_MAGIC_NUMBERS, PRECALC_BISHOP_MAGIC_NUMBERS);
    assert_eq!(result, Ok(()));
    assert_eq!(mg.rook, rook_before);
}

#[test]
fn search_with_a_seed_finds_the_same_numbers_again() {
    let (table, magics) = find_magics(Pieces::BISHOP, Some(7), None).unwrap();
    let (again, magics_again) = find_magics(Pieces::BISHOP, Some(7), None).unwrap();
    assert_eq!(table.len(), BISHOP_TABLE_SIZE);
    assert_eq!(table, again);
    for square in 0..64usize {
        assert_eq!(magics[square].number, magics_again[square].number);
        assert_eq!(magics[square].mask, MoveGenerator::bishop_mask(square));
        for blockers in MoveGenerator::blocker_boards(magics[square].mask) {
            let index = magics[square].get_index(blockers);
            assert_eq!(table[index], bishop_rays(square, blockers));
        }
    }
}

#[test]
fn search_without_attempts_is_exhausted() {
    let result = find_magics(Pieces::ROOK, Some(1), Some(0));
    assert_eq!(
        result.err(),
        Some(MagicError::SearchExhausted { piece: Pieces::ROOK, square: 0 })
    );
    let result = MoveGenerator::new_find_magics(Some(1), Some(0));
    assert!(matches!(result, Err(MagicError::SearchExhausted { piece: 2, square: 0 })));
}

#[test]
fn search_without_a_seed_finds_bishop_numbers() {
    let (table, magics) = find_magics(Pieces::BISHOP, None, Some(10_000_000)).unwrap();
    assert_eq!(table.len(), BISHOP_TABLE_SIZE);
    let index = magics[Squares::C1].get_index(1u64 << Squares::D2);
    assert_eq!(table[index], bishop_rays(Squares::C1, 1u64 << Squares::D2));
}

#[test]
fn index_is_hash_plus_offset() {
    let magic = Magic { mask: 0xFF, shift: 60, offset: 100, number: 0x1000_0000_0000_0000 };
    assert_eq!(magic.get_index(0x1F3), 103);
    assert_eq!(magic.get_index(0xFF00), 100);
    let magic = Magic { mask: 0x0F0F, shift: 56, offset: 7, number: 0x0101_0101_0101_0101 };
    assert_eq!(magic.get_index(0xFFFF), 0x1E + 7);
    let plain = Magic::default();
    assert_eq!((plain.mask, plain.shift, plain.offset, plain.number), (0, 0, 0, 0));
}

#[test]
fn generator_with_given_numbers() {
    let mg = MoveGenerator::with_magics(PRECALC_ROOK_MAGIC_NUMBERS, PRECALC_BISHOP_MAGIC_NUMBERS)
        .unwrap();
    assert_eq!(mg.rook.len(), ROOK_TABLE_SIZE);
    let refused = MoveGenerator::with_magics(PRECALC_BISHOP_MAGIC_NUMBERS, PRECALC_ROOK_MAGIC_NUMBERS);
    assert!(matches!(refused, Err(MagicError::InvalidMagic { piece: 2, .. })));
}

#[test]
fn search_builds_a_whole_generator() {
    let mg = MoveGenerator::new_find_magics(Some(2024), None).unwrap();
    let carried = MoveGenerator::new().unwrap();
    assert_eq!(mg.rook.len(), ROOK_TABLE_SIZE);
    assert_eq!(mg.bishop.len(), BISHOP_TABLE_SIZE);
    assert_eq!(mg.king, carried.king);
    assert_eq!(mg.knight, carried.knight);
    assert_eq!(mg.pawns, carried.pawns);
    let occupancy = Squares::bb_of(&[Squares::D6, Squares::B4, Squares::F2, Squares::G7]);
    for square in 0..64usize {
        for piece in [Pieces::ROOK, Pieces::BISHOP, Pieces::QUEEN] {
            assert_eq!(
                mg.get_slider_attacks(piece, square, occupancy),
                carried.get_slider_attacks(piece, square, occupancy)
            );
        }
    }
}
