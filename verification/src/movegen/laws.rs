//! What holds of the attack tables and of the generated moves.

use vstd::prelude::*;
use vstd::arithmetic::power2::pow2;
use vstd::std_specs::bits::u64_trailing_zeros;
use crate::board::Board;
use crate::board::defs::{Piece, Pieces};
use crate::movegen::MoveGenerator;
use crate::movegen::defs::{lemma_pack_round_trip, Move, MoveFields};
use crate::movegen::geometry::{
    bishop_attacks,
    king_attacks,
    knight_attacks,
    lemma_leaper_squares,
    pawn_attacks,
    rook_attacks,
};
use crate::movegen::magics::{lemma_hash_bound, magic_fits, slider_attacks_on, slider_mask, Magic};
use crate::movegen::reach::{lemma_bishop_symmetric, lemma_holds, lemma_rook_symmetric};
use crate::movegen::rules::{
    all_moves,
    attacked,
    board_ok,
    castling_moves,
    castling_to,
    en_passant_square,
    is_castling,
    is_double_step,
    may_castle,
    move_of,
    mover,
    moves_from,
    moves_onto,
    moves_to,
    occupied,
    piece_attacks,
    piece_moves,
    promotes,
    push_squares,
    targets_of,
    BLACK_KINGSIDE_PATH,
    BLACK_QUEENSIDE_PATH,
    WHITE_KINGSIDE_PATH,
    WHITE_QUEENSIDE_PATH,
};
use crate::movegen::subsets::is_subset;
use crate::utils::bits::{
    bit,
    holds,
    lemma_meet,
    lemma_squares_members,
    lemma_squares_of_empty,
    lemma_squares_pop,
    popcount,
    squares_of,
};

verus! {

/// The attack table of a slider, rook or bishop.
pub open spec fn table_of(mg: MoveGenerator, piece: Piece) -> Seq<u64> {
    if piece == Pieces::ROOK {
        mg.rook@
    } else {
        mg.bishop@
    }
}

/// The descriptor of a square in the perfect hash of a slider, rook or bishop.
pub open spec fn magic_of(mg: MoveGenerator, piece: Piece, square: u64) -> Magic {
    if piece == Pieces::ROOK {
        mg.rook_magics[square as int]
    } else {
        mg.bishop_magics[square as int]
    }
}

/// The attack table is a lossless cache of ray casting: for every square and
/// slider, at the place of every subset of the square's mask the table holds
/// what casting the rays against that subset gives. The place lies in the
/// part of the table that belongs to the square.
pub proof fn lemma_table_caches_rays(mg: MoveGenerator, piece: Piece, square: u64, blockers: u64)
    requires
        mg.sliders_ready(),
        piece == Pieces::ROOK || piece == Pieces::BISHOP,
        square < 64,
        is_subset(blockers, slider_mask(piece, square)),
    ensures
        ({
            let m = magic_of(mg, piece, square);
            let table = table_of(mg, piece);
            &&& m.offset <= m.index_of(blockers) < m.offset + pow2(popcount(m.mask))
            &&& m.index_of(blockers) < table.len()
            &&& table[m.index_of(blockers)] == slider_attacks_on(piece, square, blockers)
        }),
{
    let m = magic_of(mg, piece, square);
    assert(magic_fits(table_of(mg, piece), m, piece, square));
    lemma_hash_bound(m, blockers);
}

/// The hash is perfect: for a square and a slider, two subsets of the mask
/// that share a place in the table give the same attacks.
pub proof fn lemma_perfect_hash(mg: MoveGenerator, piece: Piece, square: u64, a: u64, b: u64)
    requires
        mg.sliders_ready(),
        piece == Pieces::ROOK || piece == Pieces::BISHOP,
        square < 64,
        is_subset(a, slider_mask(piece, square)),
        is_subset(b, slider_mask(piece, square)),
        magic_of(mg, piece, square).index_of(a) == magic_of(mg, piece, square).index_of(b),
    ensures
        slider_attacks_on(piece, square, a) == slider_attacks_on(piece, square, b),
{
    lemma_table_caches_rays(mg, piece, square, a);
    lemma_table_caches_rays(mg, piece, square, b);
}

/// A member of two sequences put together is a member of one of them.
proof fn lemma_contains_concat<T>(a: Seq<T>, b: Seq<T>, x: T)
    ensures
        (a + b).contains(x) <==> a.contains(x) || b.contains(x),
{
    if a.contains(x) {
        let i = choose|i: int| 0 <= i < a.len() && a[i] == x;
        assert((a + b)[i] == x);
    }
    if b.contains(x) {
        let i = choose|i: int| 0 <= i < b.len() && b[i] == x;
        assert((a + b)[a.len() + i] == x);
    }
    if (a + b).contains(x) {
        let i = choose|i: int| 0 <= i < (a + b).len() && (a + b)[i] == x;
        if i < a.len() {
            assert(a[i] == x);
        } else {
            assert(b[i - a.len()] == x);
        }
    }
}

/// Whether a piece of kind `piece` of the side to move stands on `from` and
/// can go to `to`.
pub open spec fn goes(board: Board, piece: Piece, from: u64, to: u64) -> bool {
    &&& holds(board.bb_pieces[mover(board)][piece as int], from)
    &&& holds(targets_of(board, piece, from), to)
}

/// A move to one of several squares is a move onto one of them.
proof fn lemma_moves_to_members(board: Board, piece: Piece, from: u64, targets: Seq<u64>, m: Move)
    ensures
        moves_to(board, piece, from, targets).contains(m) <==> exists|i: int|
            0 <= i < targets.len() && #[trigger] moves_onto(board, piece, from, targets[i]).contains(
                m,
            ),
    decreases targets.len(),
{
    if targets.len() > 0 {
        let rest = targets.drop_first();
        lemma_moves_to_members(board, piece, from, rest, m);
        lemma_contains_concat(
            moves_onto(board, piece, from, targets[0]),
            moves_to(board, piece, from, rest),
            m,
        );
        if moves_to(board, piece, from, rest).contains(m) {
            let i = choose|i: int|
                0 <= i < rest.len() && #[trigger] moves_onto(board, piece, from, rest[i]).contains(
                    m,
                );
            assert(moves_onto(board, piece, from, targets[i + 1]).contains(m));
        }
        if exists|i: int|
            0 <= i < targets.len() && #[trigger] moves_onto(board, piece, from, targets[i]).contains(
                m,
            ) {
            let i = choose|i: int|
                0 <= i < targets.len() && #[trigger] moves_onto(
                    board,
                    piece,
                    from,
                    targets[i],
                ).contains(m);
            if i > 0 {
                assert(moves_onto(board, piece, from, rest[i - 1]).contains(m));
            }
        }
    }
}

/// A move from one of several squares is a move from one of them onto a
/// square that the piece can go to from there.
proof fn lemma_moves_from_members(board: Board, piece: Piece, froms: Seq<u64>, m: Move)
    ensures
        moves_from(board, piece, froms).contains(m) <==> exists|i: int, to: u64|
            #![trigger moves_onto(board, piece, froms[i], to)]
            0 <= i < froms.len() && holds(targets_of(board, piece, froms[i]), to) && moves_onto(
                board,
                piece,
                froms[i],
                to,
            ).contains(m),
    decreases froms.len(),
{
    if froms.len() > 0 {
        let rest = froms.drop_first();
        let head_targets = squares_of(targets_of(board, piece, froms[0]));
        lemma_moves_from_members(board, piece, rest, m);
        lemma_moves_to_members(board, piece, froms[0], head_targets, m);
        lemma_contains_concat(
            moves_to(board, piece, froms[0], head_targets),
            moves_from(board, piece, rest),
            m,
        );
        if moves_to(board, piece, froms[0], head_targets).contains(m) {
            let k = choose|k: int|
                0 <= k < head_targets.len() && #[trigger] moves_onto(
                    board,
                    piece,
                    froms[0],
                    head_targets[k],
                ).contains(m);
            lemma_squares_members(targets_of(board, piece, froms[0]), 0, head_targets[k]);
            assert(moves_onto(board, piece, froms[0], head_targets[k]).contains(m));
        }
        if moves_from(board, piece, rest).contains(m) {
            let (i, to) = choose|i: int, to: u64|
                #![trigger moves_onto(board, piece, rest[i], to)]
                0 <= i < rest.len() && holds(targets_of(board, piece, rest[i]), to) && moves_onto(
                    board,
                    piece,
                    rest[i],
                    to,
                ).contains(m);
            assert(moves_onto(board, piece, froms[i + 1], to).contains(m));
        }
        if exists|i: int, to: u64|
            #![trigger moves_onto(board, piece, froms[i], to)]
            0 <= i < froms.len() && holds(targets_of(board, piece, froms[i]), to) && moves_onto(
                board,
                piece,
                froms[i],
                to,
            ).contains(m) {
            let (i, to) = choose|i: int, to: u64|
                #![trigger moves_onto(board, piece, froms[i], to)]
                0 <= i < froms.len() && holds(targets_of(board, piece, froms[i]), to) && moves_onto(
                    board,
                    piece,
                    froms[i],
                    to,
                ).contains(m);
            if i == 0 {
                lemma_squares_members(targets_of(board, piece, froms[0]), 0, to);
                let k = choose|k: int| 0 <= k < head_targets.len() && head_targets[k] == to;
                assert(moves_onto(board, piece, froms[0], head_targets[k]).contains(m));
            } else {
                assert(moves_onto(board, piece, rest[i - 1], to).contains(m));
            }
        }
    }
}

/// A move is among the generated moves of a piece kind exactly if it is one
/// of the moves onto a square that a piece of the kind can go to.
pub proof fn lemma_piece_moves_members(board: Board, piece: Piece, m: Move)
    ensures
        piece_moves(board, piece).contains(m) <==> exists|from: u64, to: u64|
            #![trigger goes(board, piece, from, to)]
            goes(board, piece, from, to) && moves_onto(board, piece, from, to).contains(m),
{
    let set = board.bb_pieces[mover(board)][piece as int];
    let froms = squares_of(set);
    lemma_moves_from_members(board, piece, froms, m);
    if piece_moves(board, piece).contains(m) {
        let (i, to) = choose|i: int, to: u64|
            #![trigger moves_onto(board, piece, froms[i], to)]
            0 <= i < froms.len() && holds(targets_of(board, piece, froms[i]), to) && moves_onto(
                board,
                piece,
                froms[i],
                to,
            ).contains(m);
        lemma_squares_members(set, 0, froms[i]);
        assert(goes(board, piece, froms[i], to));
    }
    if exists|from: u64, to: u64|
        #![trigger goes(board, piece, from, to)]
        goes(board, piece, from, to) && moves_onto(board, piece, from, to).contains(m) {
        let (from, to) = choose|from: u64, to: u64|
            #![trigger goes(board, piece, from, to)]
            goes(board, piece, from, to) && moves_onto(board, piece, from, to).contains(m);
        lemma_squares_members(set, 0, from);
        let i = choose|i: int| 0 <= i < froms.len() && froms[i] == from;
        assert(moves_onto(board, piece, froms[i], to).contains(m));
    }
}

/// What the fields of a generated move are.
pub proof fn lemma_move_fields(board: Board, piece: Piece, from: u64, to: u64, m: Move)
    requires
        piece < 6,
        from < 64,
        to < 64,
        moves_onto(board, piece, from, to).contains(m),
    ensures
        m@.piece == piece,
        m@.from == from,
        m@.to == to,
        m@.captured == 0,
        m@.en_passant == (piece == Pieces::PAWN && board.state.en_passant == Some(to as u8)),
        m@.double_step == is_double_step(piece, from, to),
        m@.castling == is_castling(piece, from, to),
        m@.sort_score == 0,
        promotes(board, piece, to) ==> 1 <= m@.promoted <= 4,
        !promotes(board, piece, to) ==> m@.promoted == 0,
{
    let onto = moves_onto(board, piece, from, to);
    let i = choose|i: int| 0 <= i < onto.len() && onto[i] == m;
    let promoted: Piece = if promotes(board, piece, to) {
        (i + 1) as usize
    } else {
        0
    };
    assert(m == move_of(board, piece, from, to, promoted));
    lemma_pack_round_trip(
        MoveFields {
            piece: piece as nat,
            from: from as nat,
            to: to as nat,
            captured: 0,
            promoted: promoted as nat,
            en_passant: piece == Pieces::PAWN && board.state.en_passant == Some(to as u8),
            double_step: is_double_step(piece, from, to),
            castling: is_castling(piece, from, to),
            sort_score: 0,
        },
    );
}

/// Where a pawn's double step ends, and that the en-passant square is among
/// a pawn's squares where the pawn attacks it.
proof fn lemma_pawn_bits(occ: u64, enemy: u64, ep: u64, from: u64, to: u64)
    by (bit_vector)
    requires
        from < 64,
        to < 64,
    ensures
        ({
            let white = push_squares(true, !occ, from) | ((pawn_attacks(0, from) & enemy) | (
            pawn_attacks(0, from) & ep));
            let black = push_squares(false, !occ, from) | ((pawn_attacks(1, from) & enemy) | (
            pawn_attacks(1, from) & ep));
            &&& (white >> to) & 1 == 1 && (to == from + 16 || from == to + 16) ==> from / 8 == 1
                && to == from + 16 && (occ >> ((from + 8) as u64)) & 1 == 0 && (occ >> to) & 1 == 0
            &&& (black >> to) & 1 == 1 && (to == from + 16 || from == to + 16) ==> from / 8 == 6
                && from == to + 16 && (occ >> ((from - 8) as u64)) & 1 == 0 && (occ >> to) & 1 == 0
            &&& from / 8 == 1 && to == from + 16 && (occ >> ((from + 8) as u64)) & 1 != 1 && (occ
                >> to) & 1 != 1 ==> (white >> to) & 1 == 1
            &&& from / 8 == 6 && from == to + 16 && (occ >> ((from - 8) as u64)) & 1 != 1 && (occ
                >> to) & 1 != 1 ==> (black >> to) & 1 == 1
            &&& ep == 1u64 << to && (pawn_attacks(0, from) >> to) & 1 == 1 ==> (white >> to) & 1
                == 1
            &&& ep == 1u64 << to && (pawn_attacks(1, from) >> to) & 1 == 1 ==> (black >> to) & 1
                == 1
        }),
{
}

/// A pawn's double step appears only from the starting rank of its side,
/// and only where the square ahead of the pawn and the square it arrives on
/// are both empty.
pub proof fn lemma_double_step_only_from_start(board: Board, m: Move)
    requires
        board_ok(board),
        piece_moves(board, Pieces::PAWN).contains(m),
        m@.double_step,
    ensures
        ({
            let from = m@.from as u64;
            let to = m@.to as u64;
            &&& from < 64 && to < 64
            &&& holds(board.bb_pieces[mover(board)][Pieces::PAWN as int], from)
            &&& !holds(occupied(board), to)
            &&& mover(board) == 0 ==> from / 8 == 1 && to == from + 16 && !holds(
                occupied(board),
                (from + 8) as u64,
            )
            &&& mover(board) == 1 ==> from / 8 == 6 && from == to + 16 && !holds(
                occupied(board),
                (from - 8) as u64,
            )
        }),
{
    lemma_piece_moves_members(board, Pieces::PAWN, m);
    let (from, to) = choose|from: u64, to: u64|
        #![trigger goes(board, Pieces::PAWN, from, to)]
        goes(board, Pieces::PAWN, from, to) && moves_onto(board, Pieces::PAWN, from, to).contains(
            m,
        );
    lemma_move_fields(board, Pieces::PAWN, from, to, m);
    lemma_pawn_bits(
        occupied(board),
        board.bb_side[1 - mover(board)],
        en_passant_square(board),
        from,
        to,
    );
}

/// From the starting rank of its side, with the square ahead of it and the
/// next one both empty, a pawn's double step is generated.
pub proof fn lemma_double_step_from_start(board: Board, from: u64)
    requires
        board_ok(board),
        from < 64,
        holds(board.bb_pieces[mover(board)][Pieces::PAWN as int], from),
        mover(board) == 0 ==> from / 8 == 1 && !holds(occupied(board), (from + 8) as u64) && !holds(
            occupied(board),
            (from + 16) as u64,
        ),
        mover(board) == 1 ==> from / 8 == 6 && !holds(occupied(board), (from - 8) as u64) && !holds(
            occupied(board),
            (from - 16) as u64,
        ),
    ensures
        ({
            let to = if mover(board) == 0 {
                (from + 16) as u64
            } else {
                (from - 16) as u64
            };
            let m = move_of(board, Pieces::PAWN, from, to, 0);
            piece_moves(board, Pieces::PAWN).contains(m) && m@.double_step
        }),
{
    let to = if mover(board) == 0 {
        (from + 16) as u64
    } else {
        (from - 16) as u64
    };
    let m = move_of(board, Pieces::PAWN, from, to, 0);
    lemma_pawn_bits(
        occupied(board),
        board.bb_side[1 - mover(board)],
        en_passant_square(board),
        from,
        to,
    );
    assert(goes(board, Pieces::PAWN, from, to));
    assert(moves_onto(board, Pieces::PAWN, from, to)[0] == m);
    lemma_piece_moves_members(board, Pieces::PAWN, m);
    lemma_move_fields(board, Pieces::PAWN, from, to, m);
}

/// Whether `m` is a capture en passant: a pawn's move onto the en-passant
/// square from a square from which the pawn attacks it.
pub open spec fn is_en_passant_capture(board: Board, m: Move) -> bool {
    &&& m@.piece == Pieces::PAWN
    &&& m@.en_passant
    &&& holds(pawn_attacks(mover(board), m@.from as u64), m@.to as u64)
}

/// A capture en passant is generated exactly if some pawn of the side to
/// move attacks the en-passant square of the board.
pub proof fn lemma_en_passant_generated(board: Board)
    requires
        board_ok(board),
    ensures
        (exists|m: Move| #[trigger]
            piece_moves(board, Pieces::PAWN).contains(m) && is_en_passant_capture(board, m))
            <==> (exists|from: u64, ep: u8|
            #![trigger holds(pawn_attacks(mover(board), from), ep as u64)]
            board.state.en_passant == Some(ep) && holds(
                board.bb_pieces[mover(board)][Pieces::PAWN as int],
                from,
            ) && holds(pawn_attacks(mover(board), from), ep as u64)),
{
    if exists|m: Move| #[trigger]
        piece_moves(board, Pieces::PAWN).contains(m) && is_en_passant_capture(board, m) {
        let m = choose|m: Move| #[trigger]
            piece_moves(board, Pieces::PAWN).contains(m) && is_en_passant_capture(board, m);
        lemma_piece_moves_members(board, Pieces::PAWN, m);
        let (from, to) = choose|from: u64, to: u64|
            #![trigger goes(board, Pieces::PAWN, from, to)]
            goes(board, Pieces::PAWN, from, to) && moves_onto(
                board,
                Pieces::PAWN,
                from,
                to,
            ).contains(m);
        lemma_move_fields(board, Pieces::PAWN, from, to, m);
        let ep = to as u8;
        assert(holds(pawn_attacks(mover(board), from), ep as u64));
    }
    if exists|from: u64, ep: u8|
        #![trigger holds(pawn_attacks(mover(board), from), ep as u64)]
        board.state.en_passant == Some(ep) && holds(
            board.bb_pieces[mover(board)][Pieces::PAWN as int],
            from,
        ) && holds(pawn_attacks(mover(board), from), ep as u64) {
        let (from, ep) = choose|from: u64, ep: u8|
            #![trigger holds(pawn_attacks(mover(board), from), ep as u64)]
            board.state.en_passant == Some(ep) && holds(
                board.bb_pieces[mover(board)][Pieces::PAWN as int],
                from,
            ) && holds(pawn_attacks(mover(board), from), ep as u64);
        let to = ep as u64;
        lemma_pawn_bits(
            occupied(board),
            board.bb_side[1 - mover(board)],
            en_passant_square(board),
            from,
            to,
        );
        assert(goes(board, Pieces::PAWN, from, to));
        let m = moves_onto(board, Pieces::PAWN, from, to)[0];
        assert(moves_onto(board, Pieces::PAWN, from, to).contains(m));
        lemma_piece_moves_members(board, Pieces::PAWN, m);
        lemma_move_fields(board, Pieces::PAWN, from, to, m);
        assert(piece_moves(board, Pieces::PAWN).contains(m) && is_en_passant_capture(board, m));
    }
}

/// A king's step is never two places wide, and the facts of one-square sets
/// that the castling moves need.
proof fn lemma_castling_bits(s: u64, t: u64, j: u64, x: u64)
    by (bit_vector)
    requires
        s < 64,
        t < 64,
        j < 64,
    ensures
        ((king_attacks(s) & x) >> t) & 1 == 1 ==> !(t == s + 2 || s == t + 2),
        ((1u64 << t) >> j) & 1 == 1 ==> j == t,
        ((1u64 << t) >> t) & 1 == 1,
        (1u64 << t) ^ (1u64 << t) == 0,
        (1u64 << t) != 0,
        s == 4 ==> (1u64 << s) << 2 == 1u64 << 6 && (1u64 << s) >> 2 == 1u64 << 2,
        s == 60 ==> (1u64 << s) << 2 == 1u64 << 62 && (1u64 << s) >> 2 == 1u64 << 58,
{
}

/// A set of one square lists that square.
proof fn lemma_single_square(t: u64)
    requires
        t < 64,
    ensures
        squares_of(bit(t)) == seq![t],
{
    lemma_castling_bits(0, t, 0, 0);
    lemma_squares_pop(bit(t));
    lemma_castling_bits(0, t, u64_trailing_zeros(bit(t)) as u64, 0);
    lemma_squares_of_empty();
    assert(seq![t] + Seq::<u64>::empty() =~= seq![t]);
}

/// No move of a piece to a square that it attacks, and no move of a pawn,
/// has the castling flag.
proof fn lemma_piece_move_not_castling(board: Board, piece: Piece, m: Move)
    requires
        piece < 6,
        piece_moves(board, piece).contains(m),
    ensures
        !m@.castling,
{
    lemma_piece_moves_members(board, piece, m);
    let (from, to) = choose|from: u64, to: u64|
        #![trigger goes(board, piece, from, to)]
        goes(board, piece, from, to) && moves_onto(board, piece, from, to).contains(m);
    lemma_move_fields(board, piece, from, to, m);
    if piece == Pieces::KING {
        lemma_castling_bits(from, to, 0, !board.bb_side[mover(board)]);
    }
}

/// The square on which the king of the side to move starts the game.
pub open spec fn king_home(board: Board) -> u64 {
    if mover(board) == 0 {
        4
    } else {
        60
    }
}

/// Whether the king of the side to move stands on its home square (the
/// lowest of the side's king squares, should there be several).
pub open spec fn king_at_home(board: Board) -> bool {
    let kings = board.bb_pieces[mover(board)][Pieces::KING as int];
    kings != 0 && u64_trailing_zeros(kings) == king_home(board)
}

/// Whether the side to move may castle to the given wing: it has the right,
/// no piece stands between king and rook, and the opponent attacks neither
/// the king's square nor the square that the king crosses.
pub open spec fn may_castle_wing(board: Board, kingside: bool) -> bool {
    if mover(board) == 0 {
        if kingside {
            may_castle(board, 1, WHITE_KINGSIDE_PATH, 4, 5)
        } else {
            may_castle(board, 2, WHITE_QUEENSIDE_PATH, 4, 3)
        }
    } else {
        if kingside {
            may_castle(board, 4, BLACK_KINGSIDE_PATH, 60, 61)
        } else {
            may_castle(board, 8, BLACK_QUEENSIDE_PATH, 60, 59)
        }
    }
}

/// Where the king arrives when it castles to the given wing.
pub open spec fn castle_target(board: Board, kingside: bool) -> u64 {
    if kingside {
        (king_home(board) + 2) as u64
    } else {
        (king_home(board) - 2) as u64
    }
}

/// With the king on its home square, the castling move to a wing is
/// generated exactly if the side to move has the right, no piece stands
/// between king and rook, and the opponent attacks neither the king's square
/// nor the square that the king crosses.
pub proof fn lemma_castling_generated(board: Board, kingside: bool)
    requires
        board_ok(board),
        king_at_home(board),
    ensures
        (exists|m: Move| #[trigger]
            all_moves(board).contains(m) && m@.castling && m@.to == castle_target(board, kingside))
            <==> may_castle_wing(board, kingside),
{
    let home = king_home(board);
    let king_side = if mover(board) == 0 {
        castling_to(board, 1, WHITE_KINGSIDE_PATH, 4, 5, home, bit(home) << 2)
    } else {
        castling_to(board, 4, BLACK_KINGSIDE_PATH, 60, 61, home, bit(home) << 2)
    };
    let queen_side = if mover(board) == 0 {
        castling_to(board, 2, WHITE_QUEENSIDE_PATH, 4, 3, home, bit(home) >> 2)
    } else {
        castling_to(board, 8, BLACK_QUEENSIDE_PATH, 60, 59, home, bit(home) >> 2)
    };
    assert(castling_moves(board) == king_side + queen_side);
    let east = (home + 2) as u64;
    let west = (home - 2) as u64;
    lemma_castling_bits(home, east, 0, 0);
    lemma_single_square(east);
    lemma_single_square(west);
    let to_east = moves_to(board, Pieces::KING, home, seq![east]);
    let to_west = moves_to(board, Pieces::KING, home, seq![west]);
    let move_east = move_of(board, Pieces::KING, home, east, 0);
    let move_west = move_of(board, Pieces::KING, home, west, 0);
    assert(seq![east].drop_first() =~= Seq::<u64>::empty());
    assert(seq![west].drop_first() =~= Seq::<u64>::empty());
    assert(moves_to(board, Pieces::KING, home, Seq::<u64>::empty()) =~= Seq::<Move>::empty());
    assert(moves_onto(board, Pieces::KING, home, east) =~= seq![move_east]);
    assert(moves_onto(board, Pieces::KING, home, west) =~= seq![move_west]);
    assert(to_east =~= seq![move_east]);
    assert(to_west =~= seq![move_west]);
    assert(moves_onto(board, Pieces::KING, home, east)[0] == move_east);
    assert(moves_onto(board, Pieces::KING, home, west)[0] == move_west);
    lemma_move_fields(board, Pieces::KING, home, east, move_east);
    lemma_move_fields(board, Pieces::KING, home, west, move_west);

    let k = piece_moves(board, Pieces::KING);
    let n = piece_moves(board, Pieces::KNIGHT);
    let q = piece_moves(board, Pieces::QUEEN);
    let r = piece_moves(board, Pieces::ROOK);
    let b = piece_moves(board, Pieces::BISHOP);
    let p = piece_moves(board, Pieces::PAWN);
    let c = castling_moves(board);
    assert forall|m: Move| #[trigger] all_moves(board).contains(m) && m@.castling implies c.contains(
        m,
    ) by {
        lemma_contains_concat(k + n + q + r + b + p, c, m);
        lemma_contains_concat(k + n + q + r + b, p, m);
        lemma_contains_concat(k + n + q + r, b, m);
        lemma_contains_concat(k + n + q, r, m);
        lemma_contains_concat(k + n, q, m);
        lemma_contains_concat(k, n, m);
        if k.contains(m) {
            lemma_piece_move_not_castling(board, Pieces::KING, m);
        }
        if n.contains(m) {
            lemma_piece_move_not_castling(board, Pieces::KNIGHT, m);
        }
        if q.contains(m) {
            lemma_piece_move_not_castling(board, Pieces::QUEEN, m);
        }
        if r.contains(m) {
            lemma_piece_move_not_castling(board, Pieces::ROOK, m);
        }
        if b.contains(m) {
            lemma_piece_move_not_castling(board, Pieces::BISHOP, m);
        }
        if p.contains(m) {
            lemma_piece_move_not_castling(board, Pieces::PAWN, m);
        }
    }
    let target = castle_target(board, kingside);
    if exists|m: Move| #[trigger]
        all_moves(board).contains(m) && m@.castling && m@.to == target {
        let m = choose|m: Move| #[trigger]
            all_moves(board).contains(m) && m@.castling && m@.to == target;
        assert(c.contains(m));
        lemma_contains_concat(king_side, queen_side, m);
        if king_side.contains(m) {
            assert(king_side =~= to_east);
            assert(to_east[0] == m);
        }
        if queen_side.contains(m) {
            assert(queen_side =~= to_west);
            assert(to_west[0] == m);
        }
    }
    if may_castle_wing(board, kingside) {
        let m = if kingside {
            move_east
        } else {
            move_west
        };
        if kingside {
            assert(king_side =~= to_east);
            assert(king_side[0] == m);
        } else {
            assert(queen_side =~= to_west);
            assert(queen_side[0] == m);
        }
        lemma_contains_concat(king_side, queen_side, m);
        lemma_contains_concat(k + n + q + r + b + p, c, m);
        assert(all_moves(board).contains(m) && m@.castling && m@.to == target);
    }
}

/// What a piece of `kind` of `side` on `from` attacks on a board with the
/// given occupancy.
pub open spec fn real_attacks(kind: Piece, side: int, from: u64, occupancy: u64) -> u64 {
    if kind == Pieces::PAWN {
        pawn_attacks(side, from)
    } else {
        piece_attacks(kind, from, occupancy)
    }
}

/// Whether some piece of `attacker` attacks `square`, going through the
/// attacker's pieces one by one.
pub open spec fn attacked_by_scan(board: Board, attacker: int, square: u64) -> bool {
    exists|kind: Piece, from: u64|
        #![trigger holds(board.bb_pieces[attacker][kind as int], from)]
        kind < 6 && holds(board.bb_pieces[attacker][kind as int], from) && holds(
            real_attacks(kind, attacker, from, occupied(board)),
            square,
        )
}

/// What a piece of `kind` put on `square` looks at when it is asked whether
/// `attacker` attacks the square.
pub open spec fn outlook(kind: Piece, attacker: int, square: u64, occupancy: u64) -> u64 {
    if kind == Pieces::PAWN {
        pawn_attacks(1 - attacker, square)
    } else {
        piece_attacks(kind, square, occupancy)
    }
}

/// A piece put on `square` looks at `from` exactly if a piece of its kind of
/// the attacker on `from` attacks `square`.
proof fn lemma_outlook_mirrors(kind: Piece, attacker: int, square: u64, from: u64, occupancy: u64)
    requires
        kind < 6,
        0 <= attacker < 2,
        square < 64,
        from < 64,
    ensures
        holds(outlook(kind, attacker, square, occupancy), from) <==> holds(
            real_attacks(kind, attacker, from, occupancy),
            square,
        ),
{
    lemma_leaper_squares(square, from);
    lemma_leaper_squares(from, square);
    lemma_rook_symmetric(occupancy, square, from);
    lemma_bishop_symmetric(occupancy, square, from);
    lemma_holds(
        rook_attacks(square, occupancy),
        bishop_attacks(square, occupancy),
        0,
        0,
        0,
        from,
    );
    lemma_holds(rook_attacks(from, occupancy), bishop_attacks(from, occupancy), 0, 0, 0, square);
}

/// Looking from the square outwards finds an attacker exactly if going
/// through the attacker's pieces one by one finds one that attacks the square.
pub proof fn lemma_attacked_is_scan(board: Board, attacker: int, square: u64)
    requires
        0 <= attacker < 2,
        square < 64,
    ensures
        attacked(board, attacker, square) <==> attacked_by_scan(board, attacker, square),
{
    let pieces = board.bb_pieces[attacker];
    let occupancy = occupied(board);
    assert forall|kind: Piece| kind < 6 implies (outlook(kind, attacker, square, occupancy)
        & #[trigger] pieces[kind as int] > 0 <==> exists|from: u64|
        #![trigger holds(board.bb_pieces[attacker][kind as int], from)]
        holds(board.bb_pieces[attacker][kind as int], from) && holds(
            real_attacks(kind, attacker, from, occupancy),
            square,
        )) by {
        let look = outlook(kind, attacker, square, occupancy);
        lemma_meet(look, pieces[kind as int]);
        if look & pieces[kind as int] > 0 {
            let from = choose|from: u64| #[trigger]
                holds(look, from) && holds(pieces[kind as int], from);
            lemma_outlook_mirrors(kind, attacker, square, from, occupancy);
            assert(holds(board.bb_pieces[attacker][kind as int], from));
        }
        if exists|from: u64|
            #![trigger holds(board.bb_pieces[attacker][kind as int], from)]
            holds(board.bb_pieces[attacker][kind as int], from) && holds(
                real_attacks(kind, attacker, from, occupancy),
                square,
            ) {
            let from = choose|from: u64|
                #![trigger holds(board.bb_pieces[attacker][kind as int], from)]
                holds(board.bb_pieces[attacker][kind as int], from) && holds(
                    real_attacks(kind, attacker, from, occupancy),
                    square,
                );
            lemma_outlook_mirrors(kind, attacker, square, from, occupancy);
            assert(holds(look, from) && holds(pieces[kind as int], from));
        }
    }
    assert(attacked(board, attacker, square) <==> (exists|kind: Piece|
        kind < 6 && outlook(kind, attacker, square, occupancy) & #[trigger] pieces[kind as int]
            > 0)) by {
        assert(outlook(0, attacker, square, occupancy) == king_attacks(square));
        assert(outlook(1, attacker, square, occupancy) == rook_attacks(square, occupancy)
            | bishop_attacks(square, occupancy));
        assert(outlook(2, attacker, square, occupancy) == rook_attacks(square, occupancy));
        assert(outlook(3, attacker, square, occupancy) == bishop_attacks(square, occupancy));
        assert(outlook(4, attacker, square, occupancy) == knight_attacks(square));
        assert(outlook(5, attacker, square, occupancy) == pawn_attacks(1 - attacker, square));
        if attacked(board, attacker, square) {
            let kind: Piece = if king_attacks(square) & pieces[0] > 0 {
                0
            } else if rook_attacks(square, occupancy) & pieces[2] > 0 {
                2
            } else if bishop_attacks(square, occupancy) & pieces[3] > 0 {
                3
            } else if (rook_attacks(square, occupancy) | bishop_attacks(square, occupancy))
                & pieces[1] > 0 {
                1
            } else if knight_attacks(square) & pieces[4] > 0 {
                4
            } else {
                5
            };
            assert(outlook(kind, attacker, square, occupancy) & pieces[kind as int] > 0);
        }
    }
    if attacked(board, attacker, square) {
        let kind = choose|kind: Piece|
            kind < 6 && outlook(kind, attacker, square, occupancy) & #[trigger] pieces[kind as int]
                > 0;
        let from = choose|from: u64|
            #![trigger holds(board.bb_pieces[attacker][kind as int], from)]
            holds(board.bb_pieces[attacker][kind as int], from) && holds(
                real_attacks(kind, attacker, from, occupancy),
                square,
            );
        assert(attacked_by_scan(board, attacker, square));
    }
    if attacked_by_scan(board, attacker, square) {
        let (kind, from) = choose|kind: Piece, from: u64|
            #![trigger holds(board.bb_pieces[attacker][kind as int], from)]
            kind < 6 && holds(board.bb_pieces[attacker][kind as int], from) && holds(
                real_attacks(kind, attacker, from, occupied(board)),
                square,
            );
        assert(outlook(kind, attacker, square, occupancy) & pieces[kind as int] > 0);
    }
}

} // verus!
