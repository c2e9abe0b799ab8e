//! What the generator is to produce: the pseudo-legal moves of a position,
//! stated over the geometry of the board alone.

use vstd::prelude::*;
use vstd::std_specs::bits::u64_trailing_zeros;
use crate::board::Board;
use crate::board::defs::{Piece, Pieces};
use crate::movegen::defs::{pack, Move, MoveFields};
use crate::movegen::geometry::{
    bishop_attacks,
    king_attacks,
    knight_attacks,
    pawn_attacks,
    rook_attacks,
};
use crate::utils::bits::{bit, squares_of};

verus! {

/// The squares of rank 4, where a white pawn's double step ends.
pub const RANK_4: u64 = 0x0000_0000_FF00_0000;

/// The squares of rank 5, where a black pawn's double step ends.
pub const RANK_5: u64 = 0x0000_00FF_0000_0000;

/// The squares between the white king and its king-side rook.
pub const WHITE_KINGSIDE_PATH: u64 = 0x0000_0000_0000_0060;

/// The squares between the white king and its queen-side rook.
pub const WHITE_QUEENSIDE_PATH: u64 = 0x0000_0000_0000_000E;

/// The squares between the black king and its king-side rook.
pub const BLACK_KINGSIDE_PATH: u64 = 0x6000_0000_0000_0000;

/// The squares between the black king and its queen-side rook.
pub const BLACK_QUEENSIDE_PATH: u64 = 0x0E00_0000_0000_0000;

/// What the generator asks of a board: one of the two sides is to move, and
/// the en-passant square, if there is one, is a square.
pub open spec fn board_ok(board: Board) -> bool {
    &&& board.state.active_side < 2
    &&& board.state.en_passant matches Some(ep) ==> ep < 64
}

/// The side to move.
pub open spec fn mover(board: Board) -> int {
    board.state.active_side as int
}

/// The squares that either side occupies.
pub open spec fn occupied(board: Board) -> u64 {
    board.bb_side[0] | board.bb_side[1]
}

/// What a piece other than a pawn attacks from `square` on a board with the
/// given occupancy. The queen attacks what rook and bishop do.
pub open spec fn piece_attacks(piece: Piece, square: u64, occupancy: u64) -> u64 {
    if piece == Pieces::KING {
        king_attacks(square)
    } else if piece == Pieces::KNIGHT {
        knight_attacks(square)
    } else if piece == Pieces::ROOK {
        rook_attacks(square, occupancy)
    } else if piece == Pieces::BISHOP {
        bishop_attacks(square, occupancy)
    } else {
        rook_attacks(square, occupancy) | bishop_attacks(square, occupancy)
    }
}

/// Where a pawn can step to from `from` over the `empty` squares: one square
/// ahead if that is empty, and from there one more onto the fourth rank of
/// its side if that is empty too. Ahead is north for White, south for Black.
/// A pawn on the last rank steps nowhere.
pub open spec fn push_squares(white: bool, empty: u64, from: u64) -> u64 {
    if white {
        if from < 56 {
            let one = bit((from + 8) as u64) & empty;
            one | ((one << 8) & empty & RANK_4)
        } else {
            0
        }
    } else {
        if from >= 8 {
            let one = bit((from - 8) as u64) & empty;
            one | ((one >> 8) & empty & RANK_5)
        } else {
            0
        }
    }
}

/// Where a pawn of the side to move can step to from `from`.
pub open spec fn pawn_pushes(board: Board, from: u64) -> u64 {
    push_squares(mover(board) == 0, !occupied(board), from)
}

/// The en-passant square as a set: empty where there is none.
pub open spec fn en_passant_square(board: Board) -> u64 {
    match board.state.en_passant {
        Some(ep) => bit(ep as u64),
        None => 0,
    }
}

/// Where a pawn of the side to move can capture from `from`: the squares it
/// attacks that the opponent occupies, and the en-passant square if it
/// attacks that.
pub open spec fn pawn_captures(board: Board, from: u64) -> u64 {
    let targets = pawn_attacks(mover(board), from);
    (targets & board.bb_side[1 - mover(board)]) | (targets & en_passant_square(board))
}

/// The squares that a piece of the side to move can go to from `from`.
pub open spec fn targets_of(board: Board, piece: Piece, from: u64) -> u64 {
    if piece == Pieces::PAWN {
        pawn_pushes(board, from) | pawn_captures(board, from)
    } else {
        piece_attacks(piece, from, occupied(board)) & !board.bb_side[mover(board)]
    }
}

/// Whether a pawn that arrives on `to` is promoted: on the last rank of the
/// side to move.
pub open spec fn promotes(board: Board, piece: Piece, to: u64) -> bool {
    piece == Pieces::PAWN && (if mover(board) == 0 {
        to / 8 == 7
    } else {
        to / 8 == 0
    })
}

/// Whether the move is a pawn's double step.
pub open spec fn is_double_step(piece: Piece, from: u64, to: u64) -> bool {
    piece == Pieces::PAWN && (to == from + 16 || from == to + 16)
}

/// Whether the move is a castling move: the king goes two squares along its rank.
pub open spec fn is_castling(piece: Piece, from: u64, to: u64) -> bool {
    piece == Pieces::KING && (to == from + 2 || from == to + 2)
}

/// The move of `piece` from `from` to `to`, promoted to `promoted` (the zero
/// kind where it is not). The en-passant flag is set where a pawn goes to
/// the en-passant square. The captured kind is left zero.
pub open spec fn move_of(board: Board, piece: Piece, from: u64, to: u64, promoted: Piece) -> Move {
    Move {
        data: pack(
            MoveFields {
                piece: piece as nat,
                from: from as nat,
                to: to as nat,
                captured: 0,
                promoted: promoted as nat,
                en_passant: piece == Pieces::PAWN && board.state.en_passant == Some(to as u8),
                double_step: is_double_step(piece, from, to),
                castling: is_castling(piece, from, to),
                sort_score: 0,
            },
        ),
    }
}

/// The moves of `piece` from `from` onto `to`: one move, or, where a pawn is
/// promoted, one for each of queen, rook, bishop and knight in this order.
pub open spec fn moves_onto(board: Board, piece: Piece, from: u64, to: u64) -> Seq<Move> {
    if promotes(board, piece, to) {
        seq![
            move_of(board, piece, from, to, Pieces::QUEEN),
            move_of(board, piece, from, to, Pieces::ROOK),
            move_of(board, piece, from, to, Pieces::BISHOP),
            move_of(board, piece, from, to, Pieces::KNIGHT),
        ]
    } else {
        seq![move_of(board, piece, from, to, 0)]
    }
}

/// The moves of `piece` from `from` onto each of `targets`, in their order.
pub open spec fn moves_to(board: Board, piece: Piece, from: u64, targets: Seq<u64>) -> Seq<Move>
    decreases targets.len(),
{
    if targets.len() == 0 {
        Seq::empty()
    } else {
        moves_onto(board, piece, from, targets[0]) + moves_to(
            board,
            piece,
            from,
            targets.drop_first(),
        )
    }
}

/// The moves of the pieces of one kind that stand on `froms`, in their
/// order, each to the squares it can go to in ascending order.
pub open spec fn moves_from(board: Board, piece: Piece, froms: Seq<u64>) -> Seq<Move>
    decreases froms.len(),
{
    if froms.len() == 0 {
        Seq::empty()
    } else {
        moves_to(board, piece, froms[0], squares_of(targets_of(board, piece, froms[0])))
            + moves_from(board, piece, froms.drop_first())
    }
}

/// The moves of all the pieces of one kind of the side to move, from the
/// lowest square up.
pub open spec fn piece_moves(board: Board, piece: Piece) -> Seq<Move> {
    moves_from(board, piece, squares_of(board.bb_pieces[mover(board)][piece as int]))
}

/// Whether `attacker` attacks `square`: whether a king, rook, bishop, knight
/// or pawn standing on `square` would attack a piece of `attacker` of its own
/// kind, or a rook or bishop there a queen. The pawn is one of the other
/// side, for pawns capture in the direction in which they move.
pub open spec fn attacked(board: Board, attacker: int, square: u64) -> bool {
    let pieces = board.bb_pieces[attacker];
    let occupancy = occupied(board);
    let bb_rook = rook_attacks(square, occupancy);
    let bb_bishop = bishop_attacks(square, occupancy);
    ||| king_attacks(square) & pieces[Pieces::KING as int] > 0
    ||| bb_rook & pieces[Pieces::ROOK as int] > 0
    ||| bb_bishop & pieces[Pieces::BISHOP as int] > 0
    ||| (bb_rook | bb_bishop) & pieces[Pieces::QUEEN as int] > 0
    ||| knight_attacks(square) & pieces[Pieces::KNIGHT as int] > 0
    ||| pawn_attacks(1 - attacker, square) & pieces[Pieces::PAWN as int] > 0
}

/// Whether the side to move may castle to one wing: it has the right, the
/// squares of `path` between king and rook are empty, and the opponent
/// attacks neither the king's home square nor the square next to it that the
/// king crosses.
pub open spec fn may_castle(board: Board, right: u8, path: u64, home: u64, crossed: u64) -> bool {
    &&& board.state.castling & right > 0
    &&& occupied(board) & path == 0
    &&& !attacked(board, 1 - mover(board), crossed)
    &&& !attacked(board, 1 - mover(board), home)
}

/// The castling move to one wing, if the side to move may castle there: the
/// king goes from where it stands to the square that `target` holds.
pub open spec fn castling_to(
    board: Board,
    right: u8,
    path: u64,
    home: u64,
    crossed: u64,
    from: u64,
    target: u64,
) -> Seq<Move> {
    if may_castle(board, right, path, home, crossed) {
        moves_to(board, Pieces::KING, from, squares_of(target))
    } else {
        Seq::empty()
    }
}

/// The castling moves of the side to move, king side first. The king is the
/// lowest of the side's king squares; without a king there are none.
pub open spec fn castling_moves(board: Board) -> Seq<Move> {
    let kings = board.bb_pieces[mover(board)][Pieces::KING as int];
    let from = u64_trailing_zeros(kings) as u64;
    if kings == 0 {
        Seq::empty()
    } else if mover(board) == 0 {
        castling_to(board, 1, WHITE_KINGSIDE_PATH, 4, 5, from, bit(from) << 2) + castling_to(
            board,
            2,
            WHITE_QUEENSIDE_PATH,
            4,
            3,
            from,
            bit(from) >> 2,
        )
    } else {
        castling_to(board, 4, BLACK_KINGSIDE_PATH, 60, 61, from, bit(from) << 2) + castling_to(
            board,
            8,
            BLACK_QUEENSIDE_PATH,
            60,
            59,
            from,
            bit(from) >> 2,
        )
    }
}

/// All the pseudo-legal moves of the side to move: those of king, knights,
/// queens, rooks, bishops and pawns, then the castling moves.
pub open spec fn all_moves(board: Board) -> Seq<Move> {
    piece_moves(board, Pieces::KING) + piece_moves(board, Pieces::KNIGHT) + piece_moves(
        board,
        Pieces::QUEEN,
    ) + piece_moves(board, Pieces::ROOK) + piece_moves(board, Pieces::BISHOP) + piece_moves(
        board,
        Pieces::PAWN,
    ) + castling_moves(board)
}

} // verus!
