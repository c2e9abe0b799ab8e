//! The board: piece placement and game state.

pub mod boardstate;
pub mod defs;
pub mod fen;
pub mod material;

use vstd::prelude::*;
use crate::board::boardstate::BoardState;
use crate::board::defs::{BitBoard, Coordinate, Piece, Pieces, Side, Sides, Square, PIECE_VALUES};
use crate::utils::bits::{bit, holds};

verus! {

/// A chess board.
///
/// * `bb_pieces`: for each side, the squares of each piece kind.
/// * `bb_side`: the squares that each side occupies.
/// * `state`: the rest of the position.
#[derive(Clone, Copy, Debug)]
pub struct Board {
    pub bb_pieces: [[BitBoard; 6]; 2],
    pub bb_side: [BitBoard; 2],
    pub state: BoardState,
}

/// The lowest piece kind from `piece` on that has `square` among `rows`.
pub open spec fn first_kind_on(rows: [BitBoard; 6], square: u64, piece: nat) -> Option<Piece>
    decreases 6 - piece,
{
    if piece >= 6 {
        None
    } else if rows[piece as int] & bit(square) > 0 {
        Some(piece as Piece)
    } else {
        first_kind_on(rows, square, piece + 1)
    }
}

/// The piece kind that `side` has on `square`: the lowest kind whose squares
/// hold it, provided the side's occupancy holds it too.
pub open spec fn kind_on(board: Board, side: int, square: u64) -> Option<Piece> {
    if board.bb_side[side] & bit(square) > 0 {
        first_kind_on(board.bb_pieces[side], square, 0)
    } else {
        None
    }
}

/// The union of the six piece sets.
pub open spec fn occupancy_of(rows: [BitBoard; 6]) -> u64 {
    0 | rows[0] | rows[1] | rows[2] | rows[3] | rows[4] | rows[5]
}

impl Board {
    /// An empty board.
    pub fn new() -> (board: Self)
        ensures
            forall|s: int, p: int| 0 <= s < 2 && 0 <= p < 6 ==> board.bb_pieces[s][p] == 0,
            board.bb_side[0] == 0,
            board.bb_side[1] == 0,
            board.state.active_side == 0,
            board.state.castling == 0,
            board.state.en_passant is None,
            board.state.half_move_clock == 0,
            board.state.full_move_number == 0,
            board.state.material[0] == 0,
            board.state.material[1] == 0,
    {
        Self { bb_pieces: [[0; 6]; 2], bb_side: [0; 2], state: BoardState::new() }
    }

    /// Derives the occupancy and the material of both sides from the piece sets.
    pub fn init(&mut self)
        requires
            material::material_of(old(self).bb_pieces[0]@) <= u16::MAX,
            material::material_of(old(self).bb_pieces[1]@) <= u16::MAX,
        ensures
            final(self).bb_pieces == old(self).bb_pieces,
            final(self).bb_side[0] == occupancy_of(old(self).bb_pieces[0]),
            final(self).bb_side[1] == occupancy_of(old(self).bb_pieces[1]),
            final(self).state.material[0] == material::material_of(old(self).bb_pieces[0]@),
            final(self).state.material[1] == material::material_of(old(self).bb_pieces[1]@),
            final(self).state.active_side == old(self).state.active_side,
            final(self).state.castling == old(self).state.castling,
            final(self).state.en_passant == old(self).state.en_passant,
            final(self).state.half_move_clock == old(self).state.half_move_clock,
            final(self).state.full_move_number == old(self).state.full_move_number,
    {
        let pieces_per_side_bitboards = self.init_pieces_per_side_bitboards();

        self.bb_side[Sides::WHITE] = pieces_per_side_bitboards.0;
        self.bb_side[Sides::BLACK] = pieces_per_side_bitboards.1;

        let counted = material::count_material(&*self);
        self.state.material[Sides::WHITE] = counted.0;
        self.state.material[Sides::BLACK] = counted.1;
    }

    /// The side to play.
    pub fn current_side(&self) -> (side: usize)
        ensures
            side == self.state.active_side,
    {
        self.state.active_side as usize
    }

    /// The side opposite the side to play.
    pub fn opponent(&self) -> (side: usize)
        ensures
            side == self.state.active_side ^ 1,
            self.state.active_side == 0 ==> side == 1,
            self.state.active_side == 1 ==> side == 0,
    {
        proof {
            let a = self.state.active_side;
            assert((a == 0 ==> a ^ 1 == 1) && (a == 1 ==> a ^ 1 == 0)) by (bit_vector);
        }
        (self.state.active_side ^ 1) as usize
    }

    /// The piece on `square` and its owner: White's if White has one there,
    /// else Black's; the error is [`Pieces::NONE`] when neither has.
    pub fn get_piece_on_square(&self, square: Square) -> (found: Result<(Piece, Side), Piece>)
        requires
            square < 64,
        ensures
            found == (match kind_on(*self, 0, square as u64) {
                Some(piece) => Ok::<(Piece, Side), Piece>((piece, Sides::WHITE)),
                None => match kind_on(*self, 1, square as u64) {
                    Some(piece) => Ok((piece, Sides::BLACK)),
                    None => Err(Pieces::NONE),
                },
            }),
    {
        let bb_square: u64 = 1u64 << square;
        let mut side: usize = 0;
        while side < 2
            invariant
                square < 64,
                side <= 2,
                bb_square == bit(square as u64),
                forall|s: int| 0 <= s < side ==> (#[trigger] kind_on(*self, s, square as u64)) is None,
            decreases 2 - side,
        {
            if self.bb_side[side] & bb_square > 0 {
                let mut piece: usize = 0;
                while piece < 6
                    invariant
                        side < 2,
                        piece <= 6,
                        bb_square == bit(square as u64),
                        self.bb_side[side as int] & bit(square as u64) > 0,
                        forall|s: int|
                            0 <= s < side ==> (#[trigger] kind_on(*self, s, square as u64)) is None,
                        first_kind_on(self.bb_pieces[side as int], square as u64, 0)
                            == first_kind_on(
                            self.bb_pieces[side as int],
                            square as u64,
                            piece as nat,
                        ),
                    decreases 6 - piece,
                {
                    if bb_square & self.bb_pieces[side][piece] > 0 {
                        proof {
                            let row = self.bb_pieces[side as int][piece as int];
                            assert(bb_square & row == row & bb_square) by (bit_vector);
                            assert(kind_on(*self, side as int, square as u64) == Some(piece));
                        }
                        return Ok((piece, side));
                    }
                    proof {
                        let row = self.bb_pieces[side as int][piece as int];
                        assert(bb_square & row == row & bb_square) by (bit_vector);
                    }
                    piece += 1;
                }
            }
            side += 1;
        }
        Err(Pieces::NONE)
    }

    /// Moves a piece that stands on `from` to `to`.
    pub fn move_piece(&mut self, side: Side, piece: Piece, from: Square, to: Square)
        requires
            side < 2,
            piece < 6,
            from < 64,
            to < 64,
            old(self).bb_pieces[side as int][piece as int] & bit(from as u64) > 0,
            old(self).state.material[side as int] >= PIECE_VALUES[piece as int],
        ensures
            final(self).bb_pieces[side as int][piece as int] == (old(self).bb_pieces[side as int][piece as int]
                ^ bit(from as u64)) | bit(to as u64),
            final(self).bb_side[side as int] == (old(self).bb_side[side as int] ^ bit(from as u64))
                | bit(to as u64),
            forall|s: int, p: int|
                0 <= s < 2 && 0 <= p < 6 && !(s == side && p == piece)
                    ==> final(self).bb_pieces[s][p] == old(self).bb_pieces[s][p],
            final(self).bb_side[1 - side] == old(self).bb_side[1 - side],
            final(self).state == old(self).state,
    {
        self.remove_piece(side, piece, from);
        self.put_piece(side, piece, to);
        proof {
            assert(final(self).state.material =~= old(self).state.material);
        }
    }

    /// Puts a piece on the board and adds its value to its side's material.
    pub fn put_piece(&mut self, side: Side, piece: usize, square: Square)
        requires
            side < 2,
            piece < 6,
            square < 64,
            old(self).state.material[side as int] + PIECE_VALUES[piece as int] <= u16::MAX,
        ensures
            final(self).bb_pieces[side as int][piece as int] == old(self).bb_pieces[side as int][piece as int]
                | bit(square as u64),
            final(self).bb_side[side as int] == old(self).bb_side[side as int] | bit(square as u64),
            final(self).state.material[side as int] == old(self).state.material[side as int]
                + PIECE_VALUES[piece as int],
            forall|s: int, p: int|
                0 <= s < 2 && 0 <= p < 6 && !(s == side && p == piece)
                    ==> final(self).bb_pieces[s][p] == old(self).bb_pieces[s][p],
            final(self).bb_side[1 - side] == old(self).bb_side[1 - side],
            final(self).state.material[1 - side] == old(self).state.material[1 - side],
            final(self).state.active_side == old(self).state.active_side,
            final(self).state.castling == old(self).state.castling,
            final(self).state.en_passant == old(self).state.en_passant,
            final(self).state.half_move_clock == old(self).state.half_move_clock,
            final(self).state.full_move_number == old(self).state.full_move_number,
    {
        self.bb_pieces[side][piece] |= 1u64 << square;
        self.bb_side[side] |= 1u64 << square;
        self.state.material[side] += PIECE_VALUES[piece];
    }

    /// Takes a piece off the board and its value off its side's material.
    pub fn remove_piece(&mut self, side: Side, piece: usize, square: Square)
        requires
            side < 2,
            piece < 6,
            square < 64,
            old(self).state.material[side as int] >= PIECE_VALUES[piece as int],
        ensures
            final(self).bb_pieces[side as int][piece as int] == old(self).bb_pieces[side as int][piece as int]
                ^ bit(square as u64),
            final(self).bb_side[side as int] == old(self).bb_side[side as int] ^ bit(square as u64),
            final(self).state.material[side as int] == old(self).state.material[side as int]
                - PIECE_VALUES[piece as int],
            forall|s: int, p: int|
                0 <= s < 2 && 0 <= p < 6 && !(s == side && p == piece)
                    ==> final(self).bb_pieces[s][p] == old(self).bb_pieces[s][p],
            final(self).bb_side[1 - side] == old(self).bb_side[1 - side],
            final(self).state.material[1 - side] == old(self).state.material[1 - side],
            final(self).state.active_side == old(self).state.active_side,
            final(self).state.castling == old(self).state.castling,
            final(self).state.en_passant == old(self).state.en_passant,
            final(self).state.half_move_clock == old(self).state.half_move_clock,
            final(self).state.full_move_number == old(self).state.full_move_number,
    {
        self.bb_pieces[side][piece] ^= 1u64 << square;
        self.bb_side[side] ^= 1u64 << square;
        self.state.material[side] -= PIECE_VALUES[piece];
    }

    /// The occupancy of White and of Black, each the union of its piece sets.
    pub fn init_pieces_per_side_bitboards(&self) -> (sides: (BitBoard, BitBoard))
        ensures
            sides.0 == occupancy_of(self.bb_pieces[0]),
            sides.1 == occupancy_of(self.bb_pieces[1]),
    {
        let mut bb_white: BitBoard = 0;
        let mut bb_black: BitBoard = 0;
        bb_white |= self.bb_pieces[Sides::WHITE][0];
        bb_black |= self.bb_pieces[Sides::BLACK][0];
        bb_white |= self.bb_pieces[Sides::WHITE][1];
        bb_black |= self.bb_pieces[Sides::BLACK][1];
        bb_white |= self.bb_pieces[Sides::WHITE][2];
        bb_black |= self.bb_pieces[Sides::BLACK][2];
        bb_white |= self.bb_pieces[Sides::WHITE][3];
        bb_black |= self.bb_pieces[Sides::BLACK][3];
        bb_white |= self.bb_pieces[Sides::WHITE][4];
        bb_black |= self.bb_pieces[Sides::BLACK][4];
        bb_white |= self.bb_pieces[Sides::WHITE][5];
        bb_black |= self.bb_pieces[Sides::BLACK][5];
        (bb_white, bb_black)
    }

    /// The file and the rank of a square.
    pub fn square_on_file_rank(square: Square) -> (coordinate: Coordinate)
        requires
            square < 64,
        ensures
            coordinate.0 == square % 8,
            coordinate.1 == square / 8,
            coordinate.0 < 8,
            coordinate.1 < 8,
    {
        let file = (square % 8) as u8;
        let rank = (square / 8) as u8;
        (file, rank)
    }
}

} // verus!
