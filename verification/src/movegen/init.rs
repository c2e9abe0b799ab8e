//! Filling the attack tables.

use vstd::prelude::*;
use crate::board::defs::{Files, Pieces, Ranks, Sides, BB_FILES, BB_RANKS};
use crate::movegen::MoveGenerator;
use crate::movegen::defs::Compass;
use crate::movegen::geometry::{king_attacks, knight_attacks, pawn_attacks};
use crate::movegen::magics::{build_sliders, find_magics, first_invalid_of, is_magic, MagicError};

verus! {

impl MoveGenerator {
    /// Fills the king's table: from each square a step in each of the eight
    /// directions that does not leave the board.
    pub fn init_king(&mut self)
        ensures
            forall|sq: int| 0 <= sq < 64 ==> final(self).king[sq] == king_attacks(sq as u64),
            final(self).knight == old(self).knight,
            final(self).pawns == old(self).pawns,
            final(self).rook == old(self).rook,
            final(self).bishop == old(self).bishop,
            final(self).rook_magics == old(self).rook_magics,
            final(self).bishop_magics == old(self).bishop_magics,
    {
        let mut sq: usize = 0;
        while sq < 64
            invariant
                sq <= 64,
                forall|k: int| 0 <= k < sq ==> self.king[k] == king_attacks(k as u64),
                self.knight == old(self).knight,
                self.pawns == old(self).pawns,
                self.rook == old(self).rook,
                self.bishop == old(self).bishop,
                self.rook_magics == old(self).rook_magics,
                self.bishop_magics == old(self).bishop_magics,
            decreases 64 - sq,
        {
            let bb_square: u64 = 1u64 << sq;
            let bb_moves = Compass::northwest(
                bb_square & !BB_FILES[Files::A] & !BB_RANKS[Ranks::R8],
            ) | Compass::north(bb_square & !BB_RANKS[Ranks::R8]) | Compass::northeast(
                bb_square & !BB_FILES[Files::H] & !BB_RANKS[Ranks::R8],
            ) | Compass::west(bb_square & !BB_FILES[Files::A]) | Compass::east(
                bb_square & !BB_FILES[Files::H],
            ) | Compass::southwest(bb_square & !BB_FILES[Files::A] & !BB_RANKS[Ranks::R1])
                | Compass::south(bb_square & !BB_RANKS[Ranks::R1]) | Compass::southeast(
                bb_square & !BB_FILES[Files::H] & !BB_RANKS[Ranks::R1],
            );

            self.king[sq] = bb_moves;
            sq += 1;
        }
    }

    /// Fills the knight's table: from each square each of the eight jumps
    /// that does not leave the board.
    pub fn init_knight(&mut self)
        ensures
            forall|sq: int| 0 <= sq < 64 ==> final(self).knight[sq] == knight_attacks(sq as u64),
            final(self).king == old(self).king,
            final(self).pawns == old(self).pawns,
            final(self).rook == old(self).rook,
            final(self).bishop == old(self).bishop,
            final(self).rook_magics == old(self).rook_magics,
            final(self).bishop_magics == old(self).bishop_magics,
    {
        let mut sq: usize = 0;
        while sq < 64
            invariant
                sq <= 64,
                forall|k: int| 0 <= k < sq ==> self.knight[k] == knight_attacks(k as u64),
                self.king == old(self).king,
                self.pawns == old(self).pawns,
                self.rook == old(self).rook,
                self.bishop == old(self).bishop,
                self.rook_magics == old(self).rook_magics,
                self.bishop_magics == old(self).bishop_magics,
            decreases 64 - sq,
        {
            let bb_square: u64 = 1u64 << sq;
            let bb_moves = Compass::north_north_west(
                bb_square & !BB_RANKS[Ranks::R8] & !BB_RANKS[Ranks::R7] & !BB_FILES[Files::A],
            ) | Compass::north_north_east(
                bb_square & !BB_RANKS[Ranks::R8] & !BB_RANKS[Ranks::R7] & !BB_FILES[Files::H],
            ) | Compass::north_west_west(
                bb_square & !BB_FILES[Files::A] & !BB_FILES[Files::B] & !BB_RANKS[Ranks::R8],
            ) | Compass::north_east_east(
                bb_square & !BB_FILES[Files::G] & !BB_FILES[Files::H] & !BB_RANKS[Ranks::R8],
            ) | Compass::south_south_west(
                bb_square & !BB_RANKS[Ranks::R1] & !BB_RANKS[Ranks::R2] & !BB_FILES[Files::A],
            ) | Compass::south_south_east(
                bb_square & !BB_RANKS[Ranks::R1] & !BB_RANKS[Ranks::R2] & !BB_FILES[Files::H],
            ) | Compass::south_west_west(
                bb_square & !BB_FILES[Files::A] & !BB_FILES[Files::B] & !BB_RANKS[Ranks::R1],
            ) | Compass::south_east_east(
                bb_square & !BB_FILES[Files::G] & !BB_FILES[Files::H] & !BB_RANKS[Ranks::R1],
            );

            self.knight[sq] = bb_moves;
            sq += 1;
        }
    }

    /// Fills the pawns' tables: from each square the two squares that a pawn
    /// of each side captures on.
    pub fn init_pawns(&mut self)
        ensures
            forall|sq: int|
                0 <= sq < 64 ==> final(self).pawns[0][sq] == pawn_attacks(0, sq as u64)
                    && final(self).pawns[1][sq] == pawn_attacks(1, sq as u64),
            final(self).king == old(self).king,
            final(self).knight == old(self).knight,
            final(self).rook == old(self).rook,
            final(self).bishop == old(self).bishop,
            final(self).rook_magics == old(self).rook_magics,
            final(self).bishop_magics == old(self).bishop_magics,
    {
        let mut sq: usize = 0;
        while sq < 64
            invariant
                sq <= 64,
                forall|k: int|
                    0 <= k < sq ==> self.pawns[0][k] == pawn_attacks(0, k as u64)
                        && self.pawns[1][k] == pawn_attacks(1, k as u64),
                self.king == old(self).king,
                self.knight == old(self).knight,
                self.rook == old(self).rook,
                self.bishop == old(self).bishop,
                self.rook_magics == old(self).rook_magics,
                self.bishop_magics == old(self).bishop_magics,
            decreases 64 - sq,
        {
            let bb_square: u64 = 1u64 << sq;
            let w = Compass::northwest(bb_square & !BB_FILES[Files::A]) | Compass::northeast(
                bb_square & !BB_FILES[Files::H],
            );
            let b = Compass::southwest(bb_square & !BB_FILES[Files::A]) | Compass::southeast(
                bb_square & !BB_FILES[Files::H],
            );
            self.pawns[Sides::WHITE][sq] = w;
            self.pawns[Sides::BLACK][sq] = b;
            sq += 1;
        }
    }

    /// Builds the attack tables of the sliders with magic numbers that a
    /// search finds (see [`find_magics`]). Slow; where the search fails for
    /// either piece, nothing is changed.
    pub fn init_magics(&mut self, seed: Option<u64>, max_attempts: Option<u64>) -> (done: Result<
        (),
        MagicError,
    >)
        ensures
            final(self).king == old(self).king,
            final(self).knight == old(self).knight,
            final(self).pawns == old(self).pawns,
            match done {
                Ok(_) => final(self).sliders_ready(),
                Err(e) => {
                    &&& final(self).rook == old(self).rook
                    &&& final(self).bishop == old(self).bishop
                    &&& final(self).rook_magics == old(self).rook_magics
                    &&& final(self).bishop_magics == old(self).bishop_magics
                    &&& e is NoEntropy ==> seed is None
                    &&& !(e is InvalidMagic)
                },
            },
    {
        let (rook, rook_magics) = match find_magics(Pieces::ROOK, seed, max_attempts) {
            Ok(found) => found,
            Err(e) => {
                return Err(e);
            },
        };
        let (bishop, bishop_magics) = match find_magics(Pieces::BISHOP, seed, max_attempts) {
            Ok(found) => found,
            Err(e) => {
                return Err(e);
            },
        };
        self.rook = rook;
        self.rook_magics = rook_magics;
        self.bishop = bishop;
        self.bishop_magics = bishop_magics;
        Ok(())
    }

    /// Builds the attack tables of the sliders with the magic numbers given,
    /// one for each square and piece. Succeeds exactly if every number is a
    /// magic number for its square; else the error names the first that is
    /// not, rooks before bishops, and nothing is changed.
    pub fn init_magics_with_precalc(
        &mut self,
        rook_magics: [u64; 64],
        bishop_magics: [u64; 64],
    ) -> (done: Result<(), MagicError>)
        ensures
            final(self).king == old(self).king,
            final(self).knight == old(self).knight,
            final(self).pawns == old(self).pawns,
            done is Ok <==> all_magic(rook_magics, bishop_magics),
            match done {
                Ok(_) => {
                    &&& final(self).sliders_ready()
                    &&& forall|sq: int|
                        0 <= sq < 64 ==> (#[trigger] final(self).rook_magics[sq]).number
                            == rook_magics[sq]
                    &&& forall|sq: int|
                        0 <= sq < 64 ==> (#[trigger] final(self).bishop_magics[sq]).number
                            == bishop_magics[sq]
                },
                Err(e) => {
                    &&& final(self).rook == old(self).rook
                    &&& final(self).bishop == old(self).bishop
                    &&& final(self).rook_magics == old(self).rook_magics
                    &&& final(self).bishop_magics == old(self).bishop_magics
                    &&& first_invalid(rook_magics, bishop_magics, e)
                },
            },
    {
        let (rook, rook_numbers) = match build_sliders(Pieces::ROOK, &rook_magics) {
            Ok(built) => built,
            Err(e) => {
                proof {
                    let square = choose|square: usize|
                        first_invalid_of(Pieces::ROOK, rook_magics, square, e);
                    let sq = square as u64;
                    assert(!is_magic(Pieces::ROOK, sq, rook_magics[sq as int]));
                    assert(first_invalid_of(Pieces::ROOK, rook_magics, square, e));
                }
                return Err(e);
            },
        };
        let (bishop, bishop_numbers) = match build_sliders(Pieces::BISHOP, &bishop_magics) {
            Ok(built) => built,
            Err(e) => {
                proof {
                    let square = choose|square: usize|
                        first_invalid_of(Pieces::BISHOP, bishop_magics, square, e);
                    let sq = square as u64;
                    assert(!is_magic(Pieces::BISHOP, sq, bishop_magics[sq as int]));
                    assert(first_invalid_of(Pieces::BISHOP, bishop_magics, square, e));
                }
                return Err(e);
            },
        };
        self.rook = rook;
        self.rook_magics = rook_numbers;
        self.bishop = bishop;
        self.bishop_magics = bishop_numbers;
        Ok(())
    }
}

/// Whether each of the numbers is a magic number for its square and piece.
pub open spec fn all_magic(rook_magics: [u64; 64], bishop_magics: [u64; 64]) -> bool {
    forall|sq: u64|
        #![trigger rook_magics[sq as int]]
        #![trigger bishop_magics[sq as int]]
        sq < 64 ==> is_magic(Pieces::ROOK, sq, rook_magics[sq as int]) && is_magic(
            Pieces::BISHOP,
            sq,
            bishop_magics[sq as int],
        )
}

/// Whether `e` names the first of the numbers that is no magic number: the
/// first such rook number, or, where every rook number is one, the first
/// such bishop number.
pub open spec fn first_invalid(
    rook_magics: [u64; 64],
    bishop_magics: [u64; 64],
    e: MagicError,
) -> bool {
    ||| exists|square: usize| first_invalid_of(Pieces::ROOK, rook_magics, square, e)
    ||| {
        &&& exists|square: usize| first_invalid_of(Pieces::BISHOP, bishop_magics, square, e)
        &&& forall|sq: u64|
            sq < 64 ==> is_magic(Pieces::ROOK, sq, #[trigger] rook_magics[sq as int])
    }
}

} // verus!
