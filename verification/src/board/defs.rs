//! Types and constants of the board.

use vstd::prelude::*;
use crate::utils::bits::bit;

verus! {

/// A set of squares, one bit per square.
pub type BitBoard = u64;

/// A piece kind, one of the constants of [`Pieces`].
pub type Piece = usize;

/// A square, `rank * 8 + file`, in `0..64`.
pub type Square = usize;

/// A side, one of the constants of [`Sides`].
pub type Side = usize;

/// A coordinate of (file, rank).
pub type Coordinate = (u8, u8);

/// The empty square set.
pub const EMPTY: BitBoard = 0;

/// The squares of each file, from file A to file H.
pub const BB_FILES: [BitBoard; 8] = [
    0x0101_0101_0101_0101,
    0x0202_0202_0202_0202,
    0x0404_0404_0404_0404,
    0x0808_0808_0808_0808,
    0x1010_1010_1010_1010,
    0x2020_2020_2020_2020,
    0x4040_4040_4040_4040,
    0x8080_8080_8080_8080,
];

/// The squares of each rank, from rank 1 to rank 8.
pub const BB_RANKS: [BitBoard; 8] = [
    0x0000_0000_0000_00FF,
    0x0000_0000_0000_FF00,
    0x0000_0000_00FF_0000,
    0x0000_0000_FF00_0000,
    0x0000_00FF_0000_0000,
    0x0000_FF00_0000_0000,
    0x00FF_0000_0000_0000,
    0xFF00_0000_0000_0000,
];

/// The one-square set of each square.
pub const BB_SQUARES: [BitBoard; 64] = [
    0x0000_0000_0000_0001, 0x0000_0000_0000_0002, 0x0000_0000_0000_0004, 0x0000_0000_0000_0008,
    0x0000_0000_0000_0010, 0x0000_0000_0000_0020, 0x0000_0000_0000_0040, 0x0000_0000_0000_0080,
    0x0000_0000_0000_0100, 0x0000_0000_0000_0200, 0x0000_0000_0000_0400, 0x0000_0000_0000_0800,
    0x0000_0000_0000_1000, 0x0000_0000_0000_2000, 0x0000_0000_0000_4000, 0x0000_0000_0000_8000,
    0x0000_0000_0001_0000, 0x0000_0000_0002_0000, 0x0000_0000_0004_0000, 0x0000_0000_0008_0000,
    0x0000_0000_0010_0000, 0x0000_0000_0020_0000, 0x0000_0000_0040_0000, 0x0000_0000_0080_0000,
    0x0000_0000_0100_0000, 0x0000_0000_0200_0000, 0x0000_0000_0400_0000, 0x0000_0000_0800_0000,
    0x0000_0000_1000_0000, 0x0000_0000_2000_0000, 0x0000_0000_4000_0000, 0x0000_0000_8000_0000,
    0x0000_0001_0000_0000, 0x0000_0002_0000_0000, 0x0000_0004_0000_0000, 0x0000_0008_0000_0000,
    0x0000_0010_0000_0000, 0x0000_0020_0000_0000, 0x0000_0040_0000_0000, 0x0000_0080_0000_0000,
    0x0000_0100_0000_0000, 0x0000_0200_0000_0000, 0x0000_0400_0000_0000, 0x0000_0800_0000_0000,
    0x0000_1000_0000_0000, 0x0000_2000_0000_0000, 0x0000_4000_0000_0000, 0x0000_8000_0000_0000,
    0x0001_0000_0000_0000, 0x0002_0000_0000_0000, 0x0004_0000_0000_0000, 0x0008_0000_0000_0000,
    0x0010_0000_0000_0000, 0x0020_0000_0000_0000, 0x0040_0000_0000_0000, 0x0080_0000_0000_0000,
    0x0100_0000_0000_0000, 0x0200_0000_0000_0000, 0x0400_0000_0000_0000, 0x0800_0000_0000_0000,
    0x1000_0000_0000_0000, 0x2000_0000_0000_0000, 0x4000_0000_0000_0000, 0x8000_0000_0000_0000,
];

/// The half-move clock never exceeds this.
pub const MAX_MOVE_RULE: u8 = 100;

/// The full-move number never exceeds this.
pub const MAX_GAME_MOVES: u16 = 2048;

/// Upper-case letter of each piece kind, and `_` for no piece.
pub const PIECE_CHAR_CAPS: [&'static str; 7] = ["K", "Q", "R", "B", "N", "P", "_"];

/// Lower-case letter of each piece kind, and nothing for no piece.
pub const PIECE_CHAR_SMALL: [&'static str; 7] = ["k", "q", "r", "b", "n", "p", ""];

/// The name of each square.
pub const SQUARE_NAME: [&'static str; 64] = [
    "a1", "b1", "c1", "d1", "e1", "f1", "g1", "h1",
    "a2", "b2", "c2", "d2", "e2", "f2", "g2", "h2",
    "a3", "b3", "c3", "d3", "e3", "f3", "g3", "h3",
    "a4", "b4", "c4", "d4", "e4", "f4", "g4", "h4",
    "a5", "b5", "c5", "d5", "e5", "f5", "g5", "h5",
    "a6", "b6", "c6", "d6", "e6", "f6", "g6", "h6",
    "a7", "b7", "c7", "d7", "e7", "f7", "g7", "h7",
    "a8", "b8", "c8", "d8", "e8", "f8", "g8", "h8",
];

/// Material value of each piece kind, in hundredths of a pawn.
pub const PIECE_VALUES: [u16; 6] = [0, 900, 500, 300, 300, 100];

/// The first and the last square.
pub struct RangeOf;

impl RangeOf {
    pub const FIRST_SQUARE: Square = 0;

    pub const LAST_SQUARE: Square = 63;
}

/// How many there are of each thing.
pub struct NrOf;

impl NrOf {
    pub const PIECE_TYPES: usize = 6;

    pub const RANKS: usize = 8;

    pub const FILES: usize = 8;

    pub const SQUARES: usize = 64;
}

/// The two sides; `BOTH` is their number.
pub struct Sides;

impl Sides {
    pub const WHITE: Side = 0;

    pub const BLACK: Side = 1;

    pub const BOTH: Side = 2;
}

/// The squares by name.
pub struct Squares;

impl Squares {
    pub const A1: Square = 0;

    pub const B1: Square = 1;

    pub const C1: Square = 2;

    pub const D1: Square = 3;

    pub const E1: Square = 4;

    pub const F1: Square = 5;

    pub const G1: Square = 6;

    pub const H1: Square = 7;

    pub const A2: Square = 8;

    pub const B2: Square = 9;

    pub const C2: Square = 10;

    pub const D2: Square = 11;

    pub const E2: Square = 12;

    pub const F2: Square = 13;

    pub const G2: Square = 14;

    pub const H2: Square = 15;

    pub const A3: Square = 16;

    pub const B3: Square = 17;

    pub const C3: Square = 18;

    pub const D3: Square = 19;

    pub const E3: Square = 20;

    pub const F3: Square = 21;

    pub const G3: Square = 22;

    pub const H3: Square = 23;

    pub const A4: Square = 24;

    pub const B4: Square = 25;

    pub const C4: Square = 26;

    pub const D4: Square = 27;

    pub const E4: Square = 28;

    pub const F4: Square = 29;

    pub const G4: Square = 30;

    pub const H4: Square = 31;

    pub const A5: Square = 32;

    pub const B5: Square = 33;

    pub const C5: Square = 34;

    pub const D5: Square = 35;

    pub const E5: Square = 36;

    pub const F5: Square = 37;

    pub const G5: Square = 38;

    pub const H5: Square = 39;

    pub const A6: Square = 40;

    pub const B6: Square = 41;

    pub const C6: Square = 42;

    pub const D6: Square = 43;

    pub const E6: Square = 44;

    pub const F6: Square = 45;

    pub const G6: Square = 46;

    pub const H6: Square = 47;

    pub const A7: Square = 48;

    pub const B7: Square = 49;

    pub const C7: Square = 50;

    pub const D7: Square = 51;

    pub const E7: Square = 52;

    pub const F7: Square = 53;

    pub const G7: Square = 54;

    pub const H7: Square = 55;

    pub const A8: Square = 56;

    pub const B8: Square = 57;

    pub const C8: Square = 58;

    pub const D8: Square = 59;

    pub const E8: Square = 60;

    pub const F8: Square = 61;

    pub const G8: Square = 62;

    pub const H8: Square = 63;

    /// The set of the given squares.
    pub fn bb_of(squares: &[usize]) -> (result: BitBoard)
        requires
            forall|i: int| 0 <= i < squares@.len() ==> squares@[i] < 64,
        ensures
            result == union_of(squares@),
    {
        let mut result: BitBoard = 0;
        let mut i: usize = 0;
        while i < squares.len()
            invariant
                i <= squares@.len(),
                forall|k: int| 0 <= k < squares@.len() ==> squares@[k] < 64,
                result == union_of(squares@.take(i as int)),
            decreases squares@.len() - i,
        {
            proof {
                let head = squares@.take(i as int + 1);
                assert(head.drop_last() =~= squares@.take(i as int));
            }
            result |= 1u64 << squares[i];
            i += 1;
        }
        proof {
            assert(squares@.take(i as int) =~= squares@);
        }
        result
    }
}

/// The union of the one-square sets of `squares`.
pub open spec fn union_of(squares: Seq<usize>) -> u64
    decreases squares.len(),
{
    if squares.len() == 0 {
        0
    } else {
        union_of(squares.drop_last()) | bit(squares.last() as u64)
    }
}

/// The files by index.
pub struct Files;

impl Files {
    pub const A: usize = 0;

    pub const B: usize = 1;

    pub const C: usize = 2;

    pub const D: usize = 3;

    pub const E: usize = 4;

    pub const F: usize = 5;

    pub const G: usize = 6;

    pub const H: usize = 7;
}

/// The ranks by index.
pub struct Ranks;

impl Ranks {
    pub const R1: usize = 0;

    pub const R2: usize = 1;

    pub const R3: usize = 2;

    pub const R4: usize = 3;

    pub const R5: usize = 4;

    pub const R6: usize = 5;

    pub const R7: usize = 6;

    pub const R8: usize = 7;
}

/// The four castling rights, one bit each.
pub struct Castling;

impl Castling {
    pub const WK: u8 = 1;

    pub const WQ: u8 = 2;

    pub const BK: u8 = 4;

    pub const BQ: u8 = 8;

    pub const ALL: u8 = 15;
}

/// The piece kinds; `NONE` stands for no piece.
pub struct Pieces;

impl Pieces {
    pub const KING: Piece = 0;

    pub const QUEEN: Piece = 1;

    pub const ROOK: Piece = 2;

    pub const BISHOP: Piece = 3;

    pub const KNIGHT: Piece = 4;

    pub const PAWN: Piece = 5;

    pub const NONE: Piece = 6;
}

} // verus!
