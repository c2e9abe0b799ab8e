//! The packed move record, and the compass of bitboard shifts.

use vstd::prelude::*;
use vstd::string::StringExecFns;
use crate::board::defs::{BitBoard, Piece, Square, PIECE_CHAR_SMALL, SQUARE_NAME};

verus! {

/// A list of attack sets.
pub type AttackBoards = Vec<BitBoard>;

/// A list of blocker sets.
pub type BlockerBoards = Vec<BitBoard>;

/// Where each field of a [`Move`] starts, counted from the lowest bit.
///
/// | field       | bits | shift |
/// |-------------|------|-------|
/// | piece       | 3    | 0     |
/// | from        | 6    | 3     |
/// | to          | 6    | 9     |
/// | captured    | 3    | 15    |
/// | promoted    | 3    | 18    |
/// | en passant  | 1    | 21    |
/// | double step | 1    | 22    |
/// | castling    | 1    | 23    |
/// | sort score  | 32   | 24    |
pub struct Shift;

impl Shift {
    pub const PIECE: usize = 0;

    pub const FROM_SQ: usize = 3;

    pub const TO_SQ: usize = 9;

    pub const CAPTURE: usize = 15;

    pub const PROMOTION: usize = 18;

    pub const EN_PASSANT: usize = 21;

    pub const DOUBLE_STEP: usize = 22;

    pub const CASTLING: usize = 23;

    pub const SORTSCORE: usize = 24;
}

/// The fields of a move, unpacked.
pub struct MoveFields {
    pub piece: nat,
    pub from: nat,
    pub to: nat,
    pub captured: nat,
    pub promoted: nat,
    pub en_passant: bool,
    pub double_step: bool,
    pub castling: bool,
    pub sort_score: nat,
}

/// Whether each field fits the width that the packed word gives it.
pub open spec fn representable(f: MoveFields) -> bool {
    &&& f.piece < 8
    &&& f.from < 64
    &&& f.to < 64
    &&& f.captured < 8
    &&& f.promoted < 8
    &&& f.sort_score < 0x1_0000_0000
}

/// The packed word of the given fields.
pub open spec fn pack(f: MoveFields) -> u64 {
    (f.piece as u64) | (f.from as u64) << 3 | (f.to as u64) << 9 | (f.captured as u64) << 15 | (
    f.promoted as u64) << 18 | (if f.en_passant {
        1u64
    } else {
        0u64
    }) << 21 | (if f.double_step {
        1u64
    } else {
        0u64
    }) << 22 | (if f.castling {
        1u64
    } else {
        0u64
    }) << 23 | (f.sort_score as u64) << 24
}

/// The fields that a packed word holds.
pub open spec fn unpack(data: u64) -> MoveFields {
    MoveFields {
        piece: (data & 0b111) as nat,
        from: ((data >> 3) & 0b111111) as nat,
        to: ((data >> 9) & 0b111111) as nat,
        captured: ((data >> 15) & 0b111) as nat,
        promoted: ((data >> 18) & 0b111) as nat,
        en_passant: (data >> 21) & 1 == 1,
        double_step: (data >> 22) & 1 == 1,
        castling: (data >> 23) & 1 == 1,
        sort_score: ((data >> 24) & 0xFFFF_FFFF) as nat,
    }
}

/// Each field of a packed word is found again at its place.
proof fn lemma_pack_fields(
    piece: u64,
    from: u64,
    to: u64,
    captured: u64,
    promoted: u64,
    ep: u64,
    ds: u64,
    cs: u64,
    score: u64,
)
    by (bit_vector)
    requires
        piece < 8,
        from < 64,
        to < 64,
        captured < 8,
        promoted < 8,
        ep < 2,
        ds < 2,
        cs < 2,
        score < 0x1_0000_0000,
    ensures
        ({
            let data = piece | from << 3 | to << 9 | captured << 15 | promoted << 18 | ep << 21 | ds
                << 22 | cs << 23 | score << 24;
            &&& data & 0b111 == piece
            &&& (data >> 3) & 0b111111 == from
            &&& (data >> 9) & 0b111111 == to
            &&& (data >> 15) & 0b111 == captured
            &&& (data >> 18) & 0b111 == promoted
            &&& (data >> 21) & 1 == ep
            &&& (data >> 22) & 1 == ds
            &&& (data >> 23) & 1 == cs
            &&& (data >> 24) & 0xFFFF_FFFF == score
            &&& data < 0x100_0000_0000_0000
        }),
{
}

/// Each field of a word is as wide as its place.
proof fn lemma_field_ranges(data: u64)
    by (bit_vector)
    ensures
        data & 0b111 < 8,
        (data >> 3) & 0b111111 < 64,
        (data >> 9) & 0b111111 < 64,
        (data >> 15) & 0b111 < 8,
        (data >> 18) & 0b111 < 8,
        (data >> 21) & 1 < 2,
        (data >> 22) & 1 < 2,
        (data >> 23) & 1 < 2,
        (data >> 24) & 0xFFFF_FFFF < 0x1_0000_0000,
        data >> 0 == data,
{
}

/// A new sort score leaves the fields below it alone.
proof fn lemma_score_replaced(data: u64, value: u64)
    by (bit_vector)
    requires
        value < 0x1_0000_0000,
    ensures
        ({
            let after = (data & !(0xFFFF_FFFFu64 << 24)) | (value << 24);
            &&& after & 0b111 == data & 0b111
            &&& (after >> 3) & 0b111111 == (data >> 3) & 0b111111
            &&& (after >> 9) & 0b111111 == (data >> 9) & 0b111111
            &&& (after >> 15) & 0b111 == (data >> 15) & 0b111
            &&& (after >> 18) & 0b111 == (data >> 18) & 0b111
            &&& (after >> 21) & 1 == (data >> 21) & 1
            &&& (after >> 22) & 1 == (data >> 22) & 1
            &&& (after >> 23) & 1 == (data >> 23) & 1
            &&& (after >> 24) & 0xFFFF_FFFF == value
        }),
{
}

/// Packing any representable fields and unpacking the word gives the fields back.
pub proof fn lemma_pack_round_trip(f: MoveFields)
    requires
        representable(f),
    ensures
        unpack(pack(f)) == f,
{
    lemma_pack_fields(
        f.piece as u64,
        f.from as u64,
        f.to as u64,
        f.captured as u64,
        f.promoted as u64,
        if f.en_passant {
            1u64
        } else {
            0u64
        },
        if f.double_step {
            1u64
        } else {
            0u64
        },
        if f.castling {
            1u64
        } else {
            0u64
        },
        f.sort_score as u64,
    );
}

/// One move, packed into a single word.
#[derive(Clone, Copy, Debug, PartialEq, Eq, Structural)]
pub struct Move {
    pub data: u64,
}

impl View for Move {
    type V = MoveFields;

    open spec fn view(&self) -> MoveFields {
        unpack(self.data)
    }
}

impl Move {
    /// The move whose packed word is `data`.
    pub fn new(data: u64) -> (m: Self)
        ensures
            m.data == data,
    {
        Self { data }
    }

    /// The move with the given fields and a sort score of zero.
    pub fn encode(
        piece: Piece,
        from: Square,
        to: Square,
        captured: Piece,
        promoted: Piece,
        en_passant: bool,
        double_step: bool,
        castling: bool,
    ) -> (m: Self)
        requires
            piece < 8,
            from < 64,
            to < 64,
            captured < 8,
            promoted < 8,
        ensures
            m@ == (MoveFields {
                piece: piece as nat,
                from: from as nat,
                to: to as nat,
                captured: captured as nat,
                promoted: promoted as nat,
                en_passant,
                double_step,
                castling,
                sort_score: 0,
            }),
            m.data == pack(m@),
    {
        let ep: u64 = if en_passant {
            1
        } else {
            0
        };
        let ds: u64 = if double_step {
            1
        } else {
            0
        };
        let cs: u64 = if castling {
            1
        } else {
            0
        };
        proof {
            lemma_pack_fields(
                piece as u64,
                from as u64,
                to as u64,
                captured as u64,
                promoted as u64,
                ep,
                ds,
                cs,
                0,
            );
            assert(0u64 << 24 == 0) by (bit_vector);
            let d = (piece as u64) | (from as u64) << 3 | (to as u64) << 9 | (captured as u64) << 15
                | (promoted as u64) << 18 | ep << 21 | ds << 22 | cs << 23;
            assert(d | 0 == d) by (bit_vector);
        }
        let data: u64 = (piece as u64) | (from as u64) << Shift::FROM_SQ | (to as u64)
            << Shift::TO_SQ | (captured as u64) << Shift::CAPTURE | (promoted as u64)
            << Shift::PROMOTION | ep << Shift::EN_PASSANT | ds << Shift::DOUBLE_STEP | cs
            << Shift::CASTLING;
        Self { data }
    }

    /// The kind of the piece that moves.
    pub fn piece(&self) -> (piece: Piece)
        ensures
            piece == self@.piece,
            piece < 8,
    {
        proof {
            lemma_field_ranges(self.data);
        }
        ((self.data >> Shift::PIECE) & 0b111) as Piece
    }

    /// The square that the piece leaves.
    pub fn from(&self) -> (square: Square)
        ensures
            square == self@.from,
            square < 64,
    {
        proof {
            lemma_field_ranges(self.data);
        }
        ((self.data >> Shift::FROM_SQ) & 0b111111) as Square
    }

    /// The square that the piece arrives on.
    pub fn to(&self) -> (square: Square)
        ensures
            square == self@.to,
            square < 64,
    {
        proof {
            lemma_field_ranges(self.data);
        }
        ((self.data >> Shift::TO_SQ) & 0b111111) as Square
    }

    /// The kind of the captured piece.
    pub fn captured(&self) -> (piece: Piece)
        ensures
            piece == self@.captured,
            piece < 8,
    {
        proof {
            lemma_field_ranges(self.data);
        }
        ((self.data >> Shift::CAPTURE) & 0b111) as Piece
    }

    /// The kind of the piece that a pawn is promoted to.
    pub fn promoted(&self) -> (piece: Piece)
        ensures
            piece == self@.promoted,
            piece < 8,
    {
        proof {
            lemma_field_ranges(self.data);
        }
        ((self.data >> Shift::PROMOTION) & 0b111) as Piece
    }

    /// 1 if the move goes to the en-passant target, else 0.
    pub fn en_passant(&self) -> (flag: Piece)
        ensures
            flag == (if self@.en_passant {
                1nat
            } else {
                0nat
            }),
    {
        proof {
            lemma_field_ranges(self.data);
        }
        ((self.data >> Shift::EN_PASSANT) & 0b1) as Piece
    }

    /// 1 if the move is a pawn's double step, else 0.
    pub fn double_step(&self) -> (flag: Piece)
        ensures
            flag == (if self@.double_step {
                1nat
            } else {
                0nat
            }),
    {
        proof {
            lemma_field_ranges(self.data);
        }
        ((self.data >> Shift::DOUBLE_STEP) & 0b1) as Piece
    }

    /// 1 if the move is a castling move, else 0.
    pub fn castling(&self) -> (flag: Piece)
        ensures
            flag == (if self@.castling {
                1nat
            } else {
                0nat
            }),
    {
        proof {
            lemma_field_ranges(self.data);
        }
        ((self.data >> Shift::CASTLING) & 0b1) as Piece
    }

    /// The sort score.
    pub fn get_sort_score(&self) -> (score: Piece)
        ensures
            score == self@.sort_score,
    {
        proof {
            lemma_field_ranges(self.data);
        }
        ((self.data >> Shift::SORTSCORE) & 0xFFFF_FFFF) as Piece
    }

    /// The move in coordinate notation: the letter of the piece, none for a
    /// pawn, then the names of the two squares.
    pub fn notation(&self) -> (text: String)
        requires
            self@.piece <= 6,
        ensures
            text@ == PIECE_CHAR_SMALL[self@.piece as int]@ + SQUARE_NAME[self@.from as int]@
                + SQUARE_NAME[self@.to as int]@,
    {
        let mut text = String::from_str(PIECE_CHAR_SMALL[self.piece()]);
        text.append(SQUARE_NAME[self.from()]);
        text.append(SQUARE_NAME[self.to()]);
        text
    }

    /// Replaces the sort score and leaves every other field as it was.
    pub fn set_sort_score(&mut self, value: u32)
        ensures
            final(self)@ == (MoveFields { sort_score: value as nat, ..old(self)@ }),
    {
        proof {
            lemma_score_replaced(self.data, value as u64);
        }
        let mask: u64 = 0xFFFF_FFFFu64 << Shift::SORTSCORE;
        let v: u64 = (value as u64) << Shift::SORTSCORE;
        self.data = (self.data & !mask) | v;
    }
}

/// The direction in which a ray of a sliding piece points.
#[derive(Clone, Copy, Debug, PartialEq, Eq, Structural)]
pub enum Direction {
    North,
    East,
    South,
    West,
    NorthWest,
    NorthEast,
    SouthEast,
    SouthWest,
}

/// Shifts of a whole bitboard by one step of a king or of a knight. A shift
/// knows nothing of the board's edges: squares that leave the 64 bits are
/// lost, the others may wrap to the next rank.
pub struct Compass;

impl Compass {
    /// One step north-west: seven places up.
    pub fn northwest(bb: BitBoard) -> (r: BitBoard)
        ensures
            r == bb << 7,
    {
        bb << 7
    }

    /// One step north: eight places up.
    pub fn north(bb: BitBoard) -> (r: BitBoard)
        ensures
            r == bb << 8,
    {
        bb << 8
    }

    /// One step north-east: nine places up.
    pub fn northeast(bb: BitBoard) -> (r: BitBoard)
        ensures
            r == bb << 9,
    {
        bb << 9
    }

    /// One step west: one place down.
    pub fn west(bb: BitBoard) -> (r: BitBoard)
        ensures
            r == bb >> 1,
    {
        bb >> 1
    }

    /// One step east: one place up.
    pub fn east(bb: BitBoard) -> (r: BitBoard)
        ensures
            r == bb << 1,
    {
        bb << 1
    }

    /// One step south-west: nine places down.
    pub fn southwest(bb: BitBoard) -> (r: BitBoard)
        ensures
            r == bb >> 9,
    {
        bb >> 9
    }

    /// One step south: eight places down.
    pub fn south(bb: BitBoard) -> (r: BitBoard)
        ensures
            r == bb >> 8,
    {
        bb >> 8
    }

    /// One step south-east: seven places down.
    pub fn southeast(bb: BitBoard) -> (r: BitBoard)
        ensures
            r == bb >> 7,
    {
        bb >> 7
    }

    /// A knight's jump two north and one west: fifteen places up.
    pub fn north_north_west(bb: BitBoard) -> (r: BitBoard)
        ensures
            r == bb << 15,
    {
        bb << 15
    }

    /// A knight's jump two north and one east: seventeen places up.
    pub fn north_north_east(bb: BitBoard) -> (r: BitBoard)
        ensures
            r == bb << 17,
    {
        bb << 17
    }

    /// A knight's jump one north and two west: six places up.
    pub fn north_west_west(bb: BitBoard) -> (r: BitBoard)
        ensures
            r == bb << 6,
    {
        bb << 6
    }

    /// A knight's jump one north and two east: ten places up.
    pub fn north_east_east(bb: BitBoard) -> (r: BitBoard)
        ensures
            r == bb << 10,
    {
        bb << 10
    }

    /// A knight's jump one south and two west: ten places down.
    pub fn south_west_west(bb: BitBoard) -> (r: BitBoard)
        ensures
            r == bb >> 10,
    {
        bb >> 10
    }

    /// A knight's jump one south and two east: six places down.
    pub fn south_east_east(bb: BitBoard) -> (r: BitBoard)
        ensures
            r == bb >> 6,
    {
        bb >> 6
    }

    /// A knight's jump two south and one west: seventeen places down.
    pub fn south_south_west(bb: BitBoard) -> (r: BitBoard)
        ensures
            r == bb >> 17,
    {
        bb >> 17
    }

    /// A knight's jump two south and one east: fifteen places down.
    pub fn south_south_east(bb: BitBoard) -> (r: BitBoard)
        ensures
            r == bb >> 15,
    {
        bb >> 15
    }
}

} // verus!
