//! Counting material.

use vstd::prelude::*;
use crate::board::Board;
use crate::board::defs::{BitBoard, Sides, PIECE_VALUES};
use crate::utils::bits;
use crate::utils::bits::{lemma_count_union, squares_of};

verus! {

/// The value of the pieces of kind `piece` and above among `rows`: each
/// member of a piece set counts with the value of its kind.
pub open spec fn material_from(rows: Seq<BitBoard>, piece: nat) -> nat
    decreases 6 - piece,
{
    if piece >= 6 {
        0
    } else {
        squares_of(rows[piece as int]).len() * (PIECE_VALUES[piece as int] as nat) + material_from(
            rows,
            piece + 1,
        )
    }
}

/// The value of all the pieces among `rows`.
pub open spec fn material_of(rows: Seq<BitBoard>) -> nat {
    material_from(rows, 0)
}

/// The material of one side.
fn count_side(rows: &[BitBoard; 6]) -> (total: u16)
    requires
        material_of(rows@) <= u16::MAX,
    ensures
        total == material_of(rows@),
{
    let mut total: u16 = 0;
    let mut piece_type: usize = 0;
    while piece_type < 6
        invariant
            piece_type <= 6,
            total + material_from(rows@, piece_type as nat) == material_of(rows@),
            material_of(rows@) <= u16::MAX,
        decreases 6 - piece_type,
    {
        let mut pieces: BitBoard = rows[piece_type];
        let value: u16 = PIECE_VALUES[piece_type];
        let ghost before = total;
        let ghost all = squares_of(pieces).len();
        while pieces > 0
            invariant
                piece_type < 6,
                value == PIECE_VALUES[piece_type as int],
                squares_of(pieces).len() <= all,
                total == before + (all - squares_of(pieces).len()) * value,
                before + all * value <= u16::MAX,
            decreases pieces,
        {
            proof {
                bits::lemma_squares_pop(pieces);
                let left = squares_of(pieces).len();
                assert((all - (left - 1)) * value == (all - left) * value + value)
                    by (nonlinear_arith);
                assert((all - (left - 1)) * value <= all * value) by (nonlinear_arith)
                    requires
                        1 <= left <= all,
                        value >= 0,
                ;
            }
            let _ = bits::next(&mut pieces);
            total += value;
        }
        proof {
            assert(squares_of(0).len() == 0) by {
                bits::lemma_squares_of_empty();
            }
        }
        piece_type += 1;
    }
    total
}

/// Counts the material of White and of Black on the board.
pub fn count_material(board: &Board) -> (material: (u16, u16))
    requires
        material_of(board.bb_pieces[0]@) <= u16::MAX,
        material_of(board.bb_pieces[1]@) <= u16::MAX,
    ensures
        material.0 == material_of(board.bb_pieces[0]@),
        material.1 == material_of(board.bb_pieces[1]@),
{
    let white_material = count_side(&board.bb_pieces[Sides::WHITE]);
    let black_material = count_side(&board.bb_pieces[Sides::BLACK]);
    (white_material, black_material)
}

/// What shares no square with two sets shares none with their union.
proof fn lemma_apart_union(a: u64, b: u64, c: u64)
    by (bit_vector)
    requires
        a & c == 0,
        b & c == 0,
    ensures
        (a | b) & c == 0,
{
}

/// Whether no square is a member of two of the piece sets.
pub open spec fn apart(rows: Seq<BitBoard>) -> bool {
    forall|i: int, j: int|
        #![trigger rows[i], rows[j]]
        0 <= i < j < rows.len() ==> rows[i] & rows[j] == 0
}

/// Six piece sets of which no two share a square hold at most 64 pieces, and
/// their material can be counted in 16 bits.
pub proof fn lemma_material_bound(rows: Seq<BitBoard>)
    requires
        rows.len() == 6,
        apart(rows),
    ensures
        material_of(rows) <= 57600,
{
    let u1 = rows[0] | rows[1];
    let u2 = u1 | rows[2];
    let u3 = u2 | rows[3];
    let u4 = u3 | rows[4];
    let u5 = u4 | rows[5];
    assert(rows[0] & rows[1] == 0);
    assert(rows[0] & rows[2] == 0 && rows[1] & rows[2] == 0);
    assert(rows[0] & rows[3] == 0 && rows[1] & rows[3] == 0 && rows[2] & rows[3] == 0);
    assert(rows[0] & rows[4] == 0 && rows[1] & rows[4] == 0 && rows[2] & rows[4] == 0 && rows[3]
        & rows[4] == 0);
    assert(rows[0] & rows[5] == 0 && rows[1] & rows[5] == 0 && rows[2] & rows[5] == 0 && rows[3]
        & rows[5] == 0 && rows[4] & rows[5] == 0);
    lemma_apart_union(rows[0], rows[1], rows[2]);
    lemma_apart_union(rows[0], rows[1], rows[3]);
    lemma_apart_union(u1, rows[2], rows[3]);
    lemma_apart_union(rows[0], rows[1], rows[4]);
    lemma_apart_union(u1, rows[2], rows[4]);
    lemma_apart_union(u2, rows[3], rows[4]);
    lemma_apart_union(rows[0], rows[1], rows[5]);
    lemma_apart_union(u1, rows[2], rows[5]);
    lemma_apart_union(u2, rows[3], rows[5]);
    lemma_apart_union(u3, rows[4], rows[5]);
    lemma_count_union(rows[0], rows[1]);
    lemma_count_union(u1, rows[2]);
    lemma_count_union(u2, rows[3]);
    lemma_count_union(u3, rows[4]);
    lemma_count_union(u4, rows[5]);
    assert(material_from(rows, 6) == 0);
    assert(material_from(rows, 5) == squares_of(rows[5]).len() * 100);
    assert(material_from(rows, 4) == squares_of(rows[4]).len() * 300 + material_from(rows, 5));
    assert(material_from(rows, 3) == squares_of(rows[3]).len() * 300 + material_from(rows, 4));
    assert(material_from(rows, 2) == squares_of(rows[2]).len() * 500 + material_from(rows, 3));
    assert(material_from(rows, 1) == squares_of(rows[1]).len() * 900 + material_from(rows, 2));
    assert(material_from(rows, 0) == squares_of(rows[0]).len() * 0 + material_from(rows, 1));
}

} // verus!
