//! Static evaluation of a position.

use vstd::prelude::*;
use crate::board::Board;
use crate::board::defs::Sides;

verus! {

/// White's material lead over Black.
pub open spec fn material_lead(board: Board) -> int {
    board.state.material[0] - board.state.material[1]
}

/// The evaluation of the position from the point of view of the side to
/// move: White's material lead when White moves, its negation when Black
/// moves.
///
/// The lead is computed in unsigned arithmetic first, so White must not be
/// behind, and it must fit 16 signed bits.
pub fn evaluate_position(board: &Board) -> (value: i16)
    requires
        0 <= material_lead(*board) <= i16::MAX,
    ensures
        value == (if board.state.active_side == 1 {
            -material_lead(*board)
        } else {
            material_lead(*board)
        }),
{
    let side = board.state.active_side as usize;
    let lead: u16 = board.state.material[Sides::WHITE] - board.state.material[Sides::BLACK];
    let mut value: i16 = lead as i16;
    value = if side == Sides::BLACK {
        -value
    } else {
        value
    };
    value
}

} // verus!
