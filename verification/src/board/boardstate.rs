//! The part of a position that the piece placement does not show.

use vstd::prelude::*;
use vstd::string::{StringExecFns, StrSliceExecFns};
use crate::board::defs::Castling;

verus! {

/// The state of the game beside the placement of the pieces.
///
/// * `active_side`: the side that moves next.
/// * `castling`: the castling rights, one bit each.
/// * `en_passant`: the square on which a pawn can be taken en passant.
/// * `half_move_clock`: half moves since the last capture or pawn move.
/// * `full_move_number`: starts at 1 and grows after each move of Black.
/// * `material`: the material of each side.
#[derive(Clone, Copy, Debug)]
pub struct BoardState {
    pub active_side: u8,
    pub castling: u8,
    pub en_passant: Option<u8>,
    pub half_move_clock: u8,
    pub full_move_number: u16,
    pub material: [u16; 2],
}

/// The castling rights in the letters of the notation: `K`, `Q`, `k`, `q`
/// for the rights that are there, in this order, or a hyphen for none.
pub open spec fn castling_text(permissions: u8) -> Seq<char> {
    let letters = (if permissions & 1 > 0 {
        "K"@
    } else {
        ""@
    }) + (if permissions & 2 > 0 {
        "Q"@
    } else {
        ""@
    }) + (if permissions & 4 > 0 {
        "k"@
    } else {
        ""@
    }) + (if permissions & 8 > 0 {
        "q"@
    } else {
        ""@
    });
    if letters.len() == 0 {
        "-"@
    } else {
        letters
    }
}

impl BoardState {
    /// The state before anything is known: White to move, no rights, no
    /// en-passant square, all counters zero.
    pub fn new() -> (state: Self)
        ensures
            state.active_side == 0,
            state.castling == 0,
            state.en_passant is None,
            state.half_move_clock == 0,
            state.full_move_number == 0,
            state.material[0] == 0,
            state.material[1] == 0,
    {
        Self {
            active_side: 0,
            castling: 0,
            en_passant: None,
            half_move_clock: 0,
            full_move_number: 0,
            material: [0; 2],
        }
    }

    /// The castling rights in the letters of the notation.
    pub fn castling_as_string(permissions: u8) -> (text: String)
        ensures
            text@ == castling_text(permissions),
    {
        let mut castling_as_string: String = String::new();
        let p = permissions;

        castling_as_string.append(
            if p & Castling::WK > 0 {
                "K"
            } else {
                ""
            },
        );
        castling_as_string.append(
            if p & Castling::WQ > 0 {
                "Q"
            } else {
                ""
            },
        );
        castling_as_string.append(
            if p & Castling::BK > 0 {
                "k"
            } else {
                ""
            },
        );
        castling_as_string.append(
            if p & Castling::BQ > 0 {
                "q"
            } else {
                ""
            },
        );

        if castling_as_string.as_str().unicode_len() == 0 {
            castling_as_string = String::from_str("-");
        }
        castling_as_string
    }
}

} // verus!
