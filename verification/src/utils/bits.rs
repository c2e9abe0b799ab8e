//! Bit-level primitives on 64-bit square sets.

use vstd::prelude::*;
use vstd::std_specs::bits::{axiom_u64_trailing_zeros, u64_trailing_zeros};
use crate::board::defs::{BitBoard, Square};

verus! {

/// The bitboard that holds exactly the square `sq`.
pub open spec fn bit(sq: u64) -> u64 {
    1u64 << sq
}

/// Whether square `sq` is a member of the square set `bb`.
pub open spec fn holds(bb: u64, sq: u64) -> bool {
    sq < 64 && (bb >> sq) & 1 == 1
}

/// The number of squares in `bb`.
pub open spec fn popcount(bb: u64) -> nat
    decreases bb,
{
    if bb == 0 {
        0
    } else {
        (bb % 2) as nat + popcount(bb / 2)
    }
}

/// The members of `bb` that are at least `from`, in ascending order.
pub open spec fn squares_from(bb: u64, from: u64) -> Seq<u64>
    decreases 64 - from,
{
    if from >= 64 {
        Seq::empty()
    } else if holds(bb, from) {
        seq![from] + squares_from(bb, (from + 1) as u64)
    } else {
        squares_from(bb, (from + 1) as u64)
    }
}

/// The members of `bb` in ascending order: the order in which [`next`] hands
/// them out.
pub open spec fn squares_of(bb: u64) -> Seq<u64> {
    squares_from(bb, 0)
}

/// `u64::count_ones` of `std`: the number of ones in the binary
/// representation of its argument, which [`popcount`] counts bit by bit.
pub assume_specification[ u64::count_ones ](bb: u64) -> (count: u32)
    ensures
        count == popcount(bb),
;

/// Taking a member out of a set leaves the other members alone.
proof fn lemma_lowest_bit(bb: u64, t: u64, j: u64)
    by (bit_vector)
    requires
        t < 64,
        (bb >> t) & 1 == 1,
    ensures
        bb != 0,
        bb ^ (1u64 << t) == bb & !(1u64 << t),
        bb ^ (1u64 << t) < bb,
        j < 64 && j != t ==> ((bb ^ (1u64 << t)) >> j) & 1 == (bb >> j) & 1,
        ((bb ^ (1u64 << t)) >> t) & 1 == 0,
        (bb >> j) & 1 == 0 || (bb >> j) & 1 == 1,
{
}

/// Members below the lowest member do not exist, so the listing may start at it.
proof fn lemma_squares_skip(bb: u64, from: u64, t: u64)
    requires
        from <= t <= 64,
        forall|j: u64| from <= j < t ==> !holds(bb, j),
    ensures
        squares_from(bb, from) == squares_from(bb, t),
    decreases t - from,
{
    if from < t {
        lemma_squares_skip(bb, (from + 1) as u64, t);
    }
}

/// Two sets that agree from `from` on list the same squares from there on.
proof fn lemma_squares_agree(a: u64, b: u64, from: u64)
    requires
        forall|j: u64| from <= j < 64 ==> holds(a, j) == holds(b, j),
    ensures
        squares_from(a, from) == squares_from(b, from),
    decreases 64 - from,
{
    if from < 64 {
        lemma_squares_agree(a, b, (from + 1) as u64);
    }
}

/// Taking the lowest member out of a set removes the head of its listing.
pub proof fn lemma_squares_pop(bb: u64)
    requires
        bb != 0,
    ensures
        u64_trailing_zeros(bb) < 64,
        holds(bb, u64_trailing_zeros(bb) as u64),
        squares_of(bb) == seq![u64_trailing_zeros(bb) as u64] + squares_of(
            bb ^ bit(u64_trailing_zeros(bb) as u64),
        ),
{
    axiom_u64_trailing_zeros(bb);
    let t = u64_trailing_zeros(bb) as u64;
    let rest = bb ^ bit(t);
    assert forall|j: u64| 0 <= j < t implies !holds(bb, j) by {
        assert((bb >> j) & 1 == 0);
    }
    lemma_squares_skip(bb, 0, t);
    assert forall|j: u64| 0 <= j < 64 implies (j != t ==> holds(rest, j) == holds(bb, j)) && !holds(
        rest,
        t,
    ) by {
        lemma_lowest_bit(bb, t, j);
    }
    lemma_squares_skip(rest, 0, (t + 1) as u64);
    lemma_squares_agree(bb, rest, (t + 1) as u64);
}

/// The empty set lists nothing.
pub proof fn lemma_squares_of_empty()
    ensures
        squares_of(0) == Seq::<u64>::empty(),
{
    assert forall|j: u64| 0 <= j < 64 implies !holds(0, j) by {
        assert((0u64 >> j) & 1 == 0) by (bit_vector);
    }
    lemma_squares_skip(0, 0, 64);
}

/// Halving a set moves every member one place down.
proof fn lemma_half_bits(bb: u64, i: u64)
    by (bit_vector)
    requires
        i < 63,
    ensures
        ((bb / 2) >> i) & 1 == (bb >> ((i + 1) as u64)) & 1,
        ((bb / 2) >> 63) & 1 == 0,
        (bb >> 0) & 1 == bb % 2,
{
}

/// The listing of a halved set is as long as that of the set above its
/// lowest place.
proof fn lemma_squares_of_half(bb: u64, i: u64)
    requires
        i <= 63,
    ensures
        squares_from(bb, (i + 1) as u64).len() == squares_from(bb / 2, i).len(),
    decreases 64 - i,
{
    if i < 63 {
        lemma_half_bits(bb, i);
        lemma_squares_of_half(bb, (i + 1) as u64);
    } else {
        lemma_half_bits(bb, 0);
        assert(squares_from(bb / 2, 64).len() == 0);
    }
}

/// The number of squares in a set is the length of its listing.
pub proof fn lemma_popcount_is_count(bb: u64)
    ensures
        popcount(bb) == squares_of(bb).len(),
    decreases bb,
{
    if bb == 0 {
        lemma_squares_of_empty();
    } else {
        lemma_popcount_is_count(bb / 2);
        lemma_squares_of_half(bb, 0);
        lemma_half_bits(bb, 0);
    }
}

/// Every listed square is a member, and every member is listed.
pub proof fn lemma_squares_members(bb: u64, from: u64, sq: u64)
    ensures
        squares_from(bb, from).contains(sq) <==> from <= sq && holds(bb, sq),
    decreases 64 - from,
{
    if from < 64 {
        lemma_squares_members(bb, (from + 1) as u64, sq);
        let rest = squares_from(bb, (from + 1) as u64);
        if holds(bb, from) {
            let all = seq![from] + rest;
            if all.contains(sq) {
                let i = choose|i: int| 0 <= i < all.len() && all[i] == sq;
                if i > 0 {
                    assert(rest[i - 1] == sq);
                }
            }
            if from <= sq && holds(bb, sq) {
                if sq == from {
                    assert(all[0] == sq);
                } else {
                    let i = choose|i: int| 0 <= i < rest.len() && rest[i] == sq;
                    assert(all[i + 1] == sq);
                }
            }
        }
    }
}

/// Takes the lowest square out of `bitboard` and returns it.
pub fn next(bitboard: &mut BitBoard) -> (square: Square)
    requires
        *old(bitboard) != 0,
    ensures
        square < 64,
        square == u64_trailing_zeros(*old(bitboard)),
        holds(*old(bitboard), square as u64),
        *final(bitboard) == *old(bitboard) ^ bit(square as u64),
        *final(bitboard) < *old(bitboard),
        squares_of(*old(bitboard)) == seq![square as u64] + squares_of(*final(bitboard)),
{
    proof {
        lemma_squares_pop(*bitboard);
        lemma_lowest_bit(*bitboard, u64_trailing_zeros(*bitboard) as u64, 0);
    }
    let zeros: u32 = bitboard.trailing_zeros();
    let square: Square = zeros as Square;
    *bitboard ^= 1u64 << zeros;
    square
}

/// Membership in an intersection and in a union.
proof fn lemma_meet_bits(a: u64, b: u64, t: u64)
    by (bit_vector)
    requires
        t < 64,
    ensures
        ((a & b) >> t) & 1 == 1 <==> (a >> t) & 1 == 1 && (b >> t) & 1 == 1,
        ((a | b) >> t) & 1 == 1 <==> (a >> t) & 1 == 1 || (b >> t) & 1 == 1,
        (a >> t) & 1 == 1 && (b >> t) & 1 == 1 ==> a & b > 0,
        a & b > 0 <==> a & b != 0,
{
}

/// Two sets meet exactly if some square is a member of both.
pub proof fn lemma_meet(a: u64, b: u64)
    ensures
        a & b > 0 <==> exists|t: u64| #[trigger] holds(a, t) && holds(b, t),
{
    if a & b > 0 {
        lemma_squares_pop(a & b);
        let t = u64_trailing_zeros(a & b) as u64;
        lemma_meet_bits(a, b, t);
        assert(holds(a, t) && holds(b, t));
    }
    if exists|t: u64| #[trigger] holds(a, t) && holds(b, t) {
        let t = choose|t: u64| #[trigger] holds(a, t) && holds(b, t);
        lemma_meet_bits(a, b, t);
    }
}

/// A listing from `from` on has no more entries than there are places.
proof fn lemma_count_bound_from(bb: u64, from: u64)
    requires
        from <= 64,
    ensures
        squares_from(bb, from).len() <= 64 - from,
    decreases 64 - from,
{
    if from < 64 {
        lemma_count_bound_from(bb, (from + 1) as u64);
    }
}

/// Listings of sets without a common square add up.
proof fn lemma_count_union_from(a: u64, b: u64, from: u64)
    requires
        a & b == 0,
    ensures
        squares_from(a | b, from).len() == squares_from(a, from).len() + squares_from(
            b,
            from,
        ).len(),
    decreases 64 - from,
{
    if from < 64 {
        lemma_count_union_from(a, b, (from + 1) as u64);
        lemma_meet_bits(a, b, from);
        lemma_meet(a, b);
    }
}

/// Two sets without a common square have together as many squares as both
/// have, and that is not more than 64.
pub proof fn lemma_count_union(a: u64, b: u64)
    requires
        a & b == 0,
    ensures
        squares_of(a | b).len() == squares_of(a).len() + squares_of(b).len(),
        squares_of(a | b).len() <= 64,
{
    lemma_count_union_from(a, b, 0);
    lemma_count_bound_from(a | b, 0);
}

/// Membership in a union, in a one-square set and in the empty set.
pub proof fn lemma_members(a: u64, b: u64, s: u64, t: u64)
    by (bit_vector)
    requires
        s < 64,
        t < 64,
    ensures
        ((a | b) >> t) & 1 == 1 <==> (a >> t) & 1 == 1 || (b >> t) & 1 == 1,
        ((1u64 << s) >> t) & 1 == 1 <==> s == t,
        (0u64 >> t) & 1 == 0,
        0 | a == a,
        a & b == b & a,
        0u64 & 0u64 == 0,
{
}

} // verus!
