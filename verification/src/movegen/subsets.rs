//! The subsets of a square set, in the order in which the carry-rippler walks
//! them.

use vstd::prelude::*;
use vstd::arithmetic::power2::{lemma2_to64, lemma_pow2_unfold, pow2};
use crate::utils::bits::popcount;

verus! {

/// Whether every square of `s` is a square of `mask`.
pub open spec fn is_subset(s: u64, mask: u64) -> bool {
    s & !mask == 0
}

/// The carry-rippler step: the subset of `mask` that follows `n`, and the
/// empty set after `mask` itself.
pub open spec fn next_subset(n: u64, mask: u64) -> u64 {
    n.wrapping_sub(mask) & mask
}

/// How many subsets of `mask` are smaller than its subset `n`: the bits of
/// `n` at the places of `mask`, pushed together.
pub open spec fn rank_in(n: u64, mask: u64) -> nat
    decreases mask,
{
    if mask == 0 {
        0
    } else if mask % 2 == 1 {
        (n % 2) as nat + 2 * rank_in(n / 2, mask / 2)
    } else {
        rank_in(n / 2, mask / 2)
    }
}

/// The step gives a subset that is larger than `n` and the smallest such one.
pub proof fn lemma_next_subset(n: u64, mask: u64, s: u64)
    by (bit_vector)
    requires
        n & !mask == 0,
    ensures
        next_subset(n, mask) & !mask == 0,
        n != mask ==> next_subset(n, mask) > n,
        n == mask ==> next_subset(n, mask) == 0,
        s & !mask == 0 && s > n ==> s >= next_subset(n, mask),
        s & !mask == 0 ==> s <= mask,
        n <= mask,
{
}

/// How the step on a mask relates to the step on the mask without its
/// lowest place.
proof fn lemma_next_halves(n: u64, mask: u64)
    by (bit_vector)
    requires
        n & !mask == 0,
    ensures
        mask % 2 == 0 ==> next_subset(n, mask) == 2 * next_subset(n / 2, mask / 2) && n % 2 == 0,
        mask % 2 == 1 && n % 2 == 0 ==> next_subset(n, mask) == n + 1,
        mask % 2 == 1 && n % 2 == 1 ==> next_subset(n, mask) == 2 * next_subset(n / 2, mask / 2),
        (n / 2) & !(mask / 2) == 0,
        n % 2 == mask % 2 && n != mask ==> n / 2 != mask / 2,
        n % 2 == 0 || n % 2 == 1,
{
}

/// The step moves one place up in the order of the subsets.
pub proof fn lemma_rank_next(n: u64, mask: u64)
    requires
        is_subset(n, mask),
        n != mask,
    ensures
        rank_in(next_subset(n, mask), mask) == rank_in(n, mask) + 1,
    decreases mask,
{
    lemma_next_halves(n, mask);
    let nx = next_subset(n, mask);
    let half = next_subset(n / 2, mask / 2);
    if mask == 0 {
        assert(n <= mask) by {
            lemma_next_subset(n, mask, 0);
        }
    } else if mask % 2 == 1 && n % 2 == 0 {
        assert(nx / 2 == n / 2);
        assert(nx % 2 == 1);
    } else {
        lemma_rank_next(n / 2, mask / 2);
        assert(nx / 2 == half);
        assert(nx % 2 == 0);
    }
}

/// The empty set is the first subset.
pub proof fn lemma_rank_empty(mask: u64)
    ensures
        rank_in(0, mask) == 0,
    decreases mask,
{
    if mask != 0 {
        lemma_rank_empty(mask / 2);
    }
}

/// The mask itself is the last of its subsets, and there are two to the
/// number of its squares of them.
pub proof fn lemma_rank_full(mask: u64)
    ensures
        rank_in(mask, mask) + 1 == pow2(popcount(mask)),
    decreases mask,
{
    if mask == 0 {
        lemma2_to64();
    } else {
        lemma_rank_full(mask / 2);
        if mask % 2 == 1 {
            lemma_pow2_unfold(popcount(mask));
        }
    }
}

} // verus!
