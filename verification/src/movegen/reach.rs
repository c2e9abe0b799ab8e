//! Which squares a ray holds, square by square, and what follows: a slider
//! sees a square exactly if it is seen from there.

use vstd::prelude::*;
use crate::movegen::defs::Direction;
use crate::movegen::geometry::{
    bishop_attacks,
    file_step,
    is_straight,
    on_board,
    rank_step,
    ray,
    rook_attacks,
    square_at,
    steps_left,
};
use crate::utils::bits::{bit, holds, lemma_meet};

verus! {

/// The coordinate `k` steps from `x`, with a step of one up, one down or none.
pub open spec fn along(x: int, step: int, k: int) -> int {
    if step > 0 {
        x + k
    } else if step < 0 {
        x - k
    } else {
        x
    }
}

/// The direction that leads back.
pub open spec fn opposite(d: Direction) -> Direction {
    match d {
        Direction::North => Direction::South,
        Direction::South => Direction::North,
        Direction::East => Direction::West,
        Direction::West => Direction::East,
        Direction::NorthEast => Direction::SouthWest,
        Direction::SouthWest => Direction::NorthEast,
        Direction::NorthWest => Direction::SouthEast,
        Direction::SouthEast => Direction::NorthWest,
    }
}

/// Whether `k` steps in direction `d` from (`file`, `rank`) stay on the board.
pub open spec fn on_board_along(file: int, rank: int, d: Direction, k: int) -> bool {
    on_board(along(file, file_step(d), k), along(rank, rank_step(d), k))
}

/// The square `k` steps in direction `d` from (`file`, `rank`).
pub open spec fn square_along(file: int, rank: int, d: Direction, k: int) -> u64 {
    square_at(along(file, file_step(d), k), along(rank, rank_step(d), k))
}

/// Whether a blocker stands `j` steps in direction `d` from (`file`, `rank`).
pub open spec fn blocked_at(blockers: u64, file: int, rank: int, d: Direction, j: int) -> bool {
    holds(blockers, square_along(file, rank, d, j))
}

/// Whether no blocker stands on the first `k - 1` squares in direction `d`.
pub open spec fn path_clear(blockers: u64, file: int, rank: int, d: Direction, k: int) -> bool {
    forall|j: int| 1 <= j < k ==> !#[trigger] blocked_at(blockers, file, rank, d, j)
}

/// Whether `t` is the square `k` steps in direction `d` from (`file`,
/// `rank`), with no blocker on the squares before it.
pub open spec fn sees(
    blockers: u64,
    file: int,
    rank: int,
    d: Direction,
    t: u64,
    k: int,
) -> bool {
    &&& k >= 1
    &&& on_board_along(file, rank, d, k)
    &&& t == square_along(file, rank, d, k)
    &&& path_clear(blockers, file, rank, d, k)
}

/// Membership in unions, in one-square sets and in the other set operations.
pub proof fn lemma_holds(a: u64, b: u64, c: u64, d: u64, s: u64, t: u64)
    by (bit_vector)
    requires
        s < 64,
        t < 64,
    ensures
        ((a | b) >> t) & 1 == 1 <==> (a >> t) & 1 == 1 || (b >> t) & 1 == 1,
        ((a | b | c | d) >> t) & 1 == 1 <==> (a >> t) & 1 == 1 || (b >> t) & 1 == 1 || (c >> t) & 1
            == 1 || (d >> t) & 1 == 1,
        ((a & b) >> t) & 1 == 1 <==> (a >> t) & 1 == 1 && (b >> t) & 1 == 1,
        ((a ^ b) >> t) & 1 == 1 <==> ((a >> t) & 1 == 1) != ((b >> t) & 1 == 1),
        ((1u64 << s) >> t) & 1 == 1 <==> s == t,
        (0u64 >> t) & 1 == 0,
        (1u64 << s) & b > 0 <==> (b >> s) & 1 == 1,
        (a >> t) & 1 == 1 && (b >> t) & 1 == 1 ==> a & b > 0,
{
}

/// A path is clear if its first square is free and the path from there is clear.
proof fn lemma_clear_shift(blockers: u64, file: int, rank: int, d: Direction, k: int)
    requires
        k >= 1,
    ensures
        path_clear(blockers, file, rank, d, k + 1) <==> !blocked_at(blockers, file, rank, d, 1)
            && path_clear(blockers, file + file_step(d), rank + rank_step(d), d, k),
{
    let f = file + file_step(d);
    let r = rank + rank_step(d);
    if path_clear(blockers, file, rank, d, k + 1) {
        assert forall|j: int| 1 <= j < k implies !#[trigger] blocked_at(blockers, f, r, d, j) by {
            assert(blocked_at(blockers, f, r, d, j) == blocked_at(blockers, file, rank, d, j + 1));
        }
        if k >= 1 {
            assert(!blocked_at(blockers, file, rank, d, 1));
        }
    }
    if !blocked_at(blockers, file, rank, d, 1) && path_clear(blockers, f, r, d, k) {
        assert forall|j: int| 1 <= j < k + 1 implies !#[trigger] blocked_at(
            blockers,
            file,
            rank,
            d,
            j,
        ) by {
            if j >= 2 {
                assert(blocked_at(blockers, file, rank, d, j) == blocked_at(
                    blockers,
                    f,
                    r,
                    d,
                    j - 1,
                ));
            }
        }
    }
}

/// A ray holds exactly the squares that are seen along it.
pub proof fn lemma_ray_sees(blockers: u64, file: int, rank: int, d: Direction, t: u64)
    requires
        on_board(file, rank),
        t < 64,
    ensures
        holds(ray(blockers, file, rank, d), t) <==> exists|k: int| #[trigger]
            sees(blockers, file, rank, d, t, k),
    decreases steps_left(file, rank, d),
{
    let f = file + file_step(d);
    let r = rank + rank_step(d);
    let here = ray(blockers, file, rank, d);
    if !on_board(f, r) {
        lemma_holds(0, 0, 0, 0, 0, t);
        assert forall|k: int| !#[trigger] sees(blockers, file, rank, d, t, k) by {
        }
    } else {
        let first = square_at(f, r);
        let target = bit(first);
        let rest = ray(blockers, f, r, d);
        lemma_holds(target, rest, 0, 0, first, t);
        lemma_holds(target, blockers, 0, 0, first, first);
        lemma_ray_sees(blockers, f, r, d, t);
        assert(first == square_along(file, rank, d, 1));
        assert(blocked_at(blockers, file, rank, d, 1) == (target & blockers > 0));
        if holds(here, t) {
            if t == first {
                assert(sees(blockers, file, rank, d, t, 1));
            } else {
                let k = choose|k: int| #[trigger] sees(blockers, f, r, d, t, k);
                lemma_clear_shift(blockers, file, rank, d, k);
                assert(square_along(f, r, d, k) == square_along(file, rank, d, k + 1));
                assert(sees(blockers, file, rank, d, t, k + 1));
            }
        }
        if exists|k: int| #[trigger] sees(blockers, file, rank, d, t, k) {
            let k = choose|k: int| #[trigger] sees(blockers, file, rank, d, t, k);
            if k >= 2 {
                lemma_clear_shift(blockers, file, rank, d, k - 1);
                assert(square_along(f, r, d, k - 1) == square_along(file, rank, d, k));
                assert(sees(blockers, f, r, d, t, k - 1));
            }
        }
    }
}

/// What is seen `k` steps away sees back along the opposite direction.
proof fn lemma_sees_back(blockers: u64, file: int, rank: int, d: Direction, t: u64, k: int)
    requires
        on_board(file, rank),
        sees(blockers, file, rank, d, t, k),
    ensures
        sees(blockers, (t % 8) as int, (t / 8) as int, opposite(d), square_at(file, rank), k),
{
    let back = opposite(d);
    let tf = (t % 8) as int;
    let tr = (t / 8) as int;
    assert(tf == along(file, file_step(d), k));
    assert(tr == along(rank, rank_step(d), k));
    assert forall|j: int| 1 <= j < k implies !#[trigger] blocked_at(blockers, tf, tr, back, j) by {
        assert(square_along(tf, tr, back, j) == square_along(file, rank, d, k - j));
        assert(!blocked_at(blockers, file, rank, d, k - j));
    }
}

/// A ray from `s` holds `t` exactly if the ray from `t` in the opposite
/// direction holds `s`.
pub proof fn lemma_ray_symmetric(blockers: u64, s: u64, t: u64, d: Direction)
    requires
        s < 64,
        t < 64,
    ensures
        holds(ray(blockers, (s % 8) as int, (s / 8) as int, d), t) <==> holds(
            ray(blockers, (t % 8) as int, (t / 8) as int, opposite(d)),
            s,
        ),
{
    let sf = (s % 8) as int;
    let sr = (s / 8) as int;
    let tf = (t % 8) as int;
    let tr = (t / 8) as int;
    let back = opposite(d);
    lemma_ray_sees(blockers, sf, sr, d, t);
    lemma_ray_sees(blockers, tf, tr, back, s);
    assert(square_at(sf, sr) == s);
    assert(square_at(tf, tr) == t);
    assert(opposite(back) == d);
    if exists|k: int| #[trigger] sees(blockers, sf, sr, d, t, k) {
        let k = choose|k: int| #[trigger] sees(blockers, sf, sr, d, t, k);
        lemma_sees_back(blockers, sf, sr, d, t, k);
    }
    if exists|k: int| #[trigger] sees(blockers, tf, tr, back, s, k) {
        let k = choose|k: int| #[trigger] sees(blockers, tf, tr, back, s, k);
        lemma_sees_back(blockers, tf, tr, back, s, k);
    }
}

/// A rook on `s` attacks `t` exactly if a rook on `t` attacks `s`.
pub proof fn lemma_rook_symmetric(occupancy: u64, s: u64, t: u64)
    requires
        s < 64,
        t < 64,
    ensures
        holds(rook_attacks(s, occupancy), t) <==> holds(rook_attacks(t, occupancy), s),
{
    let sf = (s % 8) as int;
    let sr = (s / 8) as int;
    let tf = (t % 8) as int;
    let tr = (t / 8) as int;
    lemma_holds(
        ray(occupancy, sf, sr, Direction::North),
        ray(occupancy, sf, sr, Direction::East),
        ray(occupancy, sf, sr, Direction::South),
        ray(occupancy, sf, sr, Direction::West),
        0,
        t,
    );
    lemma_holds(
        ray(occupancy, tf, tr, Direction::North),
        ray(occupancy, tf, tr, Direction::East),
        ray(occupancy, tf, tr, Direction::South),
        ray(occupancy, tf, tr, Direction::West),
        0,
        s,
    );
    lemma_ray_symmetric(occupancy, s, t, Direction::North);
    lemma_ray_symmetric(occupancy, s, t, Direction::East);
    lemma_ray_symmetric(occupancy, s, t, Direction::South);
    lemma_ray_symmetric(occupancy, s, t, Direction::West);
}

/// A bishop on `s` attacks `t` exactly if a bishop on `t` attacks `s`.
pub proof fn lemma_bishop_symmetric(occupancy: u64, s: u64, t: u64)
    requires
        s < 64,
        t < 64,
    ensures
        holds(bishop_attacks(s, occupancy), t) <==> holds(bishop_attacks(t, occupancy), s),
{
    let sf = (s % 8) as int;
    let sr = (s / 8) as int;
    let tf = (t % 8) as int;
    let tr = (t / 8) as int;
    lemma_holds(
        ray(occupancy, sf, sr, Direction::NorthWest),
        ray(occupancy, sf, sr, Direction::NorthEast),
        ray(occupancy, sf, sr, Direction::SouthWest),
        ray(occupancy, sf, sr, Direction::SouthEast),
        0,
        t,
    );
    lemma_holds(
        ray(occupancy, tf, tr, Direction::NorthWest),
        ray(occupancy, tf, tr, Direction::NorthEast),
        ray(occupancy, tf, tr, Direction::SouthWest),
        ray(occupancy, tf, tr, Direction::SouthEast),
        0,
        s,
    );
    lemma_ray_symmetric(occupancy, s, t, Direction::NorthWest);
    lemma_ray_symmetric(occupancy, s, t, Direction::NorthEast);
    lemma_ray_symmetric(occupancy, s, t, Direction::SouthWest);
    lemma_ray_symmetric(occupancy, s, t, Direction::SouthEast);
}

/// A square on a straight ray shares the file or the rank of the ray's
/// start; a square on a diagonal ray shares neither.
proof fn lemma_ray_line(blockers: u64, s: u64, t: u64, d: Direction)
    requires
        s < 64,
        t < 64,
        holds(ray(blockers, (s % 8) as int, (s / 8) as int, d), t),
    ensures
        is_straight(d) ==> t % 8 == s % 8 || t / 8 == s / 8,
        !is_straight(d) ==> t % 8 != s % 8 && t / 8 != s / 8,
{
    let sf = (s % 8) as int;
    let sr = (s / 8) as int;
    lemma_ray_sees(blockers, sf, sr, d, t);
    let k = choose|k: int| #[trigger] sees(blockers, sf, sr, d, t, k);
    assert((t % 8) as int == along(sf, file_step(d), k));
    assert((t / 8) as int == along(sr, rank_step(d), k));
}

/// No square is attacked by a rook and by a bishop that stand on one square:
/// the rook's squares share its file or rank, the bishop's neither.
pub proof fn lemma_rook_bishop_apart(occupancy: u64, s: u64, t: u64)
    requires
        s < 64,
        t < 64,
    ensures
        !(holds(rook_attacks(s, occupancy), t) && holds(bishop_attacks(s, occupancy), t)),
{
    let sf = (s % 8) as int;
    let sr = (s / 8) as int;
    lemma_holds(
        ray(occupancy, sf, sr, Direction::North),
        ray(occupancy, sf, sr, Direction::East),
        ray(occupancy, sf, sr, Direction::South),
        ray(occupancy, sf, sr, Direction::West),
        0,
        t,
    );
    lemma_holds(
        ray(occupancy, sf, sr, Direction::NorthWest),
        ray(occupancy, sf, sr, Direction::NorthEast),
        ray(occupancy, sf, sr, Direction::SouthWest),
        ray(occupancy, sf, sr, Direction::SouthEast),
        0,
        t,
    );
    if holds(rook_attacks(s, occupancy), t) && holds(bishop_attacks(s, occupancy), t) {
        let straight = if holds(ray(occupancy, sf, sr, Direction::North), t) {
            Direction::North
        } else if holds(ray(occupancy, sf, sr, Direction::East), t) {
            Direction::East
        } else if holds(ray(occupancy, sf, sr, Direction::South), t) {
            Direction::South
        } else {
            Direction::West
        };
        let slanted = if holds(ray(occupancy, sf, sr, Direction::NorthWest), t) {
            Direction::NorthWest
        } else if holds(ray(occupancy, sf, sr, Direction::NorthEast), t) {
            Direction::NorthEast
        } else if holds(ray(occupancy, sf, sr, Direction::SouthWest), t) {
            Direction::SouthWest
        } else {
            Direction::SouthEast
        };
        lemma_ray_line(occupancy, s, t, straight);
        lemma_ray_line(occupancy, s, t, slanted);
    }
}

/// For sets that share no square, symmetric difference is union.
proof fn lemma_apart_bits(a: u64, b: u64)
    by (bit_vector)
    ensures
        a & b == 0 ==> a ^ b == a | b,
        a & b > 0 <==> a & b != 0,
{
}

/// What a rook and a bishop on one square attack can be put together by
/// union or by symmetric difference alike: it is what a queen attacks.
pub proof fn lemma_queen_union(occupancy: u64, s: u64)
    requires
        s < 64,
    ensures
        rook_attacks(s, occupancy) ^ bishop_attacks(s, occupancy) == rook_attacks(s, occupancy)
            | bishop_attacks(s, occupancy),
{
    let a = rook_attacks(s, occupancy);
    let b = bishop_attacks(s, occupancy);
    lemma_meet(a, b);
    if a & b > 0 {
        let t = choose|t: u64| #[trigger] holds(a, t) && holds(b, t);
        lemma_rook_bishop_apart(occupancy, s, t);
    }
    lemma_apart_bits(a, b);
}

} // verus!
