//! The geometry of the board: files, ranks, edges, rays and the squares that
//! a sliding piece attacks.

use vstd::prelude::*;
use crate::movegen::defs::Direction;
use crate::utils::bits::bit;

verus! {

/// The squares of file A.
pub const FILE_A: u64 = 0x0101_0101_0101_0101;

/// The squares of file H.
pub const FILE_H: u64 = 0x8080_8080_8080_8080;

/// The squares of rank 1.
pub const RANK_1: u64 = 0x0000_0000_0000_00FF;

/// The squares of rank 8.
pub const RANK_8: u64 = 0xFF00_0000_0000_0000;

/// The squares of file B.
pub const FILE_B: u64 = 0x0202_0202_0202_0202;

/// The squares of file G.
pub const FILE_G: u64 = 0x4040_4040_4040_4040;

/// The squares of rank 2.
pub const RANK_2: u64 = 0x0000_0000_0000_FF00;

/// The squares of rank 7.
pub const RANK_7: u64 = 0x00FF_0000_0000_0000;

/// The squares of the given file.
pub open spec fn file_bb(file: u64) -> u64 {
    FILE_A << file
}

/// The squares of the given rank.
pub open spec fn rank_bb(rank: u64) -> u64 {
    RANK_1 << ((rank * 8) as u64)
}

/// The edge squares of the board, without the file and the rank of a piece
/// that stands on (`file`, `rank`).
pub open spec fn edges(file: u64, rank: u64) -> u64 {
    (FILE_A & !file_bb(file)) | (FILE_H & !file_bb(file)) | (RANK_1 & !rank_bb(rank)) | (RANK_8
        & !rank_bb(rank))
}

/// By how much the file changes with one step in a direction.
pub open spec fn file_step(d: Direction) -> int {
    match d {
        Direction::North | Direction::South => 0,
        Direction::East | Direction::NorthEast | Direction::SouthEast => 1,
        Direction::West | Direction::NorthWest | Direction::SouthWest => -1,
    }
}

/// By how much the rank changes with one step in a direction.
pub open spec fn rank_step(d: Direction) -> int {
    match d {
        Direction::East | Direction::West => 0,
        Direction::North | Direction::NorthEast | Direction::NorthWest => 1,
        Direction::South | Direction::SouthEast | Direction::SouthWest => -1,
    }
}

/// Whether the coordinate lies on the board.
pub open spec fn on_board(file: int, rank: int) -> bool {
    0 <= file < 8 && 0 <= rank < 8
}

/// The square with the given coordinate.
pub open spec fn square_at(file: int, rank: int) -> u64 {
    (rank * 8 + file) as u64
}

/// How many steps in direction `d` stay on the board at most.
pub open spec fn steps_left(file: int, rank: int, d: Direction) -> nat {
    if !on_board(file, rank) {
        0
    } else if rank_step(d) > 0 {
        (7 - rank) as nat
    } else if rank_step(d) < 0 {
        rank as nat
    } else if file_step(d) > 0 {
        (7 - file) as nat
    } else {
        file as nat
    }
}

/// The ray from (`file`, `rank`) in direction `d`: the squares reached step
/// by step, up to the edge of the board or up to and including the first
/// square that `blockers` holds. The starting square is not part of it.
pub open spec fn ray(blockers: u64, file: int, rank: int, d: Direction) -> u64
    decreases steps_left(file, rank, d),
{
    let f = file + file_step(d);
    let r = rank + rank_step(d);
    if !on_board(file, rank) || !on_board(f, r) {
        0
    } else {
        let target = bit(square_at(f, r));
        if target & blockers > 0 {
            target
        } else {
            target | ray(blockers, f, r, d)
        }
    }
}

/// The squares that a rook on `square` attacks when `blockers` are in its way.
pub open spec fn rook_attacks(square: u64, blockers: u64) -> u64 {
    let file = (square % 8) as int;
    let rank = (square / 8) as int;
    ray(blockers, file, rank, Direction::North) | ray(blockers, file, rank, Direction::East) | ray(
        blockers,
        file,
        rank,
        Direction::South,
    ) | ray(blockers, file, rank, Direction::West)
}

/// The squares that a bishop on `square` attacks when `blockers` are in its way.
pub open spec fn bishop_attacks(square: u64, blockers: u64) -> u64 {
    let file = (square % 8) as int;
    let rank = (square / 8) as int;
    ray(blockers, file, rank, Direction::NorthWest) | ray(
        blockers,
        file,
        rank,
        Direction::NorthEast,
    ) | ray(blockers, file, rank, Direction::SouthWest) | ray(
        blockers,
        file,
        rank,
        Direction::SouthEast,
    )
}

/// The squares whose occupancy decides what a rook on `square` attacks: its
/// file and rank without the square itself and without the far edges.
pub open spec fn rook_mask(square: u64) -> u64 {
    (file_bb(square % 8) | rank_bb(square / 8)) & !edges(square % 8, square / 8) & !bit(square)
}

/// The squares whose occupancy decides what a bishop on `square` attacks: its
/// diagonals without the edges.
pub open spec fn bishop_mask(square: u64) -> u64 {
    bishop_attacks(square, 0) & !edges(square % 8, square / 8)
}

/// What each entry of the file and rank tables is as a shift.
pub proof fn lemma_lines(i: u64)
    by (bit_vector)
    requires
        i < 8,
    ensures
        i == 0 ==> file_bb(i) == 0x0101_0101_0101_0101 && rank_bb(i) == 0xFF,
        i == 1 ==> file_bb(i) == 0x0202_0202_0202_0202 && rank_bb(i) == 0xFF00,
        i == 2 ==> file_bb(i) == 0x0404_0404_0404_0404 && rank_bb(i) == 0xFF_0000,
        i == 3 ==> file_bb(i) == 0x0808_0808_0808_0808 && rank_bb(i) == 0xFF00_0000,
        i == 4 ==> file_bb(i) == 0x1010_1010_1010_1010 && rank_bb(i) == 0xFF_0000_0000,
        i == 5 ==> file_bb(i) == 0x2020_2020_2020_2020 && rank_bb(i) == 0xFF00_0000_0000,
        i == 6 ==> file_bb(i) == 0x4040_4040_4040_4040 && rank_bb(i) == 0xFF_0000_0000_0000,
        i == 7 ==> file_bb(i) == 0x8080_8080_8080_8080 && rank_bb(i) == 0xFF00_0000_0000_0000,
{
}

/// Shifting a one-square set by a step gives the one-square set of the
/// square that many places further.
pub proof fn lemma_shift_bit(sq: u64)
    by (bit_vector)
    requires
        sq < 64,
    ensures
        bit(sq) != 0,
        sq + 1 < 64 ==> bit(sq) << 1 == bit((sq + 1) as u64),
        sq + 7 < 64 ==> bit(sq) << 7 == bit((sq + 7) as u64),
        sq + 8 < 64 ==> bit(sq) << 8 == bit((sq + 8) as u64),
        sq + 9 < 64 ==> bit(sq) << 9 == bit((sq + 9) as u64),
        sq >= 1 ==> bit(sq) >> 1 == bit((sq - 1) as u64),
        sq >= 7 ==> bit(sq) >> 7 == bit((sq - 7) as u64),
        sq >= 8 ==> bit(sq) >> 8 == bit((sq - 8) as u64),
        sq >= 9 ==> bit(sq) >> 9 == bit((sq - 9) as u64),
{
}

/// Facts of the algebra of unions and intersections.
pub proof fn lemma_union(a: u64, b: u64, c: u64)
    by (bit_vector)
    ensures
        a | 0 == a,
        0 | a == a,
        a & 0 == 0,
        (a | b) | c == a | (b | c),
        a | b == b | a,
        a & b == b & a,
        a != 0 ==> a | b != 0 && b | a != 0,
        a & (a | b) == a,
        (a | b) & c == (a | b) ==> a & c == a && b & c == b,
        a & b == a && b & c == b ==> a & c == a,
        a & b == a ==> a & (c & b) == a & c,
        a & b == a ==> a & (b | c) == a && a & (c | b) == a,
        a & b == a && a & !c == a ==> a & (b & !c) == a,
        (a & b) & !b == 0,
        (a & b) & b == a & b,
{
}

/// One step of a ray, as the loop that casts it sees it: where the next
/// square leaves the board the ray is empty; else it starts with that square.
pub proof fn lemma_ray_step(blockers: u64, acc: u64, file: int, rank: int, d: Direction)
    requires
        on_board(file, rank),
    ensures
        ({
            let f = file + file_step(d);
            let r = rank + rank_step(d);
            let target = bit(square_at(f, r));
            &&& !on_board(f, r) ==> acc | ray(blockers, file, rank, d) == acc
            &&& on_board(f, r) && target & blockers > 0 ==> acc | ray(blockers, file, rank, d)
                == acc | target
            &&& on_board(f, r) && !(target & blockers > 0) ==> acc | ray(blockers, file, rank, d)
                == (acc | target) | ray(blockers, f, r, d)
        }),
{
    let f = file + file_step(d);
    let r = rank + rank_step(d);
    let target = bit(square_at(f, r));
    lemma_union(acc, target, ray(blockers, f, r, d));
}

/// Facts of unions of four.
pub proof fn lemma_union4(a: u64, b: u64, c: u64, d: u64)
    by (bit_vector)
    ensures
        a & (a | b | c | d) == a,
        b & (a | b | c | d) == b,
        c & (a | b | c | d) == c,
        d & (a | b | c | d) == d,
        a != 0 || b != 0 || c != 0 || d != 0 ==> (a | b | c | d) != 0,
{
}

/// A square of the rook's file or rank that is neither the rook's own nor
/// the last of its line belongs to the rook's mask.
proof fn lemma_rook_mask_member(f0: u64, r0: u64, f: u64, r: u64)
    by (bit_vector)
    requires
        f0 < 8,
        r0 < 8,
        f < 8,
        r < 8,
        (f == f0 && r != r0 && 1 <= r && r <= 6) || (r == r0 && f != f0 && 1 <= f && f <= 6),
    ensures
        bit((r * 8 + f) as u64) & rook_mask((r0 * 8 + f0) as u64) == bit((r * 8 + f) as u64),
{
}

/// A square off the rim of the board is no edge square, wherever the piece stands.
proof fn lemma_inner_not_edge(f0: u64, r0: u64, f: u64, r: u64)
    by (bit_vector)
    requires
        f0 < 8,
        r0 < 8,
        1 <= f && f <= 6,
        1 <= r && r <= 6,
    ensures
        bit((r * 8 + f) as u64) & !edges(f0, r0) == bit((r * 8 + f) as u64),
{
}

/// Whether `d` is one of the four directions of a rook.
pub open spec fn is_straight(d: Direction) -> bool {
    d == Direction::North || d == Direction::East || d == Direction::South || d == Direction::West
}

/// Along a rook's line, blockers off the mask change nothing of the ray.
proof fn lemma_rook_ray_masked(b: u64, sq0: u64, file: int, rank: int, d: Direction)
    requires
        sq0 < 64,
        on_board(file, rank),
        is_straight(d),
        d == Direction::North ==> file == sq0 % 8 && rank >= sq0 / 8,
        d == Direction::South ==> file == sq0 % 8 && rank <= sq0 / 8,
        d == Direction::East ==> rank == sq0 / 8 && file >= sq0 % 8,
        d == Direction::West ==> rank == sq0 / 8 && file <= sq0 % 8,
    ensures
        ray(b & rook_mask(sq0), file, rank, d) == ray(b, file, rank, d),
    decreases steps_left(file, rank, d),
{
    let f = file + file_step(d);
    let r = rank + rank_step(d);
    if on_board(f, r) {
        let t = bit(square_at(f, r));
        let mask = rook_mask(sq0);
        lemma_union(t, 0, 0);
        if on_board(f + file_step(d), r + rank_step(d)) {
            lemma_rook_mask_member(sq0 % 8, sq0 / 8, f as u64, r as u64);
            assert(((sq0 / 8) * 8 + sq0 % 8) as u64 == sq0);
            lemma_union(t, mask, b);
            lemma_rook_ray_masked(b, sq0, f, r, d);
        } else {
            assert(ray(b, f, r, d) == 0);
            assert(ray(b & mask, f, r, d) == 0);
        }
    }
}

/// Whether `d` is one of the four directions of a bishop.
pub open spec fn is_diagonal(d: Direction) -> bool {
    !is_straight(d)
}

/// Along a bishop's diagonal, blockers off the mask change nothing of the ray.
proof fn lemma_bishop_ray_masked(b: u64, sq0: u64, file: int, rank: int, d: Direction)
    requires
        sq0 < 64,
        on_board(file, rank),
        is_diagonal(d),
        ray(0, file, rank, d) & bishop_attacks(sq0, 0) == ray(0, file, rank, d),
    ensures
        ray(b & bishop_mask(sq0), file, rank, d) == ray(b, file, rank, d),
    decreases steps_left(file, rank, d),
{
    let f = file + file_step(d);
    let r = rank + rank_step(d);
    if on_board(f, r) {
        let t = bit(square_at(f, r));
        let rest = ray(0, f, r, d);
        let all = bishop_attacks(sq0, 0);
        let rim = edges(sq0 % 8, sq0 / 8);
        let mask = bishop_mask(sq0);
        lemma_union(t, 0, 0);
        lemma_union(t, rest, all);
        if on_board(f + file_step(d), r + rank_step(d)) {
            lemma_inner_not_edge(sq0 % 8, sq0 / 8, f as u64, r as u64);
            lemma_union(t, all, rim);
            lemma_union(t, mask, b);
            lemma_bishop_ray_masked(b, sq0, f, r, d);
        } else {
            assert(ray(b, f, r, d) == 0);
            assert(ray(b & mask, f, r, d) == 0);
        }
    }
}

/// Only the occupancy of the squares of its mask decides what a rook attacks.
pub proof fn lemma_rook_mask_suffices(square: u64, occupancy: u64)
    requires
        square < 64,
    ensures
        rook_attacks(square, occupancy & rook_mask(square)) == rook_attacks(square, occupancy),
{
    let file = (square % 8) as int;
    let rank = (square / 8) as int;
    lemma_rook_ray_masked(occupancy, square, file, rank, Direction::North);
    lemma_rook_ray_masked(occupancy, square, file, rank, Direction::East);
    lemma_rook_ray_masked(occupancy, square, file, rank, Direction::South);
    lemma_rook_ray_masked(occupancy, square, file, rank, Direction::West);
}

/// Only the occupancy of the squares of its mask decides what a bishop attacks.
pub proof fn lemma_bishop_mask_suffices(square: u64, occupancy: u64)
    requires
        square < 64,
    ensures
        bishop_attacks(square, occupancy & bishop_mask(square)) == bishop_attacks(
            square,
            occupancy,
        ),
{
    let file = (square % 8) as int;
    let rank = (square / 8) as int;
    lemma_union4(
        ray(0, file, rank, Direction::NorthWest),
        ray(0, file, rank, Direction::NorthEast),
        ray(0, file, rank, Direction::SouthWest),
        ray(0, file, rank, Direction::SouthEast),
    );
    lemma_bishop_ray_masked(occupancy, square, file, rank, Direction::NorthWest);
    lemma_bishop_ray_masked(occupancy, square, file, rank, Direction::NorthEast);
    lemma_bishop_ray_masked(occupancy, square, file, rank, Direction::SouthWest);
    lemma_bishop_ray_masked(occupancy, square, file, rank, Direction::SouthEast);
}

/// A ray that can take one step is not empty.
proof fn lemma_ray_nonempty(blockers: u64, file: int, rank: int, d: Direction)
    requires
        on_board(file, rank),
        on_board(file + file_step(d), rank + rank_step(d)),
    ensures
        ray(blockers, file, rank, d) != 0,
{
    let f = file + file_step(d);
    let r = rank + rank_step(d);
    let t = bit(square_at(f, r));
    lemma_shift_bit(square_at(f, r));
    lemma_union(t, ray(blockers, f, r, d), 0);
}

/// A rook attacks at least one square, whatever stands in its way.
pub proof fn lemma_rook_attacks_nonempty(square: u64, blockers: u64)
    requires
        square < 64,
    ensures
        rook_attacks(square, blockers) != 0,
{
    let file = (square % 8) as int;
    let rank = (square / 8) as int;
    if rank < 7 {
        lemma_ray_nonempty(blockers, file, rank, Direction::North);
    } else {
        lemma_ray_nonempty(blockers, file, rank, Direction::South);
    }
    lemma_union4(
        ray(blockers, file, rank, Direction::North),
        ray(blockers, file, rank, Direction::East),
        ray(blockers, file, rank, Direction::South),
        ray(blockers, file, rank, Direction::West),
    );
}

/// A bishop attacks at least one square, whatever stands in its way.
pub proof fn lemma_bishop_attacks_nonempty(square: u64, blockers: u64)
    requires
        square < 64,
    ensures
        bishop_attacks(square, blockers) != 0,
{
    let file = (square % 8) as int;
    let rank = (square / 8) as int;
    if file < 7 && rank < 7 {
        lemma_ray_nonempty(blockers, file, rank, Direction::NorthEast);
    } else if file < 7 {
        lemma_ray_nonempty(blockers, file, rank, Direction::SouthEast);
    } else if rank < 7 {
        lemma_ray_nonempty(blockers, file, rank, Direction::NorthWest);
    } else {
        lemma_ray_nonempty(blockers, file, rank, Direction::SouthWest);
    }
    lemma_union4(
        ray(blockers, file, rank, Direction::NorthWest),
        ray(blockers, file, rank, Direction::NorthEast),
        ray(blockers, file, rank, Direction::SouthWest),
        ray(blockers, file, rank, Direction::SouthEast),
    );
}

/// The mask of a rook holds at least one square.
pub proof fn lemma_rook_mask_some(square: u64)
    by (bit_vector)
    requires
        square < 64,
    ensures
        rook_mask(square) != 0,
{
}

/// The mask of a bishop holds at least one square: the diagonal neighbour
/// towards the middle of the board.
pub proof fn lemma_bishop_mask_some(square: u64)
    requires
        square < 64,
    ensures
        bishop_mask(square) != 0,
{
    let file = (square % 8) as int;
    let rank = (square / 8) as int;
    let d = if file < 4 && rank < 4 {
        Direction::NorthEast
    } else if file < 4 {
        Direction::SouthEast
    } else if rank < 4 {
        Direction::NorthWest
    } else {
        Direction::SouthWest
    };
    let f = file + file_step(d);
    let r = rank + rank_step(d);
    let t = bit(square_at(f, r));
    let all = bishop_attacks(square, 0);
    let rim = edges(square % 8, square / 8);
    lemma_shift_bit(square_at(f, r));
    lemma_union(t, ray(0, f, r, d), 0);
    lemma_union(t, 0, 0);
    assert(t & ray(0, file, rank, d) == t);
    lemma_union4(
        ray(0, file, rank, Direction::NorthWest),
        ray(0, file, rank, Direction::NorthEast),
        ray(0, file, rank, Direction::SouthWest),
        ray(0, file, rank, Direction::SouthEast),
    );
    lemma_union(t, ray(0, file, rank, d), all);
    lemma_inner_not_edge(square % 8, square / 8, f as u64, r as u64);
    lemma_union(t, all, rim);
    assert(t & bishop_mask(square) == t);
    lemma_union(bishop_mask(square), t, 0);
    if bishop_mask(square) == 0 {
        lemma_union(t, 0, 0);
    }
}

/// The squares next to `square`: what a king on it attacks.
pub open spec fn king_attacks(square: u64) -> u64 {
    let b = bit(square);
    ((b & !FILE_A & !RANK_8) << 7) | ((b & !RANK_8) << 8) | ((b & !FILE_H & !RANK_8) << 9) | ((b
        & !FILE_A) >> 1) | ((b & !FILE_H) << 1) | ((b & !FILE_A & !RANK_1) >> 9) | ((b & !RANK_1)
        >> 8) | ((b & !FILE_H & !RANK_1) >> 7)
}

/// The squares a knight's jump away from `square`.
pub open spec fn knight_attacks(square: u64) -> u64 {
    let b = bit(square);
    ((b & !RANK_8 & !RANK_7 & !FILE_A) << 15) | ((b & !RANK_8 & !RANK_7 & !FILE_H) << 17) | ((b
        & !FILE_A & !FILE_B & !RANK_8) << 6) | ((b & !FILE_G & !FILE_H & !RANK_8) << 10) | ((b
        & !RANK_1 & !RANK_2 & !FILE_A) >> 17) | ((b & !RANK_1 & !RANK_2 & !FILE_H) >> 15) | ((b
        & !FILE_A & !FILE_B & !RANK_1) >> 10) | ((b & !FILE_G & !FILE_H & !RANK_1) >> 6)
}

/// The squares that a pawn of `side` on `square` attacks: the two diagonal
/// neighbours ahead of it, north for White (side 0) and south for Black.
pub open spec fn pawn_attacks(side: int, square: u64) -> u64 {
    let b = bit(square);
    if side == 0 {
        ((b & !FILE_A) << 7) | ((b & !FILE_H) << 9)
    } else {
        ((b & !FILE_A) >> 9) | ((b & !FILE_H) >> 7)
    }
}

/// A king attacks exactly the other squares that are at most one file and
/// one rank away; a knight those two away in one and one in the other; a
/// pawn those one file aside on the next rank ahead.
pub proof fn lemma_leaper_squares(s: u64, t: u64)
    by (bit_vector)
    requires
        s < 64,
        t < 64,
    ensures
        ((king_attacks(s) >> t) & 1 == 1) <==> (s != t && s % 8 <= t % 8 + 1 && t % 8 <= s % 8 + 1
            && s / 8 <= t / 8 + 1 && t / 8 <= s / 8 + 1),
        ((knight_attacks(s) >> t) & 1 == 1) <==> (((s % 8 == t % 8 + 1 || t % 8 == s % 8 + 1) && (s
            / 8 == t / 8 + 2 || t / 8 == s / 8 + 2)) || ((s % 8 == t % 8 + 2 || t % 8 == s % 8 + 2)
            && (s / 8 == t / 8 + 1 || t / 8 == s / 8 + 1))),
        ((pawn_attacks(0, s) >> t) & 1 == 1) <==> ((s % 8 == t % 8 + 1 || t % 8 == s % 8 + 1) && t
            / 8 == s / 8 + 1),
        ((pawn_attacks(1, s) >> t) & 1 == 1) <==> ((s % 8 == t % 8 + 1 || t % 8 == s % 8 + 1) && s
            / 8 == t / 8 + 1),
{
}

} // verus!
