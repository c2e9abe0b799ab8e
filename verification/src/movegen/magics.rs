//! Magic numbers: the masks and blocker sets of the sliding pieces, and the
//! perfect hash that finds a slider's attacks in a flat table.

use vstd::prelude::*;
use vstd::arithmetic::power2::{
    lemma2_to64,
    lemma_pow2_adds,
    lemma_pow2_pos,
    lemma_pow2_strictly_increases,
    pow2,
};
use vstd::bits::lemma_u64_shr_is_div;
use crate::board::Board;
use crate::board::defs::{
    BitBoard,
    Coordinate,
    Files,
    Piece,
    Pieces,
    Ranks,
    Square,
    BB_FILES,
    BB_RANKS,
    EMPTY,
};
use crate::movegen::{geometry, MoveGenerator};
use crate::movegen::defs::{AttackBoards, BlockerBoards, Direction};
use crate::movegen::geometry::{
    lemma_bishop_attacks_nonempty,
    lemma_bishop_mask_some,
    lemma_lines,
    lemma_ray_step,
    lemma_rook_attacks_nonempty,
    lemma_rook_mask_some,
    lemma_shift_bit,
    lemma_union,
    ray,
    square_at,
    steps_left,
};
use crate::movegen::random::{draw, entropy_rng, seeded_rng};
use crate::movegen::subsets::{
    is_subset,
    lemma_next_subset,
    lemma_rank_empty,
    lemma_rank_full,
    lemma_rank_next,
    rank_in,
};
use crate::utils::bits::{bit, popcount};

verus! {

/// The number of rook attack sets: the sum, over the squares, of the number
/// of subsets of the square's rook mask.
pub const ROOK_TABLE_SIZE: usize = 102_400;

/// The number of bishop attack sets: the sum, over the squares, of the
/// number of subsets of the square's bishop mask.
pub const BISHOP_TABLE_SIZE: usize = 5_248;

/// A magic number for each square's rook mask, found by search once.
pub const PRECALC_ROOK_MAGIC_NUMBERS: [u64; 64] = [
    540432557653762064, 432363296033685762, 36046389741912104, 16176947462358433920,
    216191473845534804, 9367489424093348100, 2594076686081601544, 36029896536367232,
    864831868105932800, 70506187329536, 729864752066609808, 4611826824660387840,
    9511743184862979072, 288793506494284944, 4666010693227642884, 9801521647616803841,
    13546533286985732, 1153626292634050816, 9592817289904807936, 4611695914574151939,
    4972115276532286465, 162412161677670422, 9223376434918199304, 162254930953113921,
    18860219306115072, 9007337768485058, 2342733859858153602, 4539887806599172,
    22799494588923920, 11547792471846052872, 9223478706663604776, 11674460540688187521,
    141562264682784, 1625817744865755200, 3900117862030774272, 306385580877432832,
    562984883589124, 1442559272838760458, 9385642502670778880, 1126176965788705,
    5764678993437589544, 4616189893469585408, 2882901917318709312, 2305993651165134881,
    72090579693862936, 4830392848425877528, 36592296744992832, 146376343418961924,
    289075350976080128, 211174954106944, 145204289995904, 7061926412516729088,
    4399254503552, 9296067347670401152, 4036360555987993600, 36169538803941504,
    288552535206139969, 13917479648142360610, 5197752104730562625, 9511690787327967754,
    9583941791261131281, 289637768221950489, 87973891154500, 90146817869676674,
];

/// A magic number for each square's bishop mask, found by search once.
pub const PRECALC_BISHOP_MAGIC_NUMBERS: [u64; 64] = [
    9763706338607138, 5190495499374829568, 1757608938763715080, 5635023166382148,
    1441717098471489568, 216471892494671936, 71485708371456, 1441714970365796416,
    2305913413525602432, 1171081317891375617, 292760922441777154, 9011614524637184,
    6917533443404333188, 2342436989636452364, 9732894142632192, 9223976227102001673,
    4506073566151680, 4508306947212296, 10383049009760833568, 281544300199936,
    2532149008611147937, 5476941217843577856, 281974401011873, 1171498857374290249,
    2307116385683113996, 76710746607719424, 2256202859819520, 2815986751275520,
    4648735170633730, 110340390971785748, 282575093629258, 292804956568815633,
    4612847411946063361, 5260945541455423488, 1153137051845002784, 283676147974272,
    1160805561324011600, 6935966192667853058, 145315856925218816, 74032317458317840,
    1451296112752231426, 1198502117924880, 1164264067767223296, 1179312455686144,
    218429048836064256, 2307004385555138816, 7081912648232600097, 20275068512763968,
    1128134030393480, 71502700556416, 566319364718600, 3206599220787413332,
    2310508615553270400, 2594706738441895940, 2269396328513536, 1226179799735885824,
    633490563538950, 578730428585740288, 54044295744786434, 562952273003016,
    4629702650605209088, 705062972686464, 621501215379308818, 2832350678368384,
];

/// The perfect hash of one square and one kind of slider.
///
/// * `mask`: the squares whose occupancy matters.
/// * `shift`: 64 less the number of squares in `mask`.
/// * `offset`: where the square's attack sets begin in the table.
/// * `number`: the magic number.
#[derive(Clone, Copy, Debug)]
pub struct Magic {
    pub mask: BitBoard,
    pub shift: u8,
    pub offset: u64,
    pub number: u64,
}

impl Default for Magic {
    fn default() -> (magic: Self)
        ensures
            magic.mask == 0,
            magic.shift == 0,
            magic.offset == 0,
            magic.number == 0,
    {
        Magic { mask: 0, shift: 0, offset: 0, number: 0 }
    }
}

impl Magic {
    /// The hash of an occupancy: the blockers among it, multiplied by the
    /// magic number, cut down to the highest bits.
    pub open spec fn hash(&self, occupancy: u64) -> u64 {
        (occupancy & self.mask).wrapping_mul(self.number) >> self.shift
    }

    /// The place in the attack table that belongs to an occupancy.
    pub open spec fn index_of(&self, occupancy: u64) -> int {
        self.hash(occupancy) + self.offset
    }

    /// The place in the attack table that belongs to `occupancy`.
    pub fn get_index(&self, occupancy: BitBoard) -> (index: usize)
        requires
            self.shift < 64,
            self.index_of(occupancy) <= usize::MAX,
        ensures
            index == self.index_of(occupancy),
    {
        let blockerboard = occupancy & self.mask;
        ((blockerboard.wrapping_mul(self.number) >> self.shift) + self.offset) as usize
    }
}

/// Why the attack tables of the sliders could not be built.
#[derive(Clone, Copy, Debug, PartialEq, Eq, Structural)]
pub enum MagicError {
    /// The number supplied for this piece and square is no magic number: two
    /// blocker sets with different attacks share a place in the table.
    InvalidMagic { piece: Piece, square: Square },
    /// The search drew as many candidates for this piece and square as it
    /// was allowed and none was a magic number.
    SearchExhausted { piece: Piece, square: Square },
    /// The operating system handed out no randomness to seed the search.
    NoEntropy,
}

/// The mask of a slider, rook or bishop, on `square`.
pub open spec fn slider_mask(piece: Piece, square: u64) -> u64 {
    if piece == Pieces::ROOK {
        geometry::rook_mask(square)
    } else {
        geometry::bishop_mask(square)
    }
}

/// What a slider, rook or bishop, attacks from `square` against `blockers`.
pub open spec fn slider_attacks_on(piece: Piece, square: u64, blockers: u64) -> u64 {
    if piece == Pieces::ROOK {
        geometry::rook_attacks(square, blockers)
    } else {
        geometry::bishop_attacks(square, blockers)
    }
}

/// The descriptor of a square: its mask, the shift that the mask's size
/// gives, and the offset and number given.
pub open spec fn descriptor(piece: Piece, square: u64, offset: u64, number: u64) -> Magic {
    Magic {
        mask: slider_mask(piece, square),
        shift: (64 - popcount(slider_mask(piece, square))) as u8,
        offset,
        number,
    }
}

/// Whether `number` is a magic number for the piece on the square: no two
/// subsets of the mask share a hash unless they give the same attacks.
pub open spec fn is_magic(piece: Piece, square: u64, number: u64) -> bool {
    let m = descriptor(piece, square, 0, number);
    forall|a: u64, b: u64|
        #![trigger is_subset(a, m.mask), is_subset(b, m.mask)]
        is_subset(a, m.mask) && is_subset(b, m.mask) && m.hash(a) == m.hash(b)
            ==> slider_attacks_on(piece, square, a) == slider_attacks_on(piece, square, b)
}

/// Where the attack sets of `square` begin in the table of a piece: behind
/// those of all the squares before it.
pub open spec fn offset_of(piece: Piece, square: nat) -> nat
    decreases square,
{
    if square == 0 {
        0
    } else {
        offset_of(piece, (square - 1) as nat) + pow2(
            popcount(slider_mask(piece, (square - 1) as u64)),
        )
    }
}

/// Whether the descriptor `m` is that of the piece on the square, and the
/// table holds at the place of each subset of the mask what the piece
/// attacks against it.
pub open spec fn magic_fits(table: Seq<u64>, m: Magic, piece: Piece, square: u64) -> bool {
    &&& m.mask == slider_mask(piece, square)
    &&& 1 <= m.shift < 64
    &&& m.shift == 64 - popcount(m.mask)
    &&& m.offset == offset_of(piece, square as nat)
    &&& m.offset + pow2(popcount(m.mask)) <= table.len()
    &&& forall|b: u64| #[trigger]
        is_subset(b, m.mask) ==> table[m.index_of(b)] == slider_attacks_on(piece, square, b)
}

/// Whether the table and the 64 descriptors are the attack table of a piece:
/// every descriptor fits, and the table is exactly as long as all the
/// subsets of all the masks need.
pub open spec fn sliders_fit(table: Seq<u64>, magics: [Magic; 64], piece: Piece) -> bool {
    &&& table.len() == offset_of(piece, 64)
    &&& forall|square: u64|
        square < 64 ==> magic_fits(table, #[trigger] magics[square as int], piece, square)
}

/// Whether `e` names `square` as the first whose number is no magic number
/// for the piece.
pub open spec fn first_invalid_of(
    piece: Piece,
    numbers: [u64; 64],
    square: usize,
    e: MagicError,
) -> bool {
    &&& square < 64
    &&& e == (MagicError::InvalidMagic { piece, square })
    &&& !is_magic(piece, square as u64, numbers[square as int])
    &&& forall|before: u64|
        before < square ==> is_magic(piece, before, #[trigger] numbers[before as int])
}

/// Whether no two of the blocker sets share a hash unless their attacks agree.
pub open spec fn collision_free(m: Magic, blockers: Seq<u64>, attacks: Seq<u64>) -> bool {
    forall|i: int, j: int|
        #![trigger blockers[i], blockers[j]]
        0 <= i < blockers.len() && 0 <= j < blockers.len() && m.hash(blockers[i]) == m.hash(
            blockers[j],
        ) ==> attacks[i] == attacks[j]
}

/// A hash has as many bits as the shift leaves.
pub proof fn lemma_hash_bound(m: Magic, occupancy: u64)
    requires
        1 <= m.shift < 64,
    ensures
        m.hash(occupancy) < pow2((64 - m.shift) as nat),
{
    let y = (occupancy & m.mask).wrapping_mul(m.number);
    let low = pow2(m.shift as nat);
    let high = pow2((64 - m.shift) as nat);
    lemma_u64_shr_is_div(y, m.shift as u64);
    lemma_pow2_adds(m.shift as nat, (64 - m.shift) as nat);
    lemma_pow2_pos(m.shift as nat);
    lemma2_to64();
    assert(y as nat / low < high) by (nonlinear_arith)
        requires
            y < low * high,
            low > 0,
    ;
}

/// A set with a square in it has at least one square.
pub proof fn lemma_popcount_positive(bb: u64)
    requires
        bb != 0,
    ensures
        popcount(bb) >= 1,
    decreases bb,
{
    if bb % 2 == 0 {
        lemma_popcount_positive(bb / 2);
    }
}

/// A set of 64-bit words with two to the `k` members has `k` below 64.
pub proof fn lemma_count_fits(k: nat)
    requires
        pow2(k) <= u64::MAX,
    ensures
        k < 64,
{
    if k >= 64 {
        lemma2_to64();
        if k > 64 {
            lemma_pow2_strictly_increases(64, k);
        }
    }
}

/// Puts the attack set of each blocker set at its place in the table, in the
/// part of the table that belongs to `magic`, which must be empty. Succeeds
/// unless two blocker sets with different attacks meet at one place; then
/// the part is emptied again.
pub fn place_attacks(
    table: &mut Vec<BitBoard>,
    magic: &Magic,
    blocker_boards: &[BitBoard],
    attack_boards: &[BitBoard],
) -> (placed: bool)
    requires
        1 <= magic.shift < 64,
        blocker_boards@.len() == pow2((64 - magic.shift) as nat),
        attack_boards@.len() == blocker_boards@.len(),
        magic.offset + blocker_boards@.len() <= old(table)@.len(),
        forall|i: int| 0 <= i < attack_boards@.len() ==> attack_boards@[i] != EMPTY,
        forall|slot: int|
            magic.offset <= slot < magic.offset + blocker_boards@.len() ==> old(table)@[slot]
                == EMPTY,
    ensures
        final(table)@.len() == old(table)@.len(),
        forall|slot: int|
            0 <= slot < old(table)@.len() && !(magic.offset <= slot < magic.offset
                + blocker_boards@.len()) ==> final(table)@[slot] == old(table)@[slot],
        placed <==> collision_free(*magic, blocker_boards@, attack_boards@),
        placed ==> forall|i: int|
            0 <= i < blocker_boards@.len() ==> final(table)@[magic.index_of(
                #[trigger] blocker_boards@[i],
            )] == attack_boards@[i],
        !placed ==> forall|slot: int|
            magic.offset <= slot < magic.offset + blocker_boards@.len() ==> final(table)@[slot]
                == EMPTY,
{
    let count = blocker_boards.len();
    let total = table.len();
    let first = magic.offset as usize;
    let mut i: usize = 0;
    while i < count
        invariant
            1 <= magic.shift < 64,
            count == blocker_boards@.len(),
            count == pow2((64 - magic.shift) as nat),
            attack_boards@.len() == count,
            first == magic.offset,
            first + count <= table@.len(),
            table@.len() == old(table)@.len(),
            table@.len() == total,
            i <= count,
            forall|k: int| 0 <= k < attack_boards@.len() ==> attack_boards@[k] != EMPTY,
            forall|slot: int|
                0 <= slot < table@.len() && !(first <= slot < first + count) ==> table@[slot]
                    == old(table)@[slot],
            forall|k: int|
                0 <= k < i ==> table@[magic.index_of(#[trigger] blocker_boards@[k])]
                    == attack_boards@[k],
            forall|slot: int|
                first <= slot < first + count && #[trigger] table@[slot] != EMPTY ==> exists|
                    k: int,
                |
                    0 <= k < i && magic.index_of(#[trigger] blocker_boards@[k]) == slot
                        && attack_boards@[k] == table@[slot],
        decreases count - i,
    {
        proof {
            lemma_hash_bound(*magic, blocker_boards@[i as int]);
        }
        let index = magic.get_index(blocker_boards[i]);
        let ghost before = table@;
        if table[index] == EMPTY {
            table.set(index, attack_boards[i]);
            proof {
                assert forall|k: int| 0 <= k < i + 1 implies table@[magic.index_of(
                    #[trigger] blocker_boards@[k],
                )] == attack_boards@[k] by {
                    lemma_hash_bound(*magic, blocker_boards@[k]);
                }
                assert forall|slot: int|
                    first <= slot < first + count && #[trigger] table@[slot]
                        != EMPTY implies exists|k: int|
                    0 <= k < i + 1 && magic.index_of(#[trigger] blocker_boards@[k]) == slot
                        && attack_boards@[k] == table@[slot] by {
                    if slot == index {
                        assert(magic.index_of(blocker_boards@[i as int]) == slot);
                    } else {
                        assert(before[slot] != EMPTY);
                        let k = choose|k: int|
                            0 <= k < i && magic.index_of(#[trigger] blocker_boards@[k]) == slot
                                && attack_boards@[k] == before[slot];
                        assert(magic.index_of(blocker_boards@[k]) == slot);
                    }
                }
            }
        } else if table[index] != attack_boards[i] {
            proof {
                let k = choose|k: int|
                    0 <= k < i && magic.index_of(#[trigger] blocker_boards@[k]) == index
                        && attack_boards@[k] == table@[index as int];
                assert(magic.hash(blocker_boards@[k]) == magic.hash(blocker_boards@[i as int]));
                assert(attack_boards@[k] != attack_boards@[i as int]);
            }
            let mut wipe_index: usize = first;
            while wipe_index < first + count
                invariant
                    first <= wipe_index <= first + count,
                    first + count <= table@.len(),
                    table@.len() == total,
                    table@.len() == old(table)@.len(),
                    forall|slot: int|
                        0 <= slot < table@.len() && !(first <= slot < first + count)
                            ==> table@[slot] == old(table)@[slot],
                    forall|slot: int| first <= slot < wipe_index ==> table@[slot] == EMPTY,
                decreases first + count - wipe_index,
            {
                table.set(wipe_index, EMPTY);
                wipe_index += 1;
            }
            return false;
        }
        i += 1;
    }
    true
}

/// A descriptor that fits a table fits every longer table that starts with it.
pub proof fn lemma_fits_longer(
    shorter: Seq<u64>,
    longer: Seq<u64>,
    m: Magic,
    piece: Piece,
    square: u64,
)
    requires
        magic_fits(shorter, m, piece, square),
        shorter.len() <= longer.len(),
        forall|slot: int| 0 <= slot < shorter.len() ==> longer[slot] == shorter[slot],
    ensures
        magic_fits(longer, m, piece, square),
{
    assert forall|b: u64| #[trigger] is_subset(b, m.mask) implies longer[m.index_of(b)]
        == slider_attacks_on(piece, square, b) by {
        lemma_hash_bound(m, b);
    }
}

/// With every subset of the mask among the blocker sets, and their attacks
/// beside them, the blocker sets are free of collisions exactly if the
/// number is a magic number.
pub proof fn lemma_collision_free_is_magic(
    m: Magic,
    piece: Piece,
    square: u64,
    blockers: Seq<u64>,
    attacks: Seq<u64>,
)
    requires
        m.mask == slider_mask(piece, square),
        m.shift == 64 - popcount(m.mask),
        1 <= m.shift < 64,
        attacks.len() == blockers.len(),
        forall|i: int| 0 <= i < blockers.len() ==> is_subset(#[trigger] blockers[i], m.mask),
        forall|s: u64| #[trigger] is_subset(s, m.mask) ==> blockers.contains(s),
        forall|i: int|
            0 <= i < blockers.len() ==> #[trigger] attacks[i] == slider_attacks_on(
                piece,
                square,
                blockers[i],
            ),
    ensures
        collision_free(m, blockers, attacks) <==> is_magic(piece, square, m.number),
{
    let plain = descriptor(piece, square, 0, m.number);
    assert(forall|b: u64| plain.hash(b) == m.hash(b));
    if collision_free(m, blockers, attacks) {
        assert forall|a: u64, b: u64|
            #![trigger is_subset(a, plain.mask), is_subset(b, plain.mask)]
            is_subset(a, plain.mask) && is_subset(b, plain.mask) && plain.hash(a) == plain.hash(
                b,
            ) implies slider_attacks_on(piece, square, a) == slider_attacks_on(piece, square, b) by {
            let i = choose|i: int| 0 <= i < blockers.len() && blockers[i] == a;
            let j = choose|j: int| 0 <= j < blockers.len() && blockers[j] == b;
            assert(m.hash(blockers[i]) == m.hash(blockers[j]));
            assert(attacks[i] == attacks[j]);
        }
    }
    if is_magic(piece, square, m.number) {
        assert forall|i: int, j: int|
            #![trigger blockers[i], blockers[j]]
            0 <= i < blockers.len() && 0 <= j < blockers.len() && m.hash(blockers[i]) == m.hash(
                blockers[j],
            ) implies attacks[i] == attacks[j] by {
            assert(is_subset(blockers[i], plain.mask) && is_subset(blockers[j], plain.mask));
            assert(plain.hash(blockers[i]) == plain.hash(blockers[j]));
        }
    }
}

/// Opens the part of the table that belongs to `square`: appends one empty
/// place for each subset of the square's mask, and returns the square's
/// descriptor, still without a number, with the subsets and what the piece
/// attacks against each.
pub fn open_square(table: &mut Vec<BitBoard>, piece: Piece, square: Square) -> (parts: (
    Magic,
    BlockerBoards,
    AttackBoards,
))
    requires
        piece == Pieces::ROOK || piece == Pieces::BISHOP,
        square < 64,
        old(table)@.len() == offset_of(piece, square as nat),
    ensures
        parts.0 == descriptor(piece, square as u64, old(table)@.len() as u64, 0),
        1 <= parts.0.shift < 64,
        parts.0.shift == 64 - popcount(parts.0.mask),
        parts.0.mask == slider_mask(piece, square as u64),
        parts.0.offset == old(table)@.len(),
        parts.1@.len() == pow2(popcount(parts.0.mask)),
        parts.2@.len() == parts.1@.len(),
        final(table)@.len() == offset_of(piece, (square + 1) as nat),
        final(table)@.len() == old(table)@.len() + parts.1@.len(),
        forall|slot: int| 0 <= slot < old(table)@.len() ==> final(table)@[slot] == old(table)@[slot],
        forall|slot: int|
            old(table)@.len() <= slot < final(table)@.len() ==> final(table)@[slot] == EMPTY,
        forall|i: int| 0 <= i < parts.1@.len() ==> is_subset(#[trigger] parts.1@[i], parts.0.mask),
        forall|s: u64| #[trigger] is_subset(s, parts.0.mask) ==> parts.1@.contains(s),
        forall|i: int|
            0 <= i < parts.1@.len() ==> #[trigger] parts.2@[i] == slider_attacks_on(
                piece,
                square as u64,
                parts.1@[i],
            ),
        forall|i: int| 0 <= i < parts.2@.len() ==> parts.2@[i] != EMPTY,
{
    let is_rook = piece == Pieces::ROOK;
    let mask = if is_rook {
        MoveGenerator::rook_mask(square)
    } else {
        MoveGenerator::bishop_mask(square)
    };
    let bits = mask.count_ones();
    let blocker_boards = MoveGenerator::blocker_boards(mask);
    let permutations = blocker_boards.len();
    let attack_boards = if is_rook {
        MoveGenerator::rook_attack_boards(square, blocker_boards.as_slice())
    } else {
        MoveGenerator::bishop_attack_boards(square, blocker_boards.as_slice())
    };
    let offset = table.len();
    proof {
        if is_rook {
            lemma_rook_mask_some(square as u64);
        } else {
            lemma_bishop_mask_some(square as u64);
        }
        lemma_popcount_positive(mask);
        lemma_count_fits(popcount(mask));
        assert forall|i: int| 0 <= i < attack_boards@.len() implies attack_boards@[i] != EMPTY by {
            if is_rook {
                lemma_rook_attacks_nonempty(square as u64, blocker_boards@[i]);
            } else {
                lemma_bishop_attacks_nonempty(square as u64, blocker_boards@[i]);
            }
        }
    }
    let magic = Magic { mask, shift: (64 - bits) as u8, offset: offset as u64, number: 0 };

    let mut added: usize = 0;
    while added < permutations
        invariant
            added <= permutations,
            offset == old(table)@.len(),
            table@.len() == offset + added,
            forall|slot: int| 0 <= slot < offset ==> table@[slot] == old(table)@[slot],
            forall|slot: int| offset <= slot < table@.len() ==> table@[slot] == EMPTY,
        decreases permutations - added,
    {
        table.push(EMPTY);
        added += 1;
    }
    (magic, blocker_boards, attack_boards)
}

/// Builds the attack table of a piece, rook or bishop, with the magic number
/// given for each square. Fails at the first square whose number is no magic
/// number.
pub fn build_sliders(piece: Piece, numbers: &[u64; 64]) -> (built: Result<
    (Vec<BitBoard>, [Magic; 64]),
    MagicError,
>)
    requires
        piece == Pieces::ROOK || piece == Pieces::BISHOP,
    ensures
        match built {
            Ok((table, magics)) => {
                &&& sliders_fit(table@, magics, piece)
                &&& forall|square: int|
                    0 <= square < 64 ==> (#[trigger] magics[square]).number == numbers[square]
                &&& forall|square: u64|
                    square < 64 ==> is_magic(piece, square, #[trigger] numbers[square as int])
            },
            Err(e) => exists|square: usize| first_invalid_of(piece, *numbers, square, e),
        },
{
    let mut table: Vec<BitBoard> = Vec::new();
    let mut magics: [Magic; 64] = [Magic::default(); 64];
    let mut square: usize = 0;
    while square < 64
        invariant
            piece == Pieces::ROOK || piece == Pieces::BISHOP,
            square <= 64,
            table@.len() == offset_of(piece, square as nat),
            forall|k: u64|
                k < square ==> magic_fits(table@, #[trigger] magics[k as int], piece, k),
            forall|k: int| 0 <= k < square ==> (#[trigger] magics[k]).number == numbers[k],
            forall|k: u64| k < square ==> is_magic(piece, k, #[trigger] numbers[k as int]),
        decreases 64 - square,
    {
        let ghost before = table@;
        let (opened, blocker_boards, attack_boards) = open_square(&mut table, piece, square);
        let magic = Magic { number: numbers[square], ..opened };
        let placed = place_attacks(
            &mut table,
            &magic,
            blocker_boards.as_slice(),
            attack_boards.as_slice(),
        );
        proof {
            lemma_collision_free_is_magic(
                magic,
                piece,
                square as u64,
                blocker_boards@,
                attack_boards@,
            );
        }
        if !placed {
            proof {
                assert(first_invalid_of(
                    piece,
                    *numbers,
                    square,
                    MagicError::InvalidMagic { piece, square },
                ));
            }
            return Err(MagicError::InvalidMagic { piece, square });
        }
        magics[square] = magic;
        proof {
            assert forall|k: u64| k < square + 1 implies magic_fits(
                table@,
                #[trigger] magics[k as int],
                piece,
                k,
            ) by {
                if k < square {
                    lemma_fits_longer(before, table@, magics[k as int], piece, k);
                } else {
                    assert forall|b: u64| #[trigger] is_subset(b, magic.mask) implies table@[magic.index_of(
                        b,
                    )] == slider_attacks_on(piece, k, b) by {
                        let i = choose|i: int|
                            0 <= i < blocker_boards@.len() && blocker_boards@[i] == b;
                        assert(table@[magic.index_of(blocker_boards@[i])] == attack_boards@[i]);
                    }
                }
            }
        }
        square += 1;
    }
    Ok((table, magics))
}

/// Searches a magic number for each square of a piece, rook or bishop, and
/// builds the piece's attack table with them.
///
/// A candidate is the conjunction of three random draws, which favours
/// numbers with few bits. With a `seed` the draws, and so the numbers found,
/// are the same on every run; without one the operating system seeds them.
/// At most `max_attempts` candidates are tried for a square, or as many as
/// 64 bits can count where no limit is given.
pub fn find_magics(piece: Piece, seed: Option<u64>, max_attempts: Option<u64>) -> (found: Result<
    (Vec<BitBoard>, [Magic; 64]),
    MagicError,
>)
    requires
        piece == Pieces::ROOK || piece == Pieces::BISHOP,
    ensures
        match found {
            Ok((table, magics)) => {
                &&& sliders_fit(table@, magics, piece)
                &&& forall|square: u64|
                    square < 64 ==> is_magic(
                        piece,
                        square,
                        (#[trigger] magics[square as int]).number,
                    )
            },
            Err(MagicError::SearchExhausted { piece: p, square }) => p == piece && square < 64,
            Err(MagicError::NoEntropy) => seed is None,
            Err(MagicError::InvalidMagic { .. }) => false,
        },
        seed is Some && max_attempts == Some(0u64) ==> found == Err::<
            (Vec<BitBoard>, [Magic; 64]),
            MagicError,
        >(MagicError::SearchExhausted { piece, square: 0 }),
{
    let mut random = match seed {
        Some(value) => seeded_rng(value),
        None => match entropy_rng() {
            Some(rng) => rng,
            None => {
                return Err(MagicError::NoEntropy);
            },
        },
    };
    let limit: u64 = match max_attempts {
        Some(cap) => cap,
        None => u64::MAX,
    };
    assert(max_attempts == Some(0u64) ==> limit == 0);
    let mut table: Vec<BitBoard> = Vec::new();
    let mut magics: [Magic; 64] = [Magic::default(); 64];
    let mut square: usize = 0;
    while square < 64
        invariant
            piece == Pieces::ROOK || piece == Pieces::BISHOP,
            square <= 64,
            limit == 0 ==> square == 0,
            max_attempts == Some(0u64) ==> limit == 0,
            table@.len() == offset_of(piece, square as nat),
            forall|k: u64|
                k < square ==> magic_fits(table@, #[trigger] magics[k as int], piece, k),
            forall|k: u64|
                k < square ==> is_magic(piece, k, (#[trigger] magics[k as int]).number),
        decreases 64 - square,
    {
        let ghost before = table@;
        let (opened, blocker_boards, attack_boards) = open_square(&mut table, piece, square);
        let ghost opened_table = table@;
        let mut test_magic = opened;
        let mut found = false;
        let mut attempts: u64 = 0;
        while !found && attempts < limit
            invariant
                square < 64,
                found ==> limit > 0,
                test_magic.mask == opened.mask,
                test_magic.shift == opened.shift,
                test_magic.offset == opened.offset,
                1 <= opened.shift < 64,
                opened.mask == slider_mask(piece, square as u64),
                opened.shift == 64 - popcount(opened.mask),
                blocker_boards@.len() == pow2(popcount(opened.mask)),
                attack_boards@.len() == blocker_boards@.len(),
                table@.len() == opened_table.len(),
                opened.offset + blocker_boards@.len() == table@.len(),
                forall|slot: int| 0 <= slot < opened.offset ==> table@[slot] == opened_table[slot],
                !found ==> forall|slot: int|
                    opened.offset <= slot < table@.len() ==> table@[slot] == EMPTY,
                forall|i: int| 0 <= i < attack_boards@.len() ==> attack_boards@[i] != EMPTY,
                found ==> collision_free(test_magic, blocker_boards@, attack_boards@),
                found ==> forall|i: int|
                    0 <= i < blocker_boards@.len() ==> table@[test_magic.index_of(
                        #[trigger] blocker_boards@[i],
                    )] == attack_boards@[i],
            decreases
                    (if found {
                        0
                    } else {
                        1 + limit - attempts
                    }),
        {
            attempts += 1;
            let candidate = draw(&mut random) & draw(&mut random) & draw(&mut random);
            test_magic = Magic { number: candidate, ..opened };
            found = place_attacks(
                &mut table,
                &test_magic,
                blocker_boards.as_slice(),
                attack_boards.as_slice(),
            );
        }
        if !found {
            return Err(MagicError::SearchExhausted { piece, square });
        }
        magics[square] = test_magic;
        proof {
            lemma_collision_free_is_magic(
                test_magic,
                piece,
                square as u64,
                blocker_boards@,
                attack_boards@,
            );
            assert forall|k: u64| k < square + 1 implies magic_fits(
                table@,
                #[trigger] magics[k as int],
                piece,
                k,
            ) by {
                if k < square {
                    lemma_fits_longer(before, table@, magics[k as int], piece, k);
                } else {
                    assert forall|b: u64| #[trigger]
                        is_subset(b, test_magic.mask) implies table@[test_magic.index_of(b)]
                        == slider_attacks_on(piece, k, b) by {
                        let i = choose|i: int|
                            0 <= i < blocker_boards@.len() && blocker_boards@[i] == b;
                        assert(table@[test_magic.index_of(blocker_boards@[i])]
                            == attack_boards@[i]);
                    }
                }
            }
        }
        square += 1;
    }
    Ok((table, magics))
}

impl MoveGenerator {
    /// The mask of a rook on `square`.
    pub fn rook_mask(square: Square) -> (mask: BitBoard)
        requires
            square < 64,
        ensures
            mask == geometry::rook_mask(square as u64),
    {
        let coordinate = Board::square_on_file_rank(square);
        let bb_rook_square: u64 = 1u64 << square;
        let bb_edges = MoveGenerator::edges_without_piece(coordinate);
        proof {
            lemma_lines(coordinate.0 as u64);
            lemma_lines(coordinate.1 as u64);
        }
        let bb_mask = BB_FILES[coordinate.0 as usize] | BB_RANKS[coordinate.1 as usize];

        bb_mask & !bb_edges & !bb_rook_square
    }

    /// The mask of a bishop on `square`.
    pub fn bishop_mask(square: Square) -> (mask: BitBoard)
        requires
            square < 64,
        ensures
            mask == geometry::bishop_mask(square as u64),
    {
        let coordinate = Board::square_on_file_rank(square);
        let bb_edges = MoveGenerator::edges_without_piece(coordinate);
        let bb_up_left = MoveGenerator::bb_ray(0, square, Direction::NorthWest);
        let bb_up_right = MoveGenerator::bb_ray(0, square, Direction::NorthEast);
        let bb_down_right = MoveGenerator::bb_ray(0, square, Direction::SouthEast);
        let bb_down_left = MoveGenerator::bb_ray(0, square, Direction::SouthWest);

        (bb_up_left | bb_up_right | bb_down_left | bb_down_right) & !bb_edges
    }

    /// The edges of the board, without the file and the rank that the piece
    /// itself stands on.
    pub fn edges_without_piece(coordinate: Coordinate) -> (rim: BitBoard)
        requires
            coordinate.0 < 8,
            coordinate.1 < 8,
        ensures
            rim == geometry::edges(coordinate.0 as u64, coordinate.1 as u64),
    {
        proof {
            lemma_lines(coordinate.0 as u64);
            lemma_lines(coordinate.1 as u64);
        }
        let bb_piece_file = BB_FILES[coordinate.0 as usize];
        let bb_piece_rank = BB_RANKS[coordinate.1 as usize];

        (BB_FILES[Files::A] & !bb_piece_file) | (BB_FILES[Files::H] & !bb_piece_file) | (
        BB_RANKS[Ranks::R1] & !bb_piece_rank) | (BB_RANKS[Ranks::R8] & !bb_piece_rank)
    }

    /// Every subset of `mask`, each exactly once, in ascending order.
    pub fn blocker_boards(mask: BitBoard) -> (boards: BlockerBoards)
        ensures
            boards@.len() == pow2(popcount(mask)),
            forall|i: int| 0 <= i < boards@.len() ==> is_subset(#[trigger] boards@[i], mask),
            forall|i: int, j: int| 0 <= i < j < boards@.len() ==> boards@[i] < boards@[j],
            forall|s: u64| #[trigger] is_subset(s, mask) ==> boards@.contains(s),
    {
        let d: BitBoard = mask;

        let mut bb_blocker_boards: BlockerBoards = Vec::new();
        let mut n: BitBoard = 0;
        proof {
            assert(0u64 & !mask == 0) by (bit_vector);
            lemma_rank_empty(mask);
        }

        // The carry-rippler: each step gives the next subset in ascending order.
        loop
            invariant_except_break
                d == mask,
                is_subset(n, mask),
                bb_blocker_boards@.len() == rank_in(n, mask),
                forall|i: int|
                    0 <= i < bb_blocker_boards@.len() ==> is_subset(
                        #[trigger] bb_blocker_boards@[i],
                        mask,
                    ) && bb_blocker_boards@[i] < n,
                forall|i: int, j: int|
                    0 <= i < j < bb_blocker_boards@.len() ==> bb_blocker_boards@[i]
                        < bb_blocker_boards@[j],
                forall|s: u64| #[trigger]
                    is_subset(s, mask) && s < n ==> bb_blocker_boards@.contains(s),
            ensures
                bb_blocker_boards@.len() == pow2(popcount(mask)),
                forall|i: int|
                    0 <= i < bb_blocker_boards@.len() ==> is_subset(
                        #[trigger] bb_blocker_boards@[i],
                        mask,
                    ),
                forall|i: int, j: int|
                    0 <= i < j < bb_blocker_boards@.len() ==> bb_blocker_boards@[i]
                        < bb_blocker_boards@[j],
                forall|s: u64| #[trigger] is_subset(s, mask) ==> bb_blocker_boards@.contains(s),
            decreases mask - n,
        {
            let ghost before = bb_blocker_boards@;
            let ghost current = n;
            bb_blocker_boards.push(n);
            n = n.wrapping_sub(d) & d;
            proof {
                let after = bb_blocker_boards@;
                assert(after[before.len() as int] == current);
                lemma_next_subset(current, mask, 0);
                lemma_next_subset(n, mask, 0);
                assert forall|s: u64| #[trigger]
                    is_subset(s, mask) && (s < n || n == 0) implies after.contains(s) by {
                    lemma_next_subset(current, mask, s);
                    if s == current {
                        assert(after[before.len() as int] == s);
                    } else {
                        assert(s < current);
                        let k = choose|k: int| 0 <= k < before.len() && before[k] == s;
                        assert(after[k] == s);
                    }
                }
                if current == mask {
                    lemma_rank_full(mask);
                } else {
                    lemma_rank_next(current, mask);
                }
            }
            if n == 0 {
                break ;
            }
        }

        bb_blocker_boards
    }

    /// What a rook on `square` attacks against each of the blocker sets.
    pub fn rook_attack_boards(square: Square, blocker_boards: &[BitBoard]) -> (boards: AttackBoards)
        requires
            square < 64,
        ensures
            boards@.len() == blocker_boards@.len(),
            forall|i: int|
                0 <= i < boards@.len() ==> boards@[i] == geometry::rook_attacks(
                    square as u64,
                    blocker_boards@[i],
                ),
    {
        let mut bb_attack_boards: AttackBoards = Vec::new();
        let mut i: usize = 0;
        while i < blocker_boards.len()
            invariant
                square < 64,
                i <= blocker_boards@.len(),
                bb_attack_boards@.len() == i,
                forall|k: int|
                    0 <= k < i ==> bb_attack_boards@[k] == geometry::rook_attacks(
                        square as u64,
                        blocker_boards@[k],
                    ),
            decreases blocker_boards@.len() - i,
        {
            let b = blocker_boards[i];
            let bb_attacks = MoveGenerator::bb_ray(b, square, Direction::North)
                | MoveGenerator::bb_ray(b, square, Direction::East) | MoveGenerator::bb_ray(
                b,
                square,
                Direction::South,
            ) | MoveGenerator::bb_ray(b, square, Direction::West);
            bb_attack_boards.push(bb_attacks);
            i += 1;
        }

        bb_attack_boards
    }

    /// What a bishop on `square` attacks against each of the blocker sets.
    pub fn bishop_attack_boards(square: Square, blocker_boards: &[BitBoard]) -> (boards:
        AttackBoards)
        requires
            square < 64,
        ensures
            boards@.len() == blocker_boards@.len(),
            forall|i: int|
                0 <= i < boards@.len() ==> boards@[i] == geometry::bishop_attacks(
                    square as u64,
                    blocker_boards@[i],
                ),
    {
        let mut bb_attack_boards: AttackBoards = Vec::new();
        let mut i: usize = 0;
        while i < blocker_boards.len()
            invariant
                square < 64,
                i <= blocker_boards@.len(),
                bb_attack_boards@.len() == i,
                forall|k: int|
                    0 <= k < i ==> bb_attack_boards@[k] == geometry::bishop_attacks(
                        square as u64,
                        blocker_boards@[k],
                    ),
            decreases blocker_boards@.len() - i,
        {
            let b = blocker_boards[i];
            let bb_attacks = MoveGenerator::bb_ray(b, square, Direction::NorthWest)
                | MoveGenerator::bb_ray(b, square, Direction::NorthEast) | MoveGenerator::bb_ray(
                b,
                square,
                Direction::SouthWest,
            ) | MoveGenerator::bb_ray(b, square, Direction::SouthEast);
            bb_attack_boards.push(bb_attacks);
            i += 1;
        }

        bb_attack_boards
    }

    /// The ray from `square` in `direction`: square after square up to the
    /// edge of the board, or up to and including the first square that
    /// `bb_in` holds.
    pub fn bb_ray(bb_in: BitBoard, square: Square, direction: Direction) -> (bb: BitBoard)
        requires
            square < 64,
        ensures
            bb == ray(bb_in, (square % 8) as int, (square / 8) as int, direction),
    {
        let coordinate = Board::square_on_file_rank(square);
        let mut file = coordinate.0 as usize;
        let mut rank = coordinate.1 as usize;
        let mut bb_square: u64 = 1u64 << square;
        let mut bb_ray: u64 = 0;
        let mut done = false;
        let ghost whole = ray(bb_in, file as int, rank as int, direction);
        proof {
            lemma_union(whole, 0, 0);
        }

        while !done
            invariant
                file < 8,
                rank < 8,
                bb_square == bit(square_at(file as int, rank as int)),
                done ==> bb_ray == whole,
                !done ==> bb_ray | ray(bb_in, file as int, rank as int, direction) == whole,
            decreases
                    (if done {
                        0
                    } else {
                        1 + steps_left(file as int, rank as int, direction)
                    }),
        {
            proof {
                lemma_ray_step(bb_in, bb_ray, file as int, rank as int, direction);
                lemma_shift_bit(square_at(file as int, rank as int));
            }
            done = true;
            match direction {
                Direction::North => {
                    if rank != Ranks::R8 {
                        bb_square <<= 8;
                        bb_ray |= bb_square;
                        rank += 1;
                        done = (bb_square & bb_in) > 0;
                    }
                },
                Direction::East => {
                    if file != Files::H {
                        bb_square <<= 1;
                        bb_ray |= bb_square;
                        file += 1;
                        done = (bb_square & bb_in) > 0;
                    }
                },
                Direction::South => {
                    if rank != Ranks::R1 {
                        bb_square >>= 8;
                        bb_ray |= bb_square;
                        rank -= 1;
                        done = (bb_square & bb_in) > 0;
                    }
                },
                Direction::West => {
                    if file != Files::A {
                        bb_square >>= 1;
                        bb_ray |= bb_square;
                        file -= 1;
                        done = (bb_square & bb_in) > 0;
                    }
                },
                Direction::NorthWest => {
                    if (rank != Ranks::R8) && (file != Files::A) {
                        bb_square <<= 7;
                        bb_ray |= bb_square;
                        rank += 1;
                        file -= 1;
                        done = (bb_square & bb_in) > 0;
                    }
                },
                Direction::NorthEast => {
                    if (rank != Ranks::R8) && (file != Files::H) {
                        bb_square <<= 9;
                        bb_ray |= bb_square;
                        rank += 1;
                        file += 1;
                        done = (bb_square & bb_in) > 0;
                    }
                },
                Direction::SouthEast => {
                    if (rank != Ranks::R1) && (file != Files::H) {
                        bb_square >>= 7;
                        bb_ray |= bb_square;
                        rank -= 1;
                        file += 1;
                        done = (bb_square & bb_in) > 0;
                    }
                },
                Direction::SouthWest => {
                    if (rank != Ranks::R1) && (file != Files::A) {
                        bb_square >>= 9;
                        bb_ray |= bb_square;
                        rank -= 1;
                        file -= 1;
                        done = (bb_square & bb_in) > 0;
                    }
                },
            };
        }
        bb_ray
    }
}

} // verus!
