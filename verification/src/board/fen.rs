//! Reading a position from Forsyth-Edwards notation.
//!
//! The text is read as its bytes. It has six sections with a space between
//! them: the pieces, the side to move, the castling rights, the en-passant
//! square, the half-move clock and the full-move number. Where the last two
//! are missing, 0 and 1 stand for them.

use vstd::prelude::*;
use vstd::string::{StringSliceAdditionalSpecFns, StrSliceExecFns};
use crate::board::{occupancy_of, Board};
use crate::board::defs::{MAX_GAME_MOVES, MAX_MOVE_RULE};
use crate::board::material::{apart, lemma_material_bound, material_of};
use crate::utils::bits::{bit, holds, lemma_meet, lemma_members};

verus! {

/// The starting position.
pub const DEFAULT_FEN_STRING: &'static str =
    "rnbqkbnr/pppppppp/8/8/8/8/PPPPPPPP/RNBQKBNR w KQkq - 0 1";

/// The section of the notation that could not be read.
#[derive(Clone, Copy, Debug, PartialEq, Eq, Structural)]
pub enum FenError {
    IncorrectLength,
    PieceSection,
    ColorSection,
    CastlingSection,
    EnPassantSection,
    HalfMoveClockSection,
    FullMoveSection,
}

/// The outcome of reading a position.
pub type FenResult = Result<(), FenError>;

/// The outcome of splitting the notation into its sections.
pub type SplitResult = Result<Vec<Vec<u8>>, FenError>;

impl FenError {
    /// What went wrong, in words.
    pub fn message(&self) -> (text: &'static str)
        ensures
            text@ == (match *self {
                FenError::IncorrectLength => "Error in FEN string: must be 6 parts"@,
                FenError::PieceSection => "Error in FEN Section: Pieces or Squares"@,
                FenError::ColorSection => "Error in FEN Section: Colors"@,
                FenError::CastlingSection => "Error in FEN Section: Castling rights"@,
                FenError::EnPassantSection => "Error in FEN Section: En passant field"@,
                FenError::HalfMoveClockSection => "Error in FEN Section: Half-move clock"@,
                FenError::FullMoveSection => "Error in FEN Section: Full-move number"@,
            }),
    {
        match self {
            FenError::IncorrectLength => "Error in FEN string: must be 6 parts",
            FenError::PieceSection => "Error in FEN Section: Pieces or Squares",
            FenError::ColorSection => "Error in FEN Section: Colors",
            FenError::CastlingSection => "Error in FEN Section: Castling rights",
            FenError::EnPassantSection => "Error in FEN Section: En passant field",
            FenError::HalfMoveClockSection => "Error in FEN Section: Half-move clock",
            FenError::FullMoveSection => "Error in FEN Section: Full-move number",
        }
    }
}

/// The bytes from `i` on, with a hyphen in place of each en dash (the three
/// bytes E2 80 93).
pub open spec fn dashed_from(bytes: Seq<u8>, i: int) -> Seq<u8>
    decreases bytes.len() - i,
{
    if i < 0 || i >= bytes.len() {
        Seq::empty()
    } else if i + 2 < bytes.len() && bytes[i] == 0xE2 && bytes[i + 1] == 0x80 && bytes[i + 2]
        == 0x93 {
        seq![0x2Du8] + dashed_from(bytes, i + 3)
    } else {
        seq![bytes[i]] + dashed_from(bytes, i + 1)
    }
}

/// The text with a hyphen in place of each en dash.
pub open spec fn dashed(bytes: Seq<u8>) -> Seq<u8> {
    dashed_from(bytes, 0)
}

/// The sections that the first `n` bytes close, and what they hold of the
/// section that is still open. A space closes a section.
pub open spec fn split_upto(bytes: Seq<u8>, n: int) -> (Seq<Seq<u8>>, Seq<u8>)
    decreases n,
{
    if n <= 0 {
        (Seq::empty(), Seq::empty())
    } else {
        let (closed, open) = split_upto(bytes, n - 1);
        if bytes[n - 1] == 0x20 {
            (closed.push(open), Seq::empty())
        } else {
            (closed, open.push(bytes[n - 1]))
        }
    }
}

/// The sections of a text: what stands between its spaces.
pub open spec fn sections(bytes: Seq<u8>) -> Seq<Seq<u8>> {
    let (closed, open) = split_upto(bytes, bytes.len() as int);
    closed.push(open)
}

/// The sections of a position's notation: those of the text with hyphens for
/// en dashes, and behind four sections a `0` and a `1`.
pub open spec fn fen_sections(bytes: Seq<u8>) -> Seq<Seq<u8>> {
    let parts = sections(dashed(bytes));
    if parts.len() == 4 {
        parts.push(seq![0x30u8]).push(seq![0x31u8])
    } else {
        parts
    }
}

/// The side and the kind of the piece that a letter stands for: `KQRBNP` for
/// White's, `kqrbnp` for Black's.
pub open spec fn letter_of(c: u8) -> Option<(int, int)> {
    if c == 0x4B {
        Some((0, 0))
    } else if c == 0x51 {
        Some((0, 1))
    } else if c == 0x52 {
        Some((0, 2))
    } else if c == 0x42 {
        Some((0, 3))
    } else if c == 0x4E {
        Some((0, 4))
    } else if c == 0x50 {
        Some((0, 5))
    } else if c == 0x6B {
        Some((1, 0))
    } else if c == 0x71 {
        Some((1, 1))
    } else if c == 0x72 {
        Some((1, 2))
    } else if c == 0x62 {
        Some((1, 3))
    } else if c == 0x6E {
        Some((1, 4))
    } else if c == 0x70 {
        Some((1, 5))
    } else {
        None
    }
}

/// Where the reader of the piece section stands after `n` bytes, as rank and
/// file, or `None` where those bytes are not well formed. It starts on file
/// A of rank 8. A letter needs a file to stand on and moves one file on; a
/// digit 1 to 8 moves so many files on, not beyond the end of the rank; a
/// slash needs a full rank and a rank below it, and moves to its start.
pub open spec fn scan(section: Seq<u8>, n: int) -> Option<(int, int)>
    decreases n,
{
    if n <= 0 {
        Some((7, 0))
    } else {
        match scan(section, n - 1) {
            None => None,
            Some((rank, file)) => {
                let c = section[n - 1];
                if letter_of(c) is Some {
                    if file < 8 {
                        Some((rank, file + 1))
                    } else {
                        None
                    }
                } else if 0x31 <= c <= 0x38 {
                    if file + (c - 0x30) <= 8 {
                        Some((rank, file + (c - 0x30)))
                    } else {
                        None
                    }
                } else if c == 0x2F {
                    if file == 8 && rank > 0 {
                        Some((rank - 1, 0))
                    } else {
                        None
                    }
                } else {
                    None
                }
            },
        }
    }
}

/// Whether the piece section is well formed.
pub open spec fn pieces_ok(section: Seq<u8>) -> bool {
    scan(section, section.len() as int) is Some
}

/// The squares on which the first `n` bytes of the piece section put a piece
/// of the given side and kind.
pub open spec fn squares_placed(section: Seq<u8>, n: int, side: int, kind: int) -> u64
    decreases n,
{
    if n <= 0 {
        0
    } else {
        let before = squares_placed(section, n - 1, side, kind);
        match scan(section, n - 1) {
            Some((rank, file)) => if letter_of(section[n - 1]) == Some((side, kind)) && file < 8 {
                before | bit((rank * 8 + file) as u64)
            } else {
                before
            },
            None => before,
        }
    }
}

/// The side that the colour section names: `w` or `b`.
pub open spec fn color_of(section: Seq<u8>) -> Option<u8> {
    if section.len() == 1 && section[0] == 0x77 {
        Some(0u8)
    } else if section.len() == 1 && section[0] == 0x62 {
        Some(1u8)
    } else {
        None
    }
}

/// The castling right that a letter stands for: `K`, `Q`, `k`, `q`, and none
/// for a hyphen.
pub open spec fn right_of(c: u8) -> Option<u8> {
    if c == 0x4B {
        Some(1u8)
    } else if c == 0x51 {
        Some(2u8)
    } else if c == 0x6B {
        Some(4u8)
    } else if c == 0x71 {
        Some(8u8)
    } else if c == 0x2D {
        Some(0u8)
    } else {
        None
    }
}

/// The castling rights that the first `n` bytes of a section grant.
pub open spec fn rights_upto(section: Seq<u8>, n: int) -> Option<u8>
    decreases n,
{
    if n <= 0 {
        Some(0u8)
    } else {
        match rights_upto(section, n - 1) {
            None => None,
            Some(rights) => match right_of(section[n - 1]) {
                None => None,
                Some(right) => Some(rights | right),
            },
        }
    }
}

/// The castling rights that the castling section grants. A section of one to
/// four bytes is read letter by letter; any other grants nothing.
pub open spec fn rights_of(section: Seq<u8>) -> Option<u8> {
    if 1 <= section.len() <= 4 {
        rights_upto(section, section.len() as int)
    } else {
        Some(0u8)
    }
}

/// What the en-passant section says: nothing for a hyphen, else a square of
/// rank 3 or rank 6 by its name, a file letter `a` to `h` and the rank's digit.
pub open spec fn en_passant_of(section: Seq<u8>) -> Option<Option<u8>> {
    if section.len() == 1 && section[0] == 0x2D {
        Some(None)
    } else if section.len() == 2 && 0x61 <= section[0] <= 0x68 && (section[1] == 0x33
        || section[1] == 0x36) {
        Some(Some(((section[1] - 0x31) * 8 + (section[0] - 0x61)) as u8))
    } else {
        None
    }
}

/// The number that the bytes from `start` up to `n` spell in decimal digits.
pub open spec fn digits_value(section: Seq<u8>, start: int, n: int) -> Option<nat>
    decreases n - start,
{
    if n <= start {
        Some(0nat)
    } else {
        match digits_value(section, start, n - 1) {
            None => None,
            Some(value) => {
                let c = section[n - 1];
                if 0x30 <= c <= 0x39 {
                    Some((value * 10 + (c - 0x30)) as nat)
                } else {
                    None
                }
            },
        }
    }
}

/// The number that a section spells: decimal digits, at least one, with or
/// without a plus sign before them.
pub open spec fn number_of(section: Seq<u8>) -> Option<nat> {
    let start: int = if section.len() > 0 && section[0] == 0x2B {
        1
    } else {
        0
    };
    if section.len() <= start {
        None
    } else {
        digits_value(section, start, section.len() as int)
    }
}

/// The half-move clock that its section gives: a number up to 100 in one to
/// three bytes.
pub open spec fn half_move_of(section: Seq<u8>) -> Option<u8> {
    if 1 <= section.len() <= 3 && number_of(section) is Some && number_of(section).unwrap()
        <= MAX_MOVE_RULE {
        Some(number_of(section).unwrap() as u8)
    } else {
        None
    }
}

/// The full-move number that its section gives: a number up to 2048 in one
/// to four bytes.
pub open spec fn full_move_of(section: Seq<u8>) -> Option<u16> {
    if 1 <= section.len() <= 4 && number_of(section) is Some && number_of(section).unwrap()
        <= MAX_GAME_MOVES {
        Some(number_of(section).unwrap() as u16)
    } else {
        None
    }
}

/// The first thing that is wrong with a position's notation, if anything is.
pub open spec fn fen_error(bytes: Seq<u8>) -> Option<FenError> {
    let parts = fen_sections(bytes);
    if parts.len() != 6 {
        Some(FenError::IncorrectLength)
    } else if !pieces_ok(parts[0]) {
        Some(FenError::PieceSection)
    } else if color_of(parts[1]) is None {
        Some(FenError::ColorSection)
    } else if rights_of(parts[2]) is None {
        Some(FenError::CastlingSection)
    } else if en_passant_of(parts[3]) is None {
        Some(FenError::EnPassantSection)
    } else if half_move_of(parts[4]) is None {
        Some(FenError::HalfMoveClockSection)
    } else if full_move_of(parts[5]) is None {
        Some(FenError::FullMoveSection)
    } else {
        None
    }
}

/// Whether `after` has the pieces of `before` and those that the piece
/// section puts on the board.
pub open spec fn pieces_applied(before: Board, section: Seq<u8>, after: Board) -> bool {
    forall|side: int, kind: int|
        0 <= side < 2 && 0 <= kind < 6 ==> #[trigger] after.bb_pieces[side][kind]
            == before.bb_pieces[side][kind] | squares_placed(
            section,
            section.len() as int,
            side,
            kind,
        )
}

/// Whether `after` is `before` with a well-formed notation read into it: the
/// pieces of the notation are added to those on the board, the rights of the
/// notation to those of the board; the side to move and the two counters are
/// those of the notation; the en-passant square is that of the notation
/// where it names one; occupancy and material are those of the pieces.
pub open spec fn fen_applied(before: Board, bytes: Seq<u8>, after: Board) -> bool {
    let parts = fen_sections(bytes);
    &&& pieces_applied(before, parts[0], after)
    &&& after.bb_side[0] == occupancy_of(after.bb_pieces[0])
    &&& after.bb_side[1] == occupancy_of(after.bb_pieces[1])
    &&& after.state.material[0] == material_of(after.bb_pieces[0]@)
    &&& after.state.material[1] == material_of(after.bb_pieces[1]@)
    &&& Some(after.state.active_side) == color_of(parts[1])
    &&& Some(after.state.castling) == (match rights_of(parts[2]) {
        Some(rights) => Some(before.state.castling | rights),
        None => None,
    })
    &&& Some(after.state.en_passant) == (match en_passant_of(parts[3]) {
        Some(Some(square)) => Some(Some(square)),
        Some(None) => Some(before.state.en_passant),
        None => None,
    })
    &&& Some(after.state.half_move_clock) == half_move_of(parts[4])
    &&& Some(after.state.full_move_number) == full_move_of(parts[5])
}

/// Whether the material of the position that comes of reading the notation
/// into `before` can be counted in 16 bits.
pub open spec fn fen_material_fits(before: Board, bytes: Seq<u8>) -> bool {
    forall|after: Board| #[trigger]
        pieces_applied(before, fen_sections(bytes)[0], after) ==> material_of(
            after.bb_pieces[0]@,
        ) <= u16::MAX && material_of(after.bb_pieces[1]@) <= u16::MAX
}

/// The bytes of the notation to read: those of the text given, or of the
/// starting position where none is given.
pub open spec fn fen_bytes(fen_string: Option<&str>) -> Seq<u8> {
    match fen_string {
        Some(fen) => fen.spec_bytes(),
        None => DEFAULT_FEN_STRING.spec_bytes(),
    }
}

/// How far the reader of the piece section has come when it stands on the
/// given rank and file: the squares are read from rank 8 down, each rank
/// from file A on.
pub open spec fn reading_place(rank: int, file: int) -> int {
    (7 - rank) * 8 + file
}

/// The reader stays on the board and never goes back.
proof fn lemma_scan_on_board(section: Seq<u8>, n: int)
    requires
        0 <= n,
        scan(section, n) is Some,
    ensures
        0 <= scan(section, n).unwrap().0 < 8,
        0 <= scan(section, n).unwrap().1 <= 8,
        n > 0 ==> scan(section, n - 1) is Some && reading_place(
            scan(section, n - 1).unwrap().0,
            scan(section, n - 1).unwrap().1,
        ) <= reading_place(scan(section, n).unwrap().0, scan(section, n).unwrap().1),
    decreases n,
{
    if n > 0 {
        lemma_scan_on_board(section, n - 1);
    }
}

/// Every square that the reader has put a piece on lies behind the reader.
proof fn lemma_placed_behind(section: Seq<u8>, n: int, side: int, kind: int, t: u64)
    requires
        0 <= n,
        scan(section, n) is Some,
        holds(squares_placed(section, n, side, kind), t),
    ensures
        reading_place((t / 8) as int, (t % 8) as int) < reading_place(
            scan(section, n).unwrap().0,
            scan(section, n).unwrap().1,
        ),
    decreases n,
{
    lemma_members(0, 0, 0, t);
    if n > 0 {
        lemma_scan_on_board(section, n);
        lemma_scan_on_board(section, n - 1);
        let before = squares_placed(section, n - 1, side, kind);
        let (rank, file) = scan(section, n - 1).unwrap();
        if holds(before, t) {
            lemma_placed_behind(section, n - 1, side, kind, t);
        } else {
            let square = (rank * 8 + file) as u64;
            lemma_members(before, bit(square), square, t);
        }
    }
}

/// The reader puts no two pieces on one square.
proof fn lemma_placed_apart(section: Seq<u8>, n: int, s1: int, k1: int, s2: int, k2: int)
    requires
        0 <= n,
        s1 != s2 || k1 != k2,
    ensures
        squares_placed(section, n, s1, k1) & squares_placed(section, n, s2, k2) == 0,
    decreases n,
{
    lemma_members(0, 0, 0, 0);
    if n > 0 {
        lemma_placed_apart(section, n - 1, s1, k1, s2, k2);
        let old1 = squares_placed(section, n - 1, s1, k1);
        let old2 = squares_placed(section, n - 1, s2, k2);
        let new1 = squares_placed(section, n, s1, k1);
        let new2 = squares_placed(section, n, s2, k2);
        if new1 != old1 || new2 != old2 {
            let (rank, file) = scan(section, n - 1).unwrap();
            lemma_scan_on_board(section, n - 1);
            let square = (rank * 8 + file) as u64;
            lemma_meet(new1, new2);
            if new1 & new2 > 0 {
                let t = choose|t: u64| #[trigger] holds(new1, t) && holds(new2, t);
                lemma_members(old1, bit(square), square, t);
                lemma_members(old2, bit(square), square, t);
                lemma_meet(old1, old2);
                if holds(old1, t) && holds(old2, t) {
                } else if holds(old1, t) {
                    lemma_placed_behind(section, n - 1, s1, k1, t);
                } else {
                    lemma_placed_behind(section, n - 1, s2, k2, t);
                }
            }
        }
    }
}

/// Whatever is read into a board without pieces, no two pieces stand on one
/// square, so the material can be counted.
pub proof fn lemma_empty_board_fits(before: Board, bytes: Seq<u8>)
    requires
        forall|side: int, kind: int|
            0 <= side < 2 && 0 <= kind < 6 ==> #[trigger] before.bb_pieces[side][kind] == 0,
    ensures
        fen_material_fits(before, bytes),
{
    let section = fen_sections(bytes)[0];
    let n = section.len() as int;
    assert forall|after: Board| #[trigger] pieces_applied(before, section, after) implies material_of(
        after.bb_pieces[0]@,
    ) <= u16::MAX && material_of(after.bb_pieces[1]@) <= u16::MAX by {
        assert forall|side: int| 0 <= side < 2 implies apart(#[trigger] after.bb_pieces[side]@) by {
            let rows = after.bb_pieces[side]@;
            assert forall|i: int, j: int|
                #![trigger rows[i], rows[j]]
                0 <= i < j < rows.len() implies rows[i] & rows[j] == 0 by {
                lemma_placed_apart(section, n, side, i, side, j);
                lemma_members(squares_placed(section, n, side, i), 0, 0, 0);
                lemma_members(squares_placed(section, n, side, j), 0, 0, 0);
                assert(rows[i] == after.bb_pieces[side][i]);
                assert(rows[j] == after.bb_pieces[side][j]);
            }
        }
        lemma_material_bound(after.bb_pieces[0]@);
        lemma_material_bound(after.bb_pieces[1]@);
    }
}

/// The sections of a list of byte vectors, as sequences.
pub open spec fn views(parts: Seq<Vec<u8>>) -> Seq<Seq<u8>> {
    Seq::new(parts.len(), |k: int| parts[k]@)
}

/// The text with a hyphen in place of each en dash.
pub fn replace_dashes(bytes: &[u8]) -> (out: Vec<u8>)
    ensures
        out@ == dashed(bytes@),
{
    let mut out: Vec<u8> = Vec::new();
    let mut i: usize = 0;
    while i < bytes.len()
        invariant
            i <= bytes@.len(),
            out@ + dashed_from(bytes@, i as int) == dashed(bytes@),
        decreases bytes@.len() - i,
    {
        let ghost before = out@;
        if bytes.len() - i > 2 && bytes[i] == 0xE2 && bytes[i + 1] == 0x80 && bytes[i + 2] == 0x93 {
            out.push(0x2D);
            proof {
                assert(out@ + dashed_from(bytes@, i + 3) =~= before + dashed_from(bytes@, i as int));
            }
            i += 3;
        } else {
            out.push(bytes[i]);
            proof {
                assert(out@ + dashed_from(bytes@, i + 1) =~= before + dashed_from(bytes@, i as int));
            }
            i += 1;
        }
    }
    proof {
        assert(out@ + Seq::<u8>::empty() =~= out@);
    }
    out
}

/// What stands between the spaces of a text.
pub fn split_sections(bytes: &[u8]) -> (parts: Vec<Vec<u8>>)
    ensures
        views(parts@) == sections(bytes@),
{
    let mut parts: Vec<Vec<u8>> = Vec::new();
    let mut current: Vec<u8> = Vec::new();
    let mut i: usize = 0;
    while i < bytes.len()
        invariant
            i <= bytes@.len(),
            (views(parts@), current@) == split_upto(bytes@, i as int),
        decreases bytes@.len() - i,
    {
        let ghost closed = views(parts@);
        if bytes[i] == 0x20 {
            parts.push(current);
            current = Vec::new();
            proof {
                assert(views(parts@) =~= closed.push(split_upto(bytes@, i as int).1));
            }
        } else {
            current.push(bytes[i]);
            proof {
                assert(views(parts@) =~= closed);
            }
        }
        i += 1;
    }
    let ghost closed = views(parts@);
    let ghost open = current@;
    parts.push(current);
    proof {
        assert(views(parts@) =~= closed.push(open));
    }
    parts
}

/// Splits a position's notation into its six sections. Where it has only
/// four, a `0` and a `1` are put behind them.
pub fn split_fen_string(fen_string: Option<&str>) -> (split: SplitResult)
    ensures
        match split {
            Ok(parts) => views(parts@) == fen_sections(fen_bytes(fen_string)) && parts@.len()
                == 6,
            Err(e) => e == FenError::IncorrectLength && fen_sections(fen_bytes(fen_string)).len()
                != 6,
        },
{
    let text: &str = match fen_string {
        Some(fen) => fen,
        None => DEFAULT_FEN_STRING,
    };
    let bytes = text.as_bytes_vec();
    let plain = replace_dashes(bytes.as_slice());
    let mut fen_sections = split_sections(plain.as_slice());

    if fen_sections.len() == 4 {
        let ghost four = views(fen_sections@);
        let mut zero: Vec<u8> = Vec::new();
        zero.push(0x30);
        let mut one: Vec<u8> = Vec::new();
        one.push(0x31);
        fen_sections.push(zero);
        fen_sections.push(one);
        proof {
            assert(zero@ =~= seq![0x30u8]);
            assert(one@ =~= seq![0x31u8]);
            assert(views(fen_sections@) =~= four.push(seq![0x30u8]).push(seq![0x31u8]));
        }
    }
    if fen_sections.len() != 6 {
        return Err(FenError::IncorrectLength);
    }
    Ok(fen_sections)
}

/// Once the reader has failed it stays failed.
proof fn lemma_scan_stuck(section: Seq<u8>, n: int, m: int)
    requires
        0 <= n <= m,
        scan(section, n) is None,
    ensures
        scan(section, m) is None,
    decreases m - n,
{
    if n < m {
        lemma_scan_stuck(section, n, m - 1);
    }
}

/// Once a letter is no right, the rights stay unread.
proof fn lemma_rights_stuck(section: Seq<u8>, n: int, m: int)
    requires
        0 <= n <= m,
        rights_upto(section, n) is None,
    ensures
        rights_upto(section, m) is None,
    decreases m - n,
{
    if n < m {
        lemma_rights_stuck(section, n, m - 1);
    }
}

/// Once a byte is no digit, the number stays unread.
proof fn lemma_digits_stuck(section: Seq<u8>, start: int, n: int, m: int)
    requires
        start <= n <= m,
        digits_value(section, start, n) is None,
    ensures
        digits_value(section, start, m) is None,
    decreases m - n,
{
    if n < m {
        lemma_digits_stuck(section, start, n, m - 1);
    }
}

/// The side and the kind of the piece that a letter stands for.
fn letter(c: u8) -> (found: Option<(usize, usize)>)
    ensures
        match found {
            Some((side, kind)) => letter_of(c) == Some((side as int, kind as int)) && side < 2
                && kind < 6,
            None => letter_of(c) is None,
        },
{
    if c == 0x4B {
        Some((0, 0))
    } else if c == 0x51 {
        Some((0, 1))
    } else if c == 0x52 {
        Some((0, 2))
    } else if c == 0x42 {
        Some((0, 3))
    } else if c == 0x4E {
        Some((0, 4))
    } else if c == 0x50 {
        Some((0, 5))
    } else if c == 0x6B {
        Some((1, 0))
    } else if c == 0x71 {
        Some((1, 1))
    } else if c == 0x72 {
        Some((1, 2))
    } else if c == 0x62 {
        Some((1, 3))
    } else if c == 0x6E {
        Some((1, 4))
    } else if c == 0x70 {
        Some((1, 5))
    } else {
        None
    }
}

/// Reads the piece section and adds its pieces to those on the board. Fails,
/// and changes nothing, where the section is not well formed.
pub fn pieces(board: &mut Board, section: &[u8]) -> (read: FenResult)
    ensures
        final(board).bb_side == old(board).bb_side,
        final(board).state == old(board).state,
        match read {
            Ok(_) => pieces_ok(section@) && pieces_applied(*old(board), section@, *final(board)),
            Err(e) => e == FenError::PieceSection && !pieces_ok(section@) && final(board).bb_pieces
                == old(board).bb_pieces,
        },
{
    let mut rank: usize = 7;
    let mut file: usize = 0;
    let mut placed: [[u64; 6]; 2] = [[0; 6]; 2];
    let mut i: usize = 0;
    while i < section.len()
        invariant
            i <= section@.len(),
            rank < 8,
            file <= 8,
            scan(section@, i as int) == Some((rank as int, file as int)),
            forall|side: int, kind: int|
                0 <= side < 2 && 0 <= kind < 6 ==> #[trigger] placed[side][kind] == squares_placed(
                    section@,
                    i as int,
                    side,
                    kind,
                ),
        decreases section@.len() - i,
    {
        let c = section[i];
        let ghost before = placed;
        let mut well_formed = true;
        match letter(c) {
            Some((side, kind)) => {
                if file < 8 {
                    placed[side][kind] |= 1u64 << (rank * 8 + file);
                    file += 1;
                } else {
                    well_formed = false;
                }
            },
            None => {
                if 0x31 <= c && c <= 0x38 {
                    let skip = (c - 0x30) as usize;
                    if file + skip <= 8 {
                        file += skip;
                    } else {
                        well_formed = false;
                    }
                } else if c == 0x2F {
                    if file == 8 && rank > 0 {
                        rank -= 1;
                        file = 0;
                    } else {
                        well_formed = false;
                    }
                } else {
                    well_formed = false;
                }
            },
        }
        if !well_formed {
            proof {
                assert(scan(section@, i + 1) is None);
                lemma_scan_stuck(section@, i + 1, section@.len() as int);
            }
            return Err(FenError::PieceSection);
        }
        proof {
            assert forall|side: int, kind: int| 0 <= side < 2 && 0 <= kind < 6 implies #[trigger] placed[side][kind]
                == squares_placed(section@, i + 1, side, kind) by {
                assert(before[side][kind] == squares_placed(section@, i as int, side, kind));
            }
        }
        i += 1;
    }
    let mut side: usize = 0;
    while side < 2
        invariant
            side <= 2,
            board.bb_side == old(board).bb_side,
            board.state == old(board).state,
            forall|s: int, k: int|
                0 <= s < side && 0 <= k < 6 ==> #[trigger] board.bb_pieces[s][k] == old(board).bb_pieces[s][k] | placed[s][k],
            forall|s: int, k: int|
                side <= s < 2 && 0 <= k < 6 ==> #[trigger] board.bb_pieces[s][k] == old(board).bb_pieces[s][k],
        decreases 2 - side,
    {
        let mut kind: usize = 0;
        while kind < 6
            invariant
                side < 2,
                kind <= 6,
                board.bb_side == old(board).bb_side,
                board.state == old(board).state,
                forall|s: int, k: int|
                    0 <= s < side && 0 <= k < 6 ==> #[trigger] board.bb_pieces[s][k] == old(board).bb_pieces[s][k] | placed[s][k],
                forall|k: int|
                    0 <= k < kind ==> #[trigger] board.bb_pieces[side as int][k] == old(board).bb_pieces[side as int][k] | placed[side as int][k],
                forall|k: int|
                    kind <= k < 6 ==> #[trigger] board.bb_pieces[side as int][k] == old(board).bb_pieces[side as int][k],
                forall|s: int, k: int|
                    side < s < 2 && 0 <= k < 6 ==> #[trigger] board.bb_pieces[s][k] == old(board).bb_pieces[s][k],
            decreases 6 - kind,
        {
            board.bb_pieces[side][kind] |= placed[side][kind];
            kind += 1;
        }
        side += 1;
    }
    Ok(())
}

/// Reads the colour section: `w` makes White the side to move, `b` Black.
pub fn color(board: &mut Board, section: &[u8]) -> (read: FenResult)
    ensures
        final(board).bb_pieces == old(board).bb_pieces,
        final(board).bb_side == old(board).bb_side,
        final(board).state.castling == old(board).state.castling,
        final(board).state.en_passant == old(board).state.en_passant,
        final(board).state.half_move_clock == old(board).state.half_move_clock,
        final(board).state.full_move_number == old(board).state.full_move_number,
        final(board).state.material == old(board).state.material,
        match read {
            Ok(_) => color_of(section@) == Some(final(board).state.active_side),
            Err(e) => e == FenError::ColorSection && color_of(section@) is None && final(board).state.active_side == old(board).state.active_side,
        },
{
    if section.len() == 1 {
        let c = section[0];
        if c == 0x77 {
            board.state.active_side = 0;
            return Ok(());
        }
        if c == 0x62 {
            board.state.active_side = 1;
            return Ok(());
        }
    }
    Err(FenError::ColorSection)
}

/// Reads the castling section and adds its rights to those of the board.
pub fn castling(board: &mut Board, section: &[u8]) -> (read: FenResult)
    ensures
        final(board).bb_pieces == old(board).bb_pieces,
        final(board).bb_side == old(board).bb_side,
        final(board).state.active_side == old(board).state.active_side,
        final(board).state.en_passant == old(board).state.en_passant,
        final(board).state.half_move_clock == old(board).state.half_move_clock,
        final(board).state.full_move_number == old(board).state.full_move_number,
        final(board).state.material == old(board).state.material,
        match read {
            Ok(_) => rights_of(section@) is Some && final(board).state.castling == old(board).state.castling | rights_of(section@).unwrap(),
            Err(e) => e == FenError::CastlingSection && rights_of(section@) is None && final(board).state.castling == old(board).state.castling,
        },
{
    let mut rights: u8 = 0;
    if 1 <= section.len() && section.len() <= 4 {
        let mut i: usize = 0;
        while i < section.len()
            invariant
                i <= section@.len(),
                1 <= section@.len() <= 4,
                rights_upto(section@, i as int) == Some(rights),
            decreases section@.len() - i,
        {
            let c = section[i];
            let right: u8 = if c == 0x4B {
                1
            } else if c == 0x51 {
                2
            } else if c == 0x6B {
                4
            } else if c == 0x71 {
                8
            } else if c == 0x2D {
                0
            } else {
                proof {
                    assert(rights_upto(section@, i + 1) is None);
                    lemma_rights_stuck(section@, i + 1, section@.len() as int);
                }
                return Err(FenError::CastlingSection);
            };
            rights |= right;
            i += 1;
        }
    }
    board.state.castling |= rights;
    Ok(())
}

/// Reads the en-passant section: a hyphen leaves the board's en-passant
/// square as it is, the name of a square of rank 3 or 6 replaces it.
pub fn en_passant(board: &mut Board, section: &[u8]) -> (read: FenResult)
    ensures
        final(board).bb_pieces == old(board).bb_pieces,
        final(board).bb_side == old(board).bb_side,
        final(board).state.active_side == old(board).state.active_side,
        final(board).state.castling == old(board).state.castling,
        final(board).state.half_move_clock == old(board).state.half_move_clock,
        final(board).state.full_move_number == old(board).state.full_move_number,
        final(board).state.material == old(board).state.material,
        match read {
            Ok(_) => match en_passant_of(section@) {
                Some(Some(square)) => final(board).state.en_passant == Some(square) && square < 64,
                Some(None) => final(board).state.en_passant == old(board).state.en_passant,
                None => false,
            },
            Err(e) => e == FenError::EnPassantSection && en_passant_of(section@) is None && final(board).state.en_passant == old(board).state.en_passant,
        },
{
    if section.len() == 1 && section[0] == 0x2D {
        return Ok(());
    }
    if section.len() == 2 {
        let file = section[0];
        let rank = section[1];
        if 0x61 <= file && file <= 0x68 && (rank == 0x33 || rank == 0x36) {
            board.state.en_passant = Some((rank - 0x31) * 8 + (file - 0x61));
            return Ok(());
        }
    }
    Err(FenError::EnPassantSection)
}

/// The number that a section of at most four bytes spells.
fn read_number(section: &[u8]) -> (number: Option<u32>)
    requires
        section@.len() <= 4,
    ensures
        match number {
            Some(value) => number_of(section@) == Some(value as nat) && value <= 9999,
            None => number_of(section@) is None,
        },
{
    let start: usize = if section.len() > 0 && section[0] == 0x2B {
        1
    } else {
        0
    };
    if section.len() <= start {
        return None;
    }
    let mut value: u32 = 0;
    let mut bound: u32 = 1;
    let mut i: usize = start;
    while i < section.len()
        invariant
            start <= i <= section@.len(),
            section@.len() <= 4,
            start == (if section@.len() > 0 && section@[0] == 0x2B {
                1int
            } else {
                0int
            }),
            digits_value(section@, start as int, i as int) == Some(value as nat),
            value < bound,
            i - start == 0 ==> bound == 1,
            i - start == 1 ==> bound == 10,
            i - start == 2 ==> bound == 100,
            i - start == 3 ==> bound == 1000,
            i - start == 4 ==> bound == 10000,
        decreases section@.len() - i,
    {
        let c = section[i];
        if c < 0x30 || c > 0x39 {
            proof {
                assert(digits_value(section@, start as int, i + 1) is None);
                lemma_digits_stuck(section@, start as int, i + 1, section@.len() as int);
            }
            return None;
        }
        value = value * 10 + (c - 0x30) as u32;
        bound = bound * 10;
        i += 1;
    }
    Some(value)
}

/// Reads the half-move clock: a number up to 100 in one to three bytes.
pub fn half_move_clock(board: &mut Board, section: &[u8]) -> (read: FenResult)
    ensures
        final(board).bb_pieces == old(board).bb_pieces,
        final(board).bb_side == old(board).bb_side,
        final(board).state.active_side == old(board).state.active_side,
        final(board).state.castling == old(board).state.castling,
        final(board).state.en_passant == old(board).state.en_passant,
        final(board).state.full_move_number == old(board).state.full_move_number,
        final(board).state.material == old(board).state.material,
        match read {
            Ok(_) => half_move_of(section@) == Some(final(board).state.half_move_clock),
            Err(e) => e == FenError::HalfMoveClockSection && half_move_of(section@) is None
                && final(board).state.half_move_clock == old(board).state.half_move_clock,
        },
{
    if 1 <= section.len() && section.len() <= 3 {
        match read_number(section) {
            Some(x) => {
                if x <= MAX_MOVE_RULE as u32 {
                    board.state.half_move_clock = x as u8;
                    return Ok(());
                }
            },
            None => {},
        }
    }
    Err(FenError::HalfMoveClockSection)
}

/// Reads the full-move number: a number up to 2048 in one to four bytes.
pub fn full_move_number(board: &mut Board, section: &[u8]) -> (read: FenResult)
    ensures
        final(board).bb_pieces == old(board).bb_pieces,
        final(board).bb_side == old(board).bb_side,
        final(board).state.active_side == old(board).state.active_side,
        final(board).state.castling == old(board).state.castling,
        final(board).state.en_passant == old(board).state.en_passant,
        final(board).state.half_move_clock == old(board).state.half_move_clock,
        final(board).state.material == old(board).state.material,
        match read {
            Ok(_) => full_move_of(section@) == Some(final(board).state.full_move_number),
            Err(e) => e == FenError::FullMoveSection && full_move_of(section@) is None && final(board).state.full_move_number == old(board).state.full_move_number,
        },
{
    if 1 <= section.len() && section.len() <= 4 {
        match read_number(section) {
            Some(x) => {
                if x <= MAX_GAME_MOVES as u32 {
                    board.state.full_move_number = x as u16;
                    return Ok(());
                }
            },
            None => {},
        }
    }
    Err(FenError::FullMoveSection)
}

impl Board {
    /// Reads a position from its notation into the board, or the starting
    /// position where no notation is given. What the notation says is added
    /// to what the board holds (see [`fen_applied`]). Where the notation is
    /// not well formed, the error names the first section that is not, and
    /// the board is left as it was.
    pub fn fen_read(&mut self, fen_string: Option<&str>) -> (read: FenResult)
        requires
            fen_material_fits(*old(self), fen_bytes(fen_string)),
        ensures
            match read {
                Ok(_) => fen_error(fen_bytes(fen_string)) is None && fen_applied(
                    *old(self),
                    fen_bytes(fen_string),
                    *final(self),
                ),
                Err(e) => fen_error(fen_bytes(fen_string)) == Some(e) && *final(self) == *old(self),
            },
    {
        let fen_parts = match split_fen_string(fen_string) {
            Ok(parts) => parts,
            Err(e) => {
                return Err(e);
            },
        };
        let ghost parts = fen_sections(fen_bytes(fen_string));
        proof {
            assert(forall|k: int| 0 <= k < 6 ==> fen_parts@[k]@ == #[trigger] views(fen_parts@)[k]);
        }

        let mut new_board = Board {
            bb_pieces: self.bb_pieces,
            bb_side: self.bb_side,
            state: self.state,
        };

        match pieces(&mut new_board, fen_parts[0].as_slice()) {
            Ok(_) => {},
            Err(e) => {
                return Err(e);
            },
        }
        match color(&mut new_board, fen_parts[1].as_slice()) {
            Ok(_) => {},
            Err(e) => {
                return Err(e);
            },
        }
        match castling(&mut new_board, fen_parts[2].as_slice()) {
            Ok(_) => {},
            Err(e) => {
                return Err(e);
            },
        }
        match en_passant(&mut new_board, fen_parts[3].as_slice()) {
            Ok(_) => {},
            Err(e) => {
                return Err(e);
            },
        }
        match half_move_clock(&mut new_board, fen_parts[4].as_slice()) {
            Ok(_) => {},
            Err(e) => {
                return Err(e);
            },
        }
        match full_move_number(&mut new_board, fen_parts[5].as_slice()) {
            Ok(_) => {},
            Err(e) => {
                return Err(e);
            },
        }
        proof {
            assert(pieces_applied(*old(self), parts[0], new_board));
        }

        new_board.init();
        *self = new_board;

        Ok(())
    }
}

} // verus!
