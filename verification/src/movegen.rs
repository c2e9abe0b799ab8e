//! The move generator and its attack tables.

pub mod defs;
pub mod geometry;
pub mod init;
pub mod laws;
pub mod magics;
pub mod random;
pub mod reach;
pub mod rules;
pub mod subsets;

use vstd::prelude::*;
use crate::board::Board;
use crate::board::defs::{BitBoard, Castling, Piece, Pieces, Ranks, Side, Sides, Square, BB_RANKS};
use crate::movegen::defs::Move;
use crate::movegen::geometry::{
    king_attacks,
    knight_attacks,
    lemma_bishop_mask_suffices,
    lemma_rook_mask_suffices,
    lemma_union,
    pawn_attacks,
};
use crate::movegen::init::{all_magic, first_invalid};
use crate::movegen::magics::{
    lemma_hash_bound,
    magic_fits,
    sliders_fit,
    Magic,
    MagicError,
    PRECALC_BISHOP_MAGIC_NUMBERS,
    PRECALC_ROOK_MAGIC_NUMBERS,
};
use crate::movegen::reach::lemma_queen_union;
use crate::movegen::rules::{
    all_moves,
    attacked,
    board_ok,
    castling_moves,
    castling_to,
    is_castling,
    is_double_step,
    moves_from,
    moves_onto,
    moves_to,
    piece_attacks,
    piece_moves,
    promotes,
    targets_of,
    BLACK_KINGSIDE_PATH,
    BLACK_QUEENSIDE_PATH,
    WHITE_KINGSIDE_PATH,
    WHITE_QUEENSIDE_PATH,
};
use crate::movegen::subsets::is_subset;
use crate::utils::bits;
use crate::utils::bits::{lemma_squares_of_empty, squares_of};

verus! {

/// The kinds that a pawn can be promoted to, in the order in which the
/// promotions are generated.
pub const PROMOTION_PIECES: [usize; 4] = [1, 2, 3, 4];

/// The attack tables of every piece kind, and the generation of pseudo-legal
/// moves from them.
///
/// * `king`, `knight`: what the piece attacks from each square.
/// * `pawns`: what a pawn of each side attacks from each square.
/// * `rook`, `bishop`: the attack sets of the sliders, found by magic index.
/// * `rook_magics`, `bishop_magics`: the perfect hash of each square.
pub struct MoveGenerator {
    pub king: [BitBoard; 64],
    pub knight: [BitBoard; 64],
    pub pawns: [[BitBoard; 64]; 2],
    pub rook: Vec<BitBoard>,
    pub bishop: Vec<BitBoard>,
    pub rook_magics: [Magic; 64],
    pub bishop_magics: [Magic; 64],
}

impl MoveGenerator {
    /// Whether the tables of king, knight and pawns hold what each attacks.
    pub open spec fn leapers_ready(&self) -> bool {
        forall|sq: int|
            #![trigger self.king[sq]]
            #![trigger self.knight[sq]]
            #![trigger self.pawns[0][sq]]
            #![trigger self.pawns[1][sq]]
            0 <= sq < 64 ==> {
                &&& self.king[sq] == king_attacks(sq as u64)
                &&& self.knight[sq] == knight_attacks(sq as u64)
                &&& self.pawns[0][sq] == pawn_attacks(0, sq as u64)
                &&& self.pawns[1][sq] == pawn_attacks(1, sq as u64)
            }
    }

    /// Whether the tables of rook and bishop are attack tables with their
    /// perfect hashes.
    pub open spec fn sliders_ready(&self) -> bool {
        &&& sliders_fit(self.rook@, self.rook_magics, Pieces::ROOK)
        &&& sliders_fit(self.bishop@, self.bishop_magics, Pieces::BISHOP)
    }

    /// Whether every table is filled: what the generation of moves asks of
    /// the generator.
    pub open spec fn wf(&self) -> bool {
        self.leapers_ready() && self.sliders_ready()
    }

    /// A generator whose tables are all empty: no square is attacked from
    /// any square, the sliders' tables have no entry, and every descriptor
    /// is the default one.
    fn blank() -> (mg: Self)
        ensures
            forall|sq: int|
                #![trigger mg.king[sq]]
                #![trigger mg.knight[sq]]
                #![trigger mg.pawns[0][sq]]
                #![trigger mg.pawns[1][sq]]
                0 <= sq < 64 ==> {
                    &&& mg.king[sq] == 0
                    &&& mg.knight[sq] == 0
                    &&& mg.pawns[0][sq] == 0
                    &&& mg.pawns[1][sq] == 0
                },
            mg.rook@.len() == 0,
            mg.bishop@.len() == 0,
            forall|sq: int|
                #![trigger mg.rook_magics[sq]]
                #![trigger mg.bishop_magics[sq]]
                0 <= sq < 64 ==> {
                    &&& mg.rook_magics[sq].mask == 0
                    &&& mg.rook_magics[sq].shift == 0
                    &&& mg.rook_magics[sq].offset == 0
                    &&& mg.rook_magics[sq].number == 0
                    &&& mg.bishop_magics[sq].mask == 0
                    &&& mg.bishop_magics[sq].shift == 0
                    &&& mg.bishop_magics[sq].offset == 0
                    &&& mg.bishop_magics[sq].number == 0
                },
    {
        Self {
            king: [0; 64],
            knight: [0; 64],
            pawns: [[0; 64]; 2],
            rook: Vec::new(),
            bishop: Vec::new(),
            rook_magics: [Magic::default(); 64],
            bishop_magics: [Magic::default(); 64],
        }
    }

    /// A generator with the tables of every piece, the sliders' built with
    /// the magic numbers that this library carries. It comes out exactly if
    /// each of those numbers is a magic number.
    pub fn new() -> (made: Result<Self, MagicError>)
        ensures
            made is Ok <==> all_magic(PRECALC_ROOK_MAGIC_NUMBERS, PRECALC_BISHOP_MAGIC_NUMBERS),
            made is Ok ==> made->Ok_0.wf(),
            made is Err ==> first_invalid(
                PRECALC_ROOK_MAGIC_NUMBERS,
                PRECALC_BISHOP_MAGIC_NUMBERS,
                made->Err_0,
            ),
    {
        Self::with_magics(PRECALC_ROOK_MAGIC_NUMBERS, PRECALC_BISHOP_MAGIC_NUMBERS)
    }

    /// A generator with the tables of every piece, the sliders' built with
    /// the magic numbers given, one for each square and piece. It comes out
    /// exactly if each of them is a magic number for its square.
    pub fn with_magics(rook_magics: [u64; 64], bishop_magics: [u64; 64]) -> (made: Result<
        Self,
        MagicError,
    >)
        ensures
            made is Ok <==> all_magic(rook_magics, bishop_magics),
            match made {
                Ok(mg) => {
                    &&& mg.wf()
                    &&& forall|sq: int|
                        0 <= sq < 64 ==> (#[trigger] mg.rook_magics[sq]).number == rook_magics[sq]
                    &&& forall|sq: int|
                        0 <= sq < 64 ==> (#[trigger] mg.bishop_magics[sq]).number
                            == bishop_magics[sq]
                },
                Err(e) => first_invalid(rook_magics, bishop_magics, e),
            },
    {
        let mut mg = Self::blank();
        mg.init_king();
        mg.init_knight();
        mg.init_pawns();
        match mg.init_magics_with_precalc(rook_magics, bishop_magics) {
            Ok(_) => Ok(mg),
            Err(e) => Err(e),
        }
    }

    /// A generator with the tables of every piece, the sliders' built with
    /// magic numbers that a search finds anew (see
    /// [`find_magics`](crate::movegen::magics::find_magics)).
    pub fn new_find_magics(seed: Option<u64>, max_attempts: Option<u64>) -> (made: Result<
        Self,
        MagicError,
    >)
        ensures
            made is Ok ==> made->Ok_0.wf(),
            made is Err ==> !(made->Err_0 is InvalidMagic),
            made is Err && made->Err_0 is NoEntropy ==> seed is None,
    {
        let mut mg = Self::blank();
        mg.init_king();
        mg.init_knight();
        mg.init_pawns();
        match mg.init_magics(seed, max_attempts) {
            Ok(_) => Ok(mg),
            Err(e) => Err(e),
        }
    }
}

impl MoveGenerator {
    /// Appends all the pseudo-legal moves of the side to move.
    pub fn generate_moves(&self, board: &Board, move_list: &mut Vec<Move>)
        requires
            self.wf(),
            board_ok(*board),
        ensures
            final(move_list)@ == old(move_list)@ + all_moves(*board),
    {
        self.piece(board, Pieces::KING, move_list);
        self.piece(board, Pieces::KNIGHT, move_list);
        self.piece(board, Pieces::QUEEN, move_list);
        self.piece(board, Pieces::ROOK, move_list);
        self.piece(board, Pieces::BISHOP, move_list);
        self.pawns(board, move_list);
        self.castling(board, move_list);
        proof {
            assert(move_list@ =~= old(move_list)@ + all_moves(*board));
        }
    }

    /// Appends the pseudo-legal moves of all the pieces of one kind other
    /// than the pawn: to each square that the piece attacks and that its own
    /// side does not occupy.
    pub fn piece(&self, board: &Board, piece: Piece, list: &mut Vec<Move>)
        requires
            self.wf(),
            board_ok(*board),
            piece < 5,
        ensures
            final(list)@ == old(list)@ + piece_moves(*board, piece),
    {
        let player = board.current_side();
        let bb_occupied = board.bb_side[Sides::WHITE] | board.bb_side[Sides::BLACK];
        let bb_own_pieces = board.bb_side[player];

        let mut bb_pieces = board.bb_pieces[player][piece];
        let ghost all = squares_of(bb_pieces);

        while bb_pieces > 0
            invariant
                self.wf(),
                board_ok(*board),
                piece < 5,
                player == board.state.active_side,
                bb_occupied == board.bb_side[0] | board.bb_side[1],
                bb_own_pieces == board.bb_side[player as int],
                list@ + moves_from(*board, piece, squares_of(bb_pieces)) == old(list)@
                    + moves_from(*board, piece, all),
            decreases bb_pieces,
        {
            let ghost before = list@;
            let ghost froms = squares_of(bb_pieces);
            let from = bits::next(&mut bb_pieces);
            let bb_target = if piece == Pieces::KING || piece == Pieces::KNIGHT {
                self.get_non_slider_attacks(piece, from)
            } else {
                self.get_slider_attacks(piece, from, bb_occupied)
            };

            let bb_moves = bb_target & !bb_own_pieces;
            self.add_moves(board, piece, from, bb_moves, list);
            proof {
                assert(froms.drop_first() =~= squares_of(bb_pieces));
                assert(list@ + moves_from(*board, piece, squares_of(bb_pieces)) =~= before
                    + moves_from(*board, piece, froms));
            }
        }
        proof {
            lemma_squares_of_empty();
            assert(list@ + Seq::<Move>::empty() =~= list@);
        }
    }

    /// Appends the castling move to one wing, where the side to move may
    /// castle there.
    fn castle_wing(
        &self,
        board: &Board,
        right: u8,
        path: BitBoard,
        home: Square,
        crossed: Square,
        from: Square,
        to: BitBoard,
        list: &mut Vec<Move>,
    )
        requires
            self.wf(),
            board_ok(*board),
            home < 64,
            crossed < 64,
            from < 64,
        ensures
            final(list)@ == old(list)@ + castling_to(
                *board,
                right,
                path,
                home as u64,
                crossed as u64,
                from as u64,
                to,
            ),
    {
        let opponent = board.opponent();
        let bb_occupancy = board.bb_side[Sides::WHITE] | board.bb_side[Sides::BLACK];
        if board.state.castling & right > 0 {
            let is_blocked = (bb_occupancy & path) > 0;

            if !is_blocked && !self.square_attacked(board, opponent, crossed)
                && !self.square_attacked(board, opponent, home) {
                self.add_moves(board, Pieces::KING, from, to, list);
                return ;
            }
        }
        proof {
            assert(list@ + Seq::<Move>::empty() =~= list@);
        }
    }

    /// Appends the castling moves of the side to move, king side first: for
    /// each right that it still has, where no piece stands between king and
    /// rook and the opponent attacks neither the king's home square nor the
    /// square that the king crosses, the king's move two squares towards the
    /// rook. Without a king nothing is appended.
    pub fn castling(&self, board: &Board, list: &mut Vec<Move>)
        requires
            self.wf(),
            board_ok(*board),
        ensures
            final(list)@ == old(list)@ + castling_moves(*board),
    {
        let player = board.current_side();
        let mut bb_king = board.bb_pieces[player][Pieces::KING];

        // Without a king there is nothing to castle with.
        if bb_king == 0 {
            proof {
                assert(list@ + Seq::<Move>::empty() =~= list@);
            }
            return ;
        }
        let from = bits::next(&mut bb_king);
        let bb_from: u64 = 1u64 << from;

        if player == Sides::WHITE {
            self.castle_wing(
                board,
                Castling::WK,
                WHITE_KINGSIDE_PATH,
                4,
                5,
                from,
                bb_from << 2,
                list,
            );
            self.castle_wing(
                board,
                Castling::WQ,
                WHITE_QUEENSIDE_PATH,
                4,
                3,
                from,
                bb_from >> 2,
                list,
            );
        } else {
            self.castle_wing(
                board,
                Castling::BK,
                BLACK_KINGSIDE_PATH,
                60,
                61,
                from,
                bb_from << 2,
                list,
            );
            self.castle_wing(
                board,
                Castling::BQ,
                BLACK_QUEENSIDE_PATH,
                60,
                59,
                from,
                bb_from >> 2,
                list,
            );
        }
        proof {
            assert(list@ =~= old(list)@ + castling_moves(*board));
        }
    }

    /// Appends the pseudo-legal moves of the pawns: the single step, the
    /// double step, the captures and the capture en passant.
    pub fn pawns(&self, board: &Board, list: &mut Vec<Move>)
        requires
            self.wf(),
            board_ok(*board),
        ensures
            final(list)@ == old(list)@ + piece_moves(*board, Pieces::PAWN),
    {
        let player = board.current_side();
        let bb_opponent_pieces = board.bb_side[board.opponent()];
        let bb_empty = !(board.bb_side[Sides::WHITE] | board.bb_side[Sides::BLACK]);

        let mut bb_pawns = board.bb_pieces[player][Pieces::PAWN];
        let ghost all = squares_of(bb_pawns);

        while bb_pawns > 0
            invariant
                self.wf(),
                board_ok(*board),
                player == board.state.active_side,
                bb_opponent_pieces == board.bb_side[1 - player],
                bb_empty == !(board.bb_side[0] | board.bb_side[1]),
                list@ + moves_from(*board, Pieces::PAWN, squares_of(bb_pawns)) == old(list)@
                    + moves_from(*board, Pieces::PAWN, all),
            decreases bb_pawns,
        {
            let ghost before = list@;
            let ghost froms = squares_of(bb_pawns);
            let from = bits::next(&mut bb_pawns);

            // The steps ahead: none for a pawn that stands on the last rank.
            let bb_pushes: u64 = if player == Sides::WHITE {
                if from < 56 {
                    let bb_one_step = (1u64 << (from + 8)) & bb_empty;
                    bb_one_step | ((bb_one_step << 8) & bb_empty & BB_RANKS[Ranks::R4])
                } else {
                    0
                }
            } else {
                if from >= 8 {
                    let bb_one_step = (1u64 << (from - 8)) & bb_empty;
                    bb_one_step | ((bb_one_step >> 8) & bb_empty & BB_RANKS[Ranks::R5])
                } else {
                    0
                }
            };

            // The captures.
            let bb_targets = self.pawns[player][from];
            let bb_captures = bb_targets & bb_opponent_pieces;
            let bb_en_passant: u64 = match board.state.en_passant {
                Some(ep) => 1u64 << ep,
                None => 0,
            };
            let bb_ep_capture = bb_targets & bb_en_passant;

            let bb_moves = bb_pushes | (bb_captures | bb_ep_capture);

            self.add_moves(board, Pieces::PAWN, from, bb_moves, list);
            proof {
                assert(bb_moves == targets_of(*board, Pieces::PAWN, from as u64));
                assert(froms.drop_first() =~= squares_of(bb_pawns));
                assert(list@ + moves_from(*board, Pieces::PAWN, squares_of(bb_pawns)) =~= before
                    + moves_from(*board, Pieces::PAWN, froms));
            }
        }
        proof {
            lemma_squares_of_empty();
            assert(list@ + Seq::<Move>::empty() =~= list@);
        }
    }

    /// Appends the moves of `piece` from `from` to each square of `to`, from
    /// the lowest up: one move for each, or the four promotions where a pawn
    /// arrives on the last rank. A move has its en-passant flag set where a
    /// pawn goes to the en-passant square, its double-step flag where a pawn
    /// goes two ranks ahead, and its castling flag where the king goes two
    /// squares aside.
    pub fn add_moves(
        &self,
        board: &Board,
        piece: Piece,
        from: Square,
        to: BitBoard,
        move_list: &mut Vec<Move>,
    )
        requires
            board_ok(*board),
            piece < 6,
            from < 64,
        ensures
            final(move_list)@ == old(move_list)@ + moves_to(
                *board,
                piece,
                from as u64,
                squares_of(to),
            ),
    {
        let mut bb_to = to;

        let is_pawn = piece == Pieces::PAWN;
        let last_rank: usize = if board.current_side() == Sides::WHITE {
            Ranks::R8
        } else {
            Ranks::R1
        };

        while bb_to > 0
            invariant
                board_ok(*board),
                piece < 6,
                from < 64,
                is_pawn == (piece == Pieces::PAWN),
                last_rank == (if board.state.active_side == 0 {
                    7usize
                } else {
                    0usize
                }),
                move_list@ + moves_to(*board, piece, from as u64, squares_of(bb_to)) == old(
                    move_list,
                )@ + moves_to(*board, piece, from as u64, squares_of(to)),
            decreases bb_to,
        {
            let ghost before = move_list@;
            let ghost targets = squares_of(bb_to);
            let to_square = bits::next(&mut bb_to);
            let capture: Piece = 0;
            let en_passant = match board.state.en_passant {
                Some(square) => is_pawn && (square as usize == to_square),
                None => false,
            };
            let promotion = is_pawn && to_square / 8 == last_rank;
            let double_step = is_pawn && (to_square == from + 16 || from == to_square + 16);
            let castling = piece == Pieces::KING && (to_square == from + 2 || from == to_square
                + 2);

            if !promotion {
                move_list.push(
                    Move::encode(
                        piece,
                        from,
                        to_square,
                        capture,
                        0,
                        en_passant,
                        double_step,
                        castling,
                    ),
                );
            } else {
                let mut choice: usize = 0;
                while choice < 4
                    invariant
                        choice <= 4,
                        piece < 6,
                        from < 64,
                        to_square < 64,
                        capture == 0,
                        en_passant == (piece == Pieces::PAWN && board.state.en_passant == Some(
                            to_square as u8,
                        )),
                        double_step == is_double_step(
                            piece,
                            from as u64,
                            to_square as u64,
                        ),
                        castling == is_castling(
                            piece,
                            from as u64,
                            to_square as u64,
                        ),
                        promotes(*board, piece, to_square as u64),
                        move_list@ == before + moves_onto(
                            *board,
                            piece,
                            from as u64,
                            to_square as u64,
                        ).take(choice as int),
                    decreases 4 - choice,
                {
                    let ghost so_far = move_list@;
                    move_list.push(
                        Move::encode(
                            piece,
                            from,
                            to_square,
                            capture,
                            PROMOTION_PIECES[choice],
                            en_passant,
                            double_step,
                            castling,
                        ),
                    );
                    proof {
                        let onto = moves_onto(*board, piece, from as u64, to_square as u64);
                        assert(onto.take(choice as int + 1) =~= onto.take(choice as int).push(
                            onto[choice as int],
                        ));
                        assert(move_list@ =~= before + onto.take(choice as int + 1));
                    }
                    choice += 1;
                }
                proof {
                    let onto = moves_onto(*board, piece, from as u64, to_square as u64);
                    assert(onto.take(4) =~= onto);
                }
            }
            proof {
                let onto = moves_onto(*board, piece, from as u64, to_square as u64);
                assert(move_list@ =~= before + onto);
                assert(targets.drop_first() =~= squares_of(bb_to));
                assert(move_list@ + moves_to(*board, piece, from as u64, squares_of(bb_to))
                    =~= before + moves_to(*board, piece, from as u64, targets));
            }
        }
        proof {
            lemma_squares_of_empty();
            assert(move_list@ + Seq::<Move>::empty() =~= move_list@);
        }
    }

    /// What a king or a knight attacks from `square`.
    pub fn get_non_slider_attacks(&self, piece: Piece, square: Square) -> (attacks: BitBoard)
        requires
            self.leapers_ready(),
            piece == Pieces::KING || piece == Pieces::KNIGHT,
            square < 64,
        ensures
            attacks == piece_attacks(piece, square as u64, 0),
    {
        if piece == Pieces::KING {
            self.king[square]
        } else {
            self.knight[square]
        }
    }

    /// What a rook, a bishop or a queen attacks from `square` on a board with
    /// the given occupancy.
    pub fn get_slider_attacks(&self, piece: Piece, square: Square, occupancy: BitBoard) -> (attacks:
        BitBoard)
        requires
            self.sliders_ready(),
            piece == Pieces::ROOK || piece == Pieces::BISHOP || piece == Pieces::QUEEN,
            square < 64,
        ensures
            attacks == piece_attacks(piece, square as u64, occupancy),
    {
        proof {
            assert(self.rook@.len() == self.rook.len());
            assert(self.bishop@.len() == self.bishop.len());
            let rm = self.rook_magics[square as int];
            let bm = self.bishop_magics[square as int];
            assert(magic_fits(self.rook@, rm, Pieces::ROOK, square as u64));
            assert(magic_fits(self.bishop@, bm, Pieces::BISHOP, square as u64));
            lemma_hash_bound(rm, occupancy);
            lemma_hash_bound(bm, occupancy);
            lemma_union(occupancy, rm.mask, 0);
            lemma_union(occupancy, bm.mask, 0);
            assert(is_subset(occupancy & rm.mask, rm.mask));
            assert(is_subset(occupancy & bm.mask, bm.mask));
            assert(rm.index_of(occupancy & rm.mask) == rm.index_of(occupancy));
            assert(bm.index_of(occupancy & bm.mask) == bm.index_of(occupancy));
            lemma_rook_mask_suffices(square as u64, occupancy);
            lemma_bishop_mask_suffices(square as u64, occupancy);
            lemma_queen_union(occupancy, square as u64);
        }
        if piece == Pieces::ROOK {
            let index = self.rook_magics[square].get_index(occupancy);
            self.rook[index]
        } else if piece == Pieces::BISHOP {
            let index = self.bishop_magics[square].get_index(occupancy);
            self.bishop[index]
        } else {
            let r_index = self.rook_magics[square].get_index(occupancy);
            let b_index = self.bishop_magics[square].get_index(occupancy);
            self.rook[r_index] ^ self.bishop[b_index]
        }
    }

    /// Whether `attacker` attacks `square`. Looks from the square outwards:
    /// a piece of each kind is put on it in thought, and what it attacks
    /// from there is held against the attacker's pieces of that kind.
    pub fn square_attacked(&self, board: &Board, attacker: Side, square: Square) -> (is_attacked:
        bool)
        requires
            self.wf(),
            attacker < 2,
            square < 64,
        ensures
            is_attacked == attacked(*board, attacker as int, square as u64),
    {
        let attackers = board.bb_pieces[attacker];
        let bb_occupied = board.bb_side[Sides::WHITE] | board.bb_side[Sides::BLACK];

        let bb_king = self.get_non_slider_attacks(Pieces::KING, square);
        let bb_rook = self.get_slider_attacks(Pieces::ROOK, square, bb_occupied);
        let bb_bishop = self.get_slider_attacks(Pieces::BISHOP, square, bb_occupied);
        let bb_knight = self.get_non_slider_attacks(Pieces::KNIGHT, square);
        let bb_pawns = self.pawns[1 - attacker][square];
        let bb_queen = bb_rook | bb_bishop;

        (bb_king & attackers[Pieces::KING] > 0) || (bb_rook & attackers[Pieces::ROOK] > 0) || (
        bb_bishop & attackers[Pieces::BISHOP] > 0) || (bb_queen & attackers[Pieces::QUEEN] > 0) || (
        bb_knight & attackers[Pieces::KNIGHT] > 0) || (bb_pawns & attackers[Pieces::PAWN] > 0)
    }
}

} // verus!
