//! The move generator of the search-tree board: one destination mask, and removals that leave
//! the groups where they are.
use vstd::prelude::*;
use crate::attacks::fl;
use crate::bitboard::BitBoard;
use crate::bits::popcount;
use crate::move_generator::{len_upto, lowest_bit, reorganized, without_mask, MoveGenerator};
use crate::move_list::SquareAndBitBoard;
use crate::moves::Move;
use crate::piece::PieceType;
use crate::sub_board::SubBoard;

verus! {

/// A generator of the legal moves of a board, by source square.
pub struct MoveGen {
    pub generator: MoveGenerator,
}

impl MoveGen {
    /// A generator of all the legal moves of `board`.
    pub fn new_legal(board: &SubBoard) -> (r: MoveGen)
        requires
            board.position.wf(),
            popcount(board.position.color_mask(board.position.turn_)) <= 16,
        ensures
            r.generator.gen_wf(),
            r.generator.items() == board.position.all_entries(),
            r.generator.promotion_at() == 0,
            r.generator.from_mask() == u64::MAX,
            r.generator.to_mask() == u64::MAX,
            r.generator.at() == 0,
            r.generator.last_at() == usize::MAX,
    {
        MoveGen { generator: MoveGenerator::new_legal(&board.position) }
    }

    /// Take the squares of `mask` out of every group.
    pub fn remove_mask(&mut self, mask: BitBoard)
        requires
            old(self).generator.gen_wf(),
        ensures
            final(self).generator.gen_wf(),
            final(self).generator.items() == without_mask(old(self).generator.items(), mask.0),
            final(self).generator.from_mask() == old(self).generator.from_mask(),
            final(self).generator.to_mask() == old(self).generator.to_mask(),
            final(self).generator.promotion_at() == old(self).generator.promotion_at(),
            final(self).generator.at() == old(self).generator.at(),
            final(self).generator.last_at() == old(self).generator.last_at(),
    {
        self.generator.clear_mask(mask);
    }

    /// Take the destination of `chess_move` out of the first group of its source, if there
    /// is one, and say whether there was.
    pub fn remove_move(&mut self, chess_move: Move) -> (r: bool)
        requires
            old(self).generator.gen_wf(),
        ensures
            final(self).generator.gen_wf(),
            r == exists|k: int| 0 <= k < old(self).generator.items().len() && (#[trigger] old(self).generator.items()[k]).square
                == chess_move.source,
            r ==> exists|j: int| {
                &&& 0 <= j < old(self).generator.items().len()
                &&& (#[trigger] old(self).generator.items()[j]).square == chess_move.source
                &&& forall|k: int| 0 <= k < j ==> (#[trigger] old(self).generator.items()[k]).square != chess_move.source
                &&& final(self).generator.items() == old(self).generator.items().update(
                    j,
                    SquareAndBitBoard {
                        bitboard: BitBoard(old(self).generator.items()[j].bitboard.0 & !(1u64 << (chess_move.dest.index() as u64))),
                        ..old(self).generator.items()[j]
                    },
                )
            },
            !r ==> final(self).generator.items() == old(self).generator.items(),
            final(self).generator.from_mask() == old(self).generator.from_mask(),
            final(self).generator.to_mask() == old(self).generator.to_mask(),
            final(self).generator.promotion_at() == old(self).generator.promotion_at(),
            final(self).generator.at() == old(self).generator.at(),
            final(self).generator.last_at() == old(self).generator.last_at(),
    {
        self.generator.clear_move(chess_move)
    }

    /// Yield only moves to the squares of `mask`, moving the groups with such a destination to
    /// the front and restarting the iteration.
    pub fn set_iterator_mask(&mut self, mask: BitBoard)
        requires
            old(self).generator.gen_wf(),
        ensures
            final(self).generator.gen_wf(),
            final(self).generator.from_mask() == old(self).generator.from_mask(),
            final(self).generator.to_mask() == mask.0,
            reorganized(old(self).generator.items(), final(self).generator.items(), mask.0),
            final(self).generator.promotion_at() == old(self).generator.promotion_at(),
            final(self).generator.at() == 0,
            final(self).generator.last_at() == usize::MAX,
    {
        self.generator.set_to_bitboard_iterator_mask(mask);
    }

    /// The number of moves a walk over the groups yields (see `MoveGenerator::len`).
    pub fn len(&self) -> (r: usize)
        requires
            self.generator.gen_wf(),
        ensures
            r == len_upto(
                self.generator.items(),
                self.generator.from_mask(),
                self.generator.to_mask(),
                self.generator.items().len() as int,
            ).0,
    {
        self.generator.len()
    }

    /// The next move, if any.
    pub fn next(&mut self) -> (r: Option<Move>)
        requires
            old(self).generator.gen_wf(),
            old(self).generator.at() < usize::MAX,
        ensures
            final(self).generator.gen_wf(),
            old(self).generator.next_step(final(self).generator, r),
    {
        self.generator.next()
    }

    /// Whether `chess_move`, one of the moves generated for `board`, is legal, rechecking only
    /// en passant captures and the squares a king goes to and passes.
    pub fn legal_quick(board: &SubBoard, chess_move: Move) -> (r: bool)
        requires
            board.position.wf(),
            board.position.type_on(chess_move.source.index()) is Some,
        ensures
            r == match board.position.type_on(chess_move.source.index()).unwrap() {
                PieceType::Pawn => if fl(chess_move.source.index()) != fl(chess_move.dest.index()) && board.position.type_on(
                    chess_move.dest.index(),
                ) is None {
                    board.position.ep_legal(Move { source: chess_move.source, dest: chess_move.dest, promotion: None })
                } else {
                    true
                },
                PieceType::King => if popcount(board.position.between_mask(chess_move)) == 1 {
                    board.position.king_move_safe(lowest_bit(board.position.between_mask(chess_move)))
                        && board.position.king_move_safe(chess_move.dest.index())
                } else {
                    board.position.king_move_safe(chess_move.dest.index())
                },
                _ => true,
            },
    {
        MoveGenerator::is_legal_quick(&board.position, chess_move)
    }

    /// The number of move sequences of `depth` legal moves from `board`.
    pub fn perft_test(board: &SubBoard, depth: usize) -> (r: usize)
        requires
            depth >= 1,
            board.position.perft_ok(depth as int),
            board.position.perft_spec(depth as nat) <= usize::MAX,
        ensures
            r == board.position.perft_spec(depth as nat),
    {
        MoveGenerator::perft_test(&board.position, depth)
    }
}

} // verus!
