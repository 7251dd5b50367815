//! Ordering moves for the search: moves with weights handed out best first, and the killer
//! moves and history scores the search remembers.
use vstd::prelude::*;
use crate::moves::Move;
use crate::piece::{Piece, PieceType};
use crate::position::BoardPosition;
use crate::types::{Color, Square};

verus! {

/// The number of killer moves kept for each ply.
pub const NUM_KILLER_MOVES: usize = 3;

/// The number of plies killer moves are kept for.
pub const MAX_PLY: usize = 255;

/// A move with the weight it is ordered by.
#[derive(Clone, Copy, Debug, PartialEq, Eq, Structural)]
pub struct WeightedMove {
    pub move_: Move,
    pub weight: i64,
}

impl WeightedMove {
    pub fn new(move_: Move, weight: i64) -> (r: WeightedMove)
        ensures
            r.move_ == move_,
            r.weight == weight,
    {
        WeightedMove { move_, weight }
    }
}

/// The weights of `s` strictly decrease.
pub open spec fn strictly_decreasing(s: Seq<WeightedMove>) -> bool {
    forall|i: int, j: int| 0 <= i < j < s.len() ==> #[trigger] s[i].weight > #[trigger] s[j].weight
}

/// The weights of `s` never increase.
pub open spec fn non_increasing(s: Seq<WeightedMove>) -> bool {
    forall|i: int, j: int| 0 <= i < j < s.len() ==> #[trigger] s[i].weight >= #[trigger] s[j].weight
}

/// Each of the first `n` weights of `s` is at least every weight after it.
pub open spec fn best_first(s: Seq<WeightedMove>, n: int) -> bool {
    forall|i: int, j: int| 0 <= i < n && i < j < s.len() ==> #[trigger] s[i].weight >= #[trigger] s[j].weight
}

/// The index of the first move of greatest weight among those of `s` from `from` up to `to`.
pub open spec fn first_max(s: Seq<WeightedMove>, from: int, to: int) -> int
    decreases to - from,
{
    if to - from <= 1 {
        from
    } else {
        let m = first_max(s, from, to - 1);
        if s[to - 1].weight > s[m].weight { to - 1 } else { m }
    }
}

/// Moves with weights, handed out best first: a pass picks the heaviest remaining move each
/// time, unless the moves are known to be in order already.
#[derive(Clone, Debug)]
pub struct WeightedMoveListSorter {
    weighted_moves: Vec<WeightedMove>,
    len: usize,
    idx: usize,
    sorted: bool,
}

impl WeightedMoveListSorter {
    /// The moves, in their current order.
    pub closed spec fn items(self) -> Seq<WeightedMove> {
        self.weighted_moves@
    }

    /// How many moves this pass has handed out.
    pub closed spec fn at(self) -> int {
        self.idx as int
    }

    /// Are the moves known to be in order?
    pub closed spec fn is_sorted(self) -> bool {
        self.sorted
    }

    /// The moves handed out so far come first, each no lighter than any after it, and once
    /// the moves are known to be in order they are.
    pub closed spec fn inv(self) -> bool {
        &&& self.len == self.weighted_moves@.len()
        &&& self.idx <= self.len
        &&& best_first(self.weighted_moves@, self.idx as int)
        &&& self.sorted ==> non_increasing(self.weighted_moves@)
    }

    /// The moves of `moves`, in their order; known to be in order when their weights strictly
    /// decrease.
    pub fn from_moves(moves: Vec<WeightedMove>) -> (r: WeightedMoveListSorter)
        ensures
            r.inv(),
            r.items() == moves@,
            r.at() == 0,
            r.is_sorted() == strictly_decreasing(moves@),
    {
        let mut sorted = true;
        let mut k: usize = 0;
        while k < moves.len()
            invariant
                k <= moves.len(),
                sorted == strictly_decreasing(moves@.take(k as int)),
            decreases moves.len() - k,
        {
            if sorted && k > 0 {
                sorted = moves[k - 1].weight > moves[k].weight;
            }
            proof {
                let t = moves@.take(k as int + 1);
                if strictly_decreasing(moves@.take(k as int)) && (k == 0 || moves@[k - 1].weight > moves@[k as int].weight) {
                    assert forall|i: int, j: int| 0 <= i < j < t.len() implies #[trigger] t[i].weight > #[trigger] t[j].weight by {
                        if j < k {
                            assert(moves@.take(k as int)[i] == t[i]);
                            assert(moves@.take(k as int)[j] == t[j]);
                        } else if i < k - 1 {
                            assert(moves@.take(k as int)[i] == t[i]);
                            assert(moves@.take(k as int)[k - 1] == t[k - 1]);
                        }
                    }
                }
                if !strictly_decreasing(moves@.take(k as int)) {
                    let (i, j) = choose|i: int, j: int| 0 <= i < j < k && !(moves@.take(k as int)[i].weight > moves@.take(k as int)[j].weight);
                    assert(t[i] == moves@.take(k as int)[i]);
                    assert(t[j] == moves@.take(k as int)[j]);
                }
                if k > 0 && !(moves@[k - 1].weight > moves@[k as int].weight) {
                    assert(t[k - 1] == moves@[k - 1]);
                    assert(t[k as int] == moves@[k as int]);
                }
            }
            k = k + 1;
        }
        proof {
            assert(moves@.take(moves.len() as int) =~= moves@);
        }
        let len = moves.len();
        WeightedMoveListSorter { weighted_moves: moves, len, idx: 0, sorted }
    }

    pub fn len(&self) -> (r: usize)
        requires
            self.inv(),
        ensures
            r == self.items().len(),
    {
        self.len
    }

    pub fn is_empty(&self) -> (r: bool)
        requires
            self.inv(),
        ensures
            r == (self.items().len() == 0),
    {
        self.len == 0
    }

    /// The moves, in their current order.
    pub fn get_weighted_moves(&self) -> (r: &Vec<WeightedMove>)
        ensures
            r@ == self.items(),
    {
        &self.weighted_moves
    }

    /// The heaviest move not yet handed out in this pass (the first of them when several are
    /// equally heavy), moved to the front of the rest; at the end of a pass, nothing, and the
    /// next pass starts with the moves known to be in order.
    pub fn next(&mut self) -> (r: Option<WeightedMove>)
        requires
            old(self).inv(),
        ensures
            final(self).inv(),
            old(self).at() == old(self).items().len() ==> r is None && final(self).at() == 0 && final(self).is_sorted()
                && final(self).items() == old(self).items(),
            old(self).at() < old(self).items().len() ==> {
                let i = old(self).at();
                let m = if old(self).is_sorted() { i } else { first_max(old(self).items(), i, old(self).items().len() as int) };
                &&& final(self).items() == old(self).items().update(i, old(self).items()[m]).update(m, old(self).items()[i])
                &&& r == Some(old(self).items()[m])
                &&& final(self).at() == i + 1
                &&& final(self).is_sorted() == old(self).is_sorted()
                &&& forall|j: int| i <= j < old(self).items().len() ==> old(self).items()[m].weight >= #[trigger] old(self).items()[j].weight
            },
    {
        if self.idx == self.len {
            self.idx = 0;
            self.sorted = true;
            proof {
                assert(best_first(self.weighted_moves@, old(self).idx as int));
                assert forall|i: int, j: int| 0 <= i < j < self.weighted_moves@.len() implies #[trigger] self.weighted_moves@[i].weight
                    >= #[trigger] self.weighted_moves@[j].weight by {}
            }
            return None;
        }
        if self.sorted {
            let best = self.weighted_moves[self.idx];
            proof {
                let s = self.weighted_moves@;
                assert(s.update(self.idx as int, s[self.idx as int]).update(self.idx as int, s[self.idx as int]) =~= s);
            }
            self.idx = self.idx + 1;
            return Some(best);
        }
        let ghost s = self.weighted_moves@;
        let ghost i = self.idx as int;
        let mut max_weight = self.weighted_moves[self.idx].weight;
        let mut max_idx = self.idx;
        let mut k = self.idx + 1;
        while k < self.len
            invariant
                self.len == s.len(),
                self.weighted_moves@ == s,
                i < k <= s.len(),
                max_idx == first_max(s, i, k as int),
                i <= max_idx < k,
                max_weight == s[max_idx as int].weight,
                forall|j: int| i <= j < k ==> s[max_idx as int].weight >= #[trigger] s[j].weight,
            decreases self.len - k,
        {
            let w = self.weighted_moves[k].weight;
            if w > max_weight {
                max_idx = k;
                max_weight = w;
            }
            k = k + 1;
        }
        let a = self.weighted_moves[self.idx];
        let b = self.weighted_moves[max_idx];
        self.weighted_moves.set(self.idx, b);
        self.weighted_moves.set(max_idx, a);
        proof {
            let t = self.weighted_moves@;
            assert(t =~= s.update(i, s[max_idx as int]).update(max_idx as int, s[i]));
            assert forall|p: int, q: int| 0 <= p < i + 1 && p < q < t.len() implies #[trigger] t[p].weight >= #[trigger] t[q].weight by {
                if p < i {
                    assert(t[p] == s[p]);
                    if q == max_idx {
                        assert(t[q] == s[i]);
                    } else if q == i {
                        assert(t[q] == s[max_idx as int]);
                    } else {
                        assert(t[q] == s[q]);
                    }
                } else {
                    assert(t[p] == s[max_idx as int]);
                    if q == max_idx {
                        assert(t[q] == s[i]);
                    } else {
                        assert(t[q] == s[q]);
                    }
                }
            }
        }
        let best = self.weighted_moves[self.idx];
        self.idx = self.idx + 1;
        Some(best)
    }
}

/// The slot of a piece in the history table: White's pawn to king, then Black's.
pub open spec fn piece_slot(p: Piece) -> int {
    (if p.color == Color::White { 0int } else { 6 }) + p.type_.index()
}

/// The killer moves of `ply` after `m` is remembered: `m` first, then the earlier ones, the
/// oldest dropped.
pub open spec fn killers_after(k: Seq<Option<Move>>, m: Move) -> Seq<Option<Move>> {
    seq![Some(m), k[0], k[1]]
}

/// What the search remembers to order moves by: the killer moves of each ply, the history
/// score of each piece and destination, and whether it is following the principal variation.
#[derive(Clone, Debug)]
pub struct MoveSorter {
    killer_moves: Vec<Vec<Option<Move>>>,
    history_move_scores: Vec<Vec<i64>>,
    follow_pv_: bool,
    score_pv: bool,
}

impl MoveSorter {
    /// The killer moves of ply `ply`, newest first.
    pub closed spec fn killers(self, ply: int) -> Seq<Option<Move>> {
        self.killer_moves@[ply]@
    }

    /// The history score of piece slot `slot` moving to square `dest`.
    pub closed spec fn history(self, slot: int, dest: int) -> i64 {
        self.history_move_scores@[slot]@[dest]
    }

    /// Is the search following the principal variation?
    pub closed spec fn following_pv(self) -> bool {
        self.follow_pv_
    }

    /// Is the principal-variation move still to be scored first?
    pub closed spec fn scoring_pv(self) -> bool {
        self.score_pv
    }

    /// The tables have their sizes: three killer moves for each of the plies, and a score for
    /// each of the twelve pieces and 64 squares.
    pub closed spec fn wf(self) -> bool {
        &&& self.killer_moves@.len() == MAX_PLY
        &&& forall|p: int| 0 <= p < MAX_PLY ==> (#[trigger] self.killer_moves@[p])@.len() == NUM_KILLER_MOVES
        &&& self.history_move_scores@.len() == 12
        &&& forall|q: int| 0 <= q < 12 ==> (#[trigger] self.history_move_scores@[q])@.len() == 64
    }

    /// A well-formed sorter keeps three killer moves for each ply below `MAX_PLY`.
    pub proof fn lemma_killers_len(self, ply: int)
        requires
            self.wf(),
            0 <= ply < MAX_PLY,
        ensures
            self.killers(ply).len() == NUM_KILLER_MOVES,
    {
        assert(self.killer_moves@[ply]@.len() == NUM_KILLER_MOVES);
    }

    /// Empty tables, not following the principal variation.
    pub fn new() -> (r: MoveSorter)
        ensures
            r.wf(),
            forall|p: int, k: int| 0 <= p < MAX_PLY && 0 <= k < NUM_KILLER_MOVES ==> #[trigger] r.killers(p)[k] is None,
            forall|q: int, d: int| 0 <= q < 12 && 0 <= d < 64 ==> #[trigger] r.history(q, d) == 0,
            !r.following_pv(),
            !r.scoring_pv(),
    {
        let mut killer_moves: Vec<Vec<Option<Move>>> = Vec::new();
        let mut p: usize = 0;
        while p < MAX_PLY
            invariant
                p <= MAX_PLY,
                killer_moves@.len() == p,
                forall|i: int| 0 <= i < p ==> (#[trigger] killer_moves@[i])@ == seq![None::<Move>, None, None],
            decreases MAX_PLY - p,
        {
            killer_moves.push(vec![None, None, None]);
            p = p + 1;
        }
        let mut history_move_scores: Vec<Vec<i64>> = Vec::new();
        let mut q: usize = 0;
        while q < 12
            invariant
                q <= 12,
                history_move_scores@.len() == q,
                forall|i: int| 0 <= i < q ==> (#[trigger] history_move_scores@[i])@.len() == 64,
                forall|i: int, d: int| 0 <= i < q && 0 <= d < 64 ==> #[trigger] history_move_scores@[i]@[d] == 0,
            decreases 12 - q,
        {
            let mut row: Vec<i64> = Vec::new();
            let mut d: usize = 0;
            while d < 64
                invariant
                    d <= 64,
                    row@.len() == d,
                    forall|j: int| 0 <= j < d ==> #[trigger] row@[j] == 0,
                decreases 64 - d,
            {
                row.push(0);
                d = d + 1;
            }
            history_move_scores.push(row);
            q = q + 1;
        }
        MoveSorter { killer_moves, history_move_scores, follow_pv_: false, score_pv: false }
    }

    /// Forget the killer moves and history scores, and stop following the principal variation.
    pub fn reset_variables(&mut self)
        ensures
            final(self).wf(),
            forall|p: int, k: int| 0 <= p < MAX_PLY && 0 <= k < NUM_KILLER_MOVES ==> #[trigger] final(self).killers(p)[k] is None,
            forall|q: int, d: int| 0 <= q < 12 && 0 <= d < 64 ==> #[trigger] final(self).history(q, d) == 0,
            !final(self).following_pv(),
            !final(self).scoring_pv(),
    {
        *self = MoveSorter::new();
    }

    /// Remember `killer_move` as the newest killer move of `ply`.
    pub fn update_killer_moves(&mut self, killer_move: Move, ply: usize)
        requires
            old(self).wf(),
            ply < MAX_PLY,
        ensures
            final(self).wf(),
            final(self).killers(ply as int) == killers_after(old(self).killers(ply as int), killer_move),
            forall|p: int| 0 <= p < MAX_PLY && p != ply ==> #[trigger] final(self).killers(p) == old(self).killers(p),
            forall|q: int, d: int| #[trigger] final(self).history(q, d) == old(self).history(q, d),
            final(self).following_pv() == old(self).following_pv(),
            final(self).scoring_pv() == old(self).scoring_pv(),
    {
        let old_row = &self.killer_moves[ply];
        let row = vec![Some(killer_move), old_row[0], old_row[1]];
        self.killer_moves.set(ply, row);
    }

    /// Is `move_` one of the killer moves of `ply`?
    pub fn is_killer_move(&self, move_: Move, ply: usize) -> (r: bool)
        requires
            self.wf(),
            ply < MAX_PLY,
        ensures
            r == self.killers(ply as int).contains(Some(move_)),
    {
        let row = &self.killer_moves[ply];
        let mut k: usize = 0;
        while k < row.len()
            invariant
                k <= row@.len(),
                row@ == self.killers(ply as int),
                forall|j: int| 0 <= j < k ==> #[trigger] row@[j] != Some(move_),
            decreases row.len() - k,
        {
            if row[k] == Some(move_) {
                proof {
                    assert(row@[k as int] == Some(move_));
                }
                return true;
            }
            k = k + 1;
        }
        false
    }

    /// Add the square of `depth` to the history score of the piece that makes `history_move`
    /// in `position`, for its destination.
    pub fn add_history_move(&mut self, history_move: Move, position: &BoardPosition, depth: i8)
        requires
            old(self).wf(),
            position.piece_at(history_move.source.index()) is Some,
            ({
                let p = position.piece_at(history_move.source.index())->0;
                old(self).history(piece_slot(p), history_move.dest.index()) + depth * depth <= i64::MAX
            }),
        ensures
            final(self).wf(),
            ({
                let slot = piece_slot(position.piece_at(history_move.source.index())->0);
                let d = history_move.dest.index();
                &&& final(self).history(slot, d) == old(self).history(slot, d) + depth * depth
                &&& forall|q: int, e: int| 0 <= q < 12 && 0 <= e < 64 && (q != slot || e != d) ==> #[trigger] final(self).history(q, e)
                    == old(self).history(q, e)
            }),
            forall|p: int| #[trigger] final(self).killers(p) == old(self).killers(p),
            final(self).following_pv() == old(self).following_pv(),
            final(self).scoring_pv() == old(self).scoring_pv(),
    {
        let piece = match position.get_piece_at(history_move.get_source()) {
            Some(p) => p,
            None => Piece { type_: PieceType::Pawn, color: Color::White },
        };
        let slot = piece_slot_index(piece);
        let dest = history_move.get_dest().to_index();
        let d = depth as i64;
        assert(0 <= d * d <= 16384) by (nonlinear_arith)
            requires
                -128 <= d <= 127,
        ;
        let mut row = self.history_move_scores[slot].clone();
        proof {
            assert(row@ == self.history_move_scores@[slot as int]@);
        }
        let v = row[dest] + d * d;
        row.set(dest, v);
        self.history_move_scores.set(slot, row);
    }

    /// The history score of the piece that makes `history_move` in `position`, for its
    /// destination.
    pub fn get_history_score(&self, history_move: Move, position: &BoardPosition) -> (r: i64)
        requires
            self.wf(),
            position.piece_at(history_move.source.index()) is Some,
        ensures
            r == self.history(piece_slot(position.piece_at(history_move.source.index())->0), history_move.dest.index()),
    {
        let piece = match position.get_piece_at(history_move.get_source()) {
            Some(p) => p,
            None => Piece { type_: PieceType::Pawn, color: Color::White },
        };
        self.history_move_scores[piece_slot_index(piece)][history_move.get_dest().to_index()]
    }

    /// Start following the principal variation.
    pub fn follow_pv(&mut self)
        ensures
            final(self).following_pv(),
            final(self).scoring_pv() == old(self).scoring_pv(),
            forall|p: int| #[trigger] final(self).killers(p) == old(self).killers(p),
            forall|q: int, e: int| #[trigger] final(self).history(q, e) == old(self).history(q, e),
            old(self).wf() ==> final(self).wf(),
    {
        self.follow_pv_ = true;
    }

    pub fn is_following_pv(&self) -> (r: bool)
        ensures
            r == self.following_pv(),
    {
        self.follow_pv_
    }
}

/// The slot of `p` in the history table (see `piece_slot`).
fn piece_slot_index(p: Piece) -> (r: usize)
    ensures
        r == piece_slot(p),
        r < 12,
{
    (if p.color == Color::White { 0 } else { 6 }) + p.type_.to_index()
}

} // verus!
