//! Counting the leaves of the tree of legal moves to a given depth.
use vstd::prelude::*;
use crate::bits::{bit, count_bits, group_bit_facts, lemma_count_bits_add, lemma_count_bits_subset, lemma_mask_of, mask_of, popcount};
use crate::move_generator::{dest_moves, entry_moves, iter_upto, len_upto, lists, MoveGenerator};
use crate::move_list::SquareAndBitBoard;
use crate::moves::Move;
use crate::piece::{Piece, PieceType};
use crate::position::{lemma_piece_at_facts, BoardPosition};
use crate::types::{group_square_facts, square_at, Color, Square};

verus! {

broadcast use group_bit_facts, group_square_facts;

/// Moving one set bit from `s` to `t` keeps the number of set bits.
pub proof fn lemma_count_move(x: u64, y: u64, s: int, t: int)
    requires
        0 <= s < 64,
        0 <= t < 64,
        s != t,
        bit(x, s),
        !bit(x, t),
        !bit(y, s),
        bit(y, t),
        forall|i: int| i != s && i != t ==> bit(x, i) == bit(y, i),
    ensures
        popcount(x) == popcount(y),
{
    let z = mask_of(|i: int| bit(x, i) || i == t, 64);
    lemma_mask_of(|i: int| bit(x, i) || i == t, 64);
    lemma_count_bits_add(x, z, t, 64);
    lemma_count_bits_add(y, z, s, 64);
}

impl BoardPosition {
    /// The squares of the pieces of `c` after `m`, as a mask.
    pub open spec fn moved_color_mask(self, m: Move, c: Color) -> u64 {
        mask_of(|i: int| self.moved_piece_at(m, i) matches Some(p) && p.color == c, 64)
    }

    /// The squares of the kings of `c` after `m`, as a mask.
    pub open spec fn moved_king_mask(self, m: Move, c: Color) -> u64 {
        mask_of(|i: int| self.moved_piece_at(m, i) == Some(Piece { type_: PieceType::King, color: c }), 64)
    }

    /// Making a move keeps the number of pieces of the mover, does not add pieces of the other
    /// side, and keeps the number of kings of each side when it promotes to no king.
    pub proof fn lemma_move_counts(self, m: Move)
        requires
            self.wf(),
            self.move_fits(m),
            m.promotion != Some(PieceType::King),
        ensures
            popcount(self.moved_color_mask(m, self.turn_)) == popcount(self.color_mask(self.turn_)),
            popcount(self.moved_color_mask(m, self.turn_.other())) <= popcount(self.color_mask(self.turn_.other())),
            popcount(self.moved_king_mask(m, self.turn_)) == popcount(self.kings.0 & self.color_mask(self.turn_)),
    {
        let us = self.turn_;
        let them = us.other();
        let src = m.source.index();
        let dst = m.dest.index();
        lemma_mask_of(|i: int| self.moved_piece_at(m, i) matches Some(p) && p.color == us, 64);
        lemma_mask_of(|i: int| self.moved_piece_at(m, i) matches Some(p) && p.color == them, 64);
        lemma_mask_of(|i: int| self.moved_piece_at(m, i) == Some(Piece { type_: PieceType::King, color: us }), 64);
        lemma_piece_at_facts(self, src);
        lemma_piece_at_facts(self, dst);
        assert forall|i: int| #[trigger] bit(self.moved_color_mask(m, them), i) implies bit(self.color_mask(them), i) by {
            lemma_piece_at_facts(self, i);
        }
        lemma_count_bits_subset(self.moved_color_mask(m, them), self.color_mask(them), 64);
        // The mover's pieces: the moving piece goes from `src` to `dst`, and a castling rook
        // from its corner to its square beside the king.
        let mid = mask_of(|i: int| if i == src { false } else if i == dst { true } else { bit(self.color_mask(us), i) }, 64);
        lemma_mask_of(|i: int| if i == src { false } else if i == dst { true } else { bit(self.color_mask(us), i) }, 64);
        lemma_count_move(self.color_mask(us), mid, src, dst);
        if self.castles_spec(m) {
            let f = self.castle_rook_from(m);
            let t = self.castle_rook_to(m);
            lemma_piece_at_facts(self, f);
            lemma_piece_at_facts(self, t);
            assert forall|i: int| i != f && i != t implies bit(mid, i) == bit(self.moved_color_mask(m, us), i) by {
                lemma_piece_at_facts(self, i);
            }
            lemma_count_move(mid, self.moved_color_mask(m, us), f, t);
        } else {
            assert forall|i: int| #[trigger] bit(mid, i) == bit(self.moved_color_mask(m, us), i) by {
                lemma_piece_at_facts(self, i);
                if self.ep_capture_spec(m) {
                    lemma_piece_at_facts(self, self.ep_victim(m));
                }
            }
            crate::bits::lemma_eq_iff_bits(mid, self.moved_color_mask(m, us));
        }
        // The mover's kings: only a king move moves one.
        assert forall|i: int| #[trigger] bit(self.kings.0 & self.color_mask(us), i) == (self.piece_at(i) == Some(Piece { type_: PieceType::King, color: us })) by {
            crate::position_move::lemma_king_bits(self, us, i);
        }
        if self.moved_type(m) == PieceType::King {
            assert forall|i: int| i != src && i != dst implies bit(self.kings.0 & self.color_mask(us), i) == bit(self.moved_king_mask(m, us), i) by {
                lemma_piece_at_facts(self, i);
                if self.castles_spec(m) {
                    lemma_piece_at_facts(self, self.castle_rook_from(m));
                    lemma_piece_at_facts(self, self.castle_rook_to(m));
                }
            }
            lemma_count_move(self.kings.0 & self.color_mask(us), self.moved_king_mask(m, us), src, dst);
        } else {
            assert forall|i: int| #[trigger] bit(self.kings.0 & self.color_mask(us), i) == bit(self.moved_king_mask(m, us), i) by {
                lemma_piece_at_facts(self, i);
                if self.ep_capture_spec(m) {
                    lemma_piece_at_facts(self, self.ep_victim(m));
                }
            }
            crate::bits::lemma_eq_iff_bits(self.kings.0 & self.color_mask(us), self.moved_king_mask(m, us));
        }
    }
}

/// The moves of `dest_moves` go from `sq` to squares of `x`, with `promotion`.
proof fn lemma_dest_moves_contains(sq: Square, x: u64, promotion: Option<PieceType>, n: int, m: Move)
    requires
        dest_moves(sq, x, promotion, n).contains(m),
    ensures
        m.source == sq,
        bit(x, m.dest.index()),
        m.promotion == promotion,
    decreases n,
{
    broadcast use vstd::seq_lib::lemma_seq_contains_after_push;
    if n > 0 {
        if bit(x, n - 1) {
            if m != (Move { source: sq, dest: square_at(n - 1), promotion }) {
                lemma_dest_moves_contains(sq, x, promotion, n - 1, m);
            }
        } else {
            lemma_dest_moves_contains(sq, x, promotion, n - 1, m);
        }
    }
}

/// A move of `entry_moves(e, all)` is listed by `e`.
pub(crate) proof fn lemma_entry_moves_listed(e: SquareAndBitBoard, m: Move)
    requires
        entry_moves(e, u64::MAX).contains(m),
    ensures
        lists(e, m),
{
    broadcast use vstd::seq_lib::lemma_seq_concat_contains_all_elements;
    let y = e.bitboard.0;
    let x = y & u64::MAX;
    assert(x == y) by (bit_vector)
        requires
            x == y & u64::MAX,
    ;
    if e.promotion {
        let a = dest_moves(e.square, x, Some(crate::move_generator::promotion_piece(0)), 64);
        let b = dest_moves(e.square, x, Some(crate::move_generator::promotion_piece(1)), 64);
        let c = dest_moves(e.square, x, Some(crate::move_generator::promotion_piece(2)), 64);
        let d = dest_moves(e.square, x, Some(crate::move_generator::promotion_piece(3)), 64);
        if a.contains(m) {
            lemma_dest_moves_contains(e.square, x, Some(crate::move_generator::promotion_piece(0)), 64, m);
        } else if b.contains(m) {
            lemma_dest_moves_contains(e.square, x, Some(crate::move_generator::promotion_piece(1)), 64, m);
        } else if c.contains(m) {
            lemma_dest_moves_contains(e.square, x, Some(crate::move_generator::promotion_piece(2)), 64, m);
        } else {
            lemma_dest_moves_contains(e.square, x, Some(crate::move_generator::promotion_piece(3)), 64, m);
        }
    } else {
        lemma_dest_moves_contains(e.square, x, None, 64, m);
    }
}

/// With all sources and destinations selected, each move the groups yield is listed by one of
/// them.
pub(crate) proof fn lemma_iter_listed(items: Seq<SquareAndBitBoard>, n: int, m: Move)
    requires
        0 <= n <= items.len(),
        iter_upto(items, u64::MAX, u64::MAX, n).0.contains(m),
    ensures
        exists|k: int| 0 <= k < n && lists(#[trigger] items[k], m),
    decreases n,
{
    broadcast use vstd::seq_lib::lemma_seq_concat_contains_all_elements;
    if n > 0 {
        let (ms, stopped) = iter_upto(items, u64::MAX, u64::MAX, n - 1);
        let e = items[n - 1];
        if !stopped && bit(u64::MAX, e.square.index()) && crate::move_generator::selected(e, u64::MAX) {
            if ms.contains(m) {
                lemma_iter_listed(items, n - 1, m);
                let k = choose|k: int| 0 <= k < n - 1 && lists(#[trigger] items[k], m);
                assert(lists(items[k], m));
            } else {
                lemma_entry_moves_listed(e, m);
                assert(lists(items[n - 1], m));
            }
        } else {
            lemma_iter_listed(items, n - 1, m);
            let k = choose|k: int| 0 <= k < n - 1 && lists(#[trigger] items[k], m);
            assert(lists(items[k], m));
        }
    }
}


/// A destination of `x` gives its move in `dest_moves`.
proof fn lemma_dest_moves_has(sq: Square, x: u64, promotion: Option<PieceType>, n: int, d: int)
    requires
        0 <= d < n <= 64,
        bit(x, d),
    ensures
        dest_moves(sq, x, promotion, n).contains(Move { source: sq, dest: square_at(d), promotion }),
    decreases n,
{
    broadcast use vstd::seq_lib::lemma_seq_contains_after_push;
    if d < n - 1 {
        lemma_dest_moves_has(sq, x, promotion, n - 1, d);
    }
}

/// A move a group lists is among the moves the group yields when everything is selected.
proof fn lemma_listed_entry_moves(e: SquareAndBitBoard, m: Move)
    requires
        lists(e, m),
    ensures
        entry_moves(e, u64::MAX).contains(m),
{
    broadcast use vstd::seq_lib::lemma_seq_concat_contains_all_elements;
    let y = e.bitboard.0;
    let x = y & u64::MAX;
    assert(x == y) by (bit_vector)
        requires
            x == y & u64::MAX,
    ;
    let d = m.dest.index();
    m.dest.lemma_index_range();
    m.dest.lemma_square_at_index();
    if e.promotion {
        let p0 = Some(crate::move_generator::promotion_piece(0));
        let p1 = Some(crate::move_generator::promotion_piece(1));
        let p2 = Some(crate::move_generator::promotion_piece(2));
        let p3 = Some(crate::move_generator::promotion_piece(3));
        let a = dest_moves(e.square, x, p0, 64);
        let b = dest_moves(e.square, x, p1, 64);
        let c = dest_moves(e.square, x, p2, 64);
        let f = dest_moves(e.square, x, p3, 64);
        if m.promotion == p0 {
            lemma_dest_moves_has(e.square, x, p0, 64, d);
            assert(a.contains(m));
        } else if m.promotion == p1 {
            lemma_dest_moves_has(e.square, x, p1, 64, d);
            assert(b.contains(m));
        } else if m.promotion == p2 {
            lemma_dest_moves_has(e.square, x, p2, 64, d);
            assert(c.contains(m));
        } else {
            lemma_dest_moves_has(e.square, x, p3, 64, d);
            assert(f.contains(m));
        }
    } else {
        lemma_dest_moves_has(e.square, x, None, 64, d);
    }
}

/// When every group has a destination, all sources and destinations selected, the walk over
/// the first `n` groups does not stop, and yields each move a group among them lists.
proof fn lemma_iter_has(items: Seq<SquareAndBitBoard>, n: int, k: int, m: Move)
    requires
        0 <= k < n <= items.len(),
        forall|j: int| 0 <= j < items.len() ==> (#[trigger] items[j]).bitboard.0 != 0,
        lists(items[k], m),
    ensures
        iter_upto(items, u64::MAX, u64::MAX, n).0.contains(m),
        !iter_upto(items, u64::MAX, u64::MAX, n).1,
    decreases n,
{
    broadcast use vstd::seq_lib::lemma_seq_concat_contains_all_elements;
    lemma_iter_never_stops(items, n - 1);
    let e = items[n - 1];
    let y = e.bitboard.0;
    assert(y & u64::MAX == y) by (bit_vector);
    e.square.lemma_index_range();
    assert(bit(u64::MAX, e.square.index()));
    if k < n - 1 {
        lemma_iter_has(items, n - 1, k, m);
    } else {
        lemma_listed_entry_moves(e, m);
    }
}

proof fn lemma_iter_never_stops(items: Seq<SquareAndBitBoard>, n: int)
    requires
        0 <= n <= items.len(),
        forall|j: int| 0 <= j < items.len() ==> (#[trigger] items[j]).bitboard.0 != 0,
    ensures
        !iter_upto(items, u64::MAX, u64::MAX, n).1,
    decreases n,
{
    if n > 0 {
        lemma_iter_never_stops(items, n - 1);
        let e = items[n - 1];
        let y = e.bitboard.0;
        assert(y & u64::MAX == y) by (bit_vector);
        e.square.lemma_index_range();
        assert(bit(u64::MAX, e.square.index()));
    }
}

impl BoardPosition {
    /// The legal moves in the order a fresh generator lists them.
    pub open spec fn legal_moves_seq(self) -> Seq<Move> {
        iter_upto(self.all_entries(), u64::MAX, u64::MAX, self.all_entries().len() as int).0
    }

    /// The moves a fresh generator yields, which perft counts, are exactly the legal moves.
    pub proof fn law_generated_moves_are_legal_moves(self, m: Move)
        requires
            self.wf(),
        ensures
            self.legal_moves_seq().contains(m) <==> self.legal_spec(m),
    {
        if self.legal_moves_seq().contains(m) {
            self.lemma_listed_move_legal(m);
        }
        if self.legal_spec(m) {
            self.lemma_legal_is_generated(m);
            let e = choose|e: SquareAndBitBoard| #[trigger] self.all_entries().contains(e) && lists(e, m);
            let k = choose|k: int| 0 <= k < self.all_entries().len() && self.all_entries()[k] == e;
            assert forall|j: int| 0 <= j < self.all_entries().len() implies (#[trigger] self.all_entries()[j]).bitboard.0 != 0 by {
                let f = self.all_entries()[j];
                assert(self.all_entries().contains(f));
                let x = self.lemma_entry_lists_a_move(f);
                crate::bits::lemma_zero_iff_no_bits(f.bitboard.0);
            }
            lemma_iter_has(self.all_entries(), self.all_entries().len() as int, k, m);
        }
    }

    /// The number of legal moves a fresh generator counts.
    pub open spec fn legal_count(self) -> int {
        len_upto(self.all_entries(), u64::MAX, u64::MAX, self.all_entries().len() as int).0
    }

    /// The number of move sequences of `depth` legal moves from the position (with `depth`
    /// at least one).
    pub open spec fn perft_spec(self, depth: nat) -> nat
        decreases depth, 0nat,
    {
        if depth <= 1 {
            self.legal_count() as nat
        } else {
            self.perft_sum(self.legal_moves_seq(), (depth - 1) as nat)
        }
    }

    /// The sum of `perft_spec(depth)` over the positions after the moves of `ms`.
    pub open spec fn perft_sum(self, ms: Seq<Move>, depth: nat) -> nat
        decreases depth, ms.len(),
    {
        if ms.len() == 0 {
            0
        } else {
            self.perft_sum(ms.drop_last(), depth) + self.after_move(ms.last()).perft_spec(depth)
        }
    }

    /// The position can be searched `depth` plies deep: well formed with its checkers and
    /// pinned pieces, at most 16 pieces a side and one king each, and room in the move clocks.
    pub open spec fn perft_ok(self, depth: int) -> bool {
        &&& self.wf()
        &&& self.info_ok()
        &&& popcount(self.color_mask(Color::White)) <= 16
        &&& popcount(self.color_mask(Color::Black)) <= 16
        &&& self.one_king(Color::White)
        &&& self.one_king(Color::Black)
        &&& self.halfmove_clock + depth < 256
        &&& self.fullmove_number + depth < 65536
    }

    /// A move of a fresh generator is legal.
    pub proof fn lemma_listed_move_legal(self, m: Move)
        requires
            self.wf(),
            self.legal_moves_seq().contains(m),
        ensures
            self.legal_spec(m),
    {
        lemma_iter_listed(self.all_entries(), self.all_entries().len() as int, m);
        let k = choose|k: int| 0 <= k < self.all_entries().len() && lists(#[trigger] self.all_entries()[k], m);
        assert(self.all_entries().contains(self.all_entries()[k]));
        self.lemma_generated_is_legal(m);
    }

    /// After a legal move, the position can be searched one ply less deep.
    pub proof fn lemma_perft_ok_after(self, m: Move, depth: int)
        requires
            self.perft_ok(depth),
            depth >= 1,
            self.legal_spec(m),
            self.made(m, self.after_move(m)),
        ensures
            self.after_move(m).perft_ok(depth - 1),
    {
        let r = self.after_move(m);
        let us = self.turn_;
        let them = us.other();
        assert(self.move_fits(m));
        assert(m.promotion != Some(PieceType::King));
        self.lemma_move_counts(m);
        lemma_mask_of(|i: int| self.moved_piece_at(m, i) matches Some(p) && p.color == us, 64);
        lemma_mask_of(|i: int| self.moved_piece_at(m, i) matches Some(p) && p.color == them, 64);
        lemma_mask_of(|i: int| self.moved_piece_at(m, i) == Some(Piece { type_: PieceType::King, color: us }), 64);
        assert forall|c: Color| #[trigger] r.color_mask(c) == self.moved_color_mask(m, c) by {
            assert forall|i: int| #[trigger] bit(r.color_mask(c), i) == bit(self.moved_color_mask(m, c), i) by {
                lemma_piece_at_facts(r, i);
                lemma_mask_of(|i: int| self.moved_piece_at(m, i) matches Some(p) && p.color == c, 64);
            }
            crate::bits::lemma_eq_iff_bits(r.color_mask(c), self.moved_color_mask(m, c));
        }
        assert(r.kings.0 & r.color_mask(us) == self.moved_king_mask(m, us)) by {
            assert forall|i: int| #[trigger] bit(r.kings.0 & r.color_mask(us), i) == bit(self.moved_king_mask(m, us), i) by {
                crate::position_move::lemma_king_bits(r, us, i);
            }
            crate::bits::lemma_eq_iff_bits(r.kings.0 & r.color_mask(us), self.moved_king_mask(m, us));
        }
        crate::position_move::lemma_king_mask_same(self, r, m);
    }
}

impl BoardPosition {
    /// A prefix of the moves adds up to no more than all of them.
    pub proof fn lemma_perft_sum_prefix(self, ms: Seq<Move>, i: int, depth: nat)
        requires
            0 <= i <= ms.len(),
        ensures
            self.perft_sum(ms.take(i), depth) <= self.perft_sum(ms, depth),
        decreases ms.len() - i,
    {
        if i < ms.len() {
            self.lemma_perft_sum_prefix(ms, i + 1, depth);
            assert(ms.take(i + 1).drop_last() =~= ms.take(i));
        } else {
            assert(ms.take(i) =~= ms);
        }
    }

    /// A generator of the legal moves of the position.
    pub fn generate_legal_moves(&self) -> (r: MoveGenerator)
        requires
            self.wf(),
            popcount(self.color_mask(self.turn_)) <= 16,
        ensures
            r.gen_wf(),
            r.items() == self.all_entries(),
            r.promotion_at() == 0,
            r.from_mask() == u64::MAX,
            r.to_mask() == u64::MAX,
            r.at() == 0,
            r.last_at() == usize::MAX,
    {
        MoveGenerator::new_legal(self)
    }
}

impl MoveGenerator {
    /// The number of move sequences of `depth` legal moves from `position`.
    pub fn perft_test(position: &BoardPosition, depth: usize) -> (r: usize)
        requires
            depth >= 1,
            position.perft_ok(depth as int),
            position.perft_spec(depth as nat) <= usize::MAX,
        ensures
            r == position.perft_spec(depth as nat),
        decreases depth,
    {
        let iterable = position.generate_legal_moves();
        if depth == 1 {
            return iterable.len();
        }
        let moves = iterable.iter();
        let ghost ms = moves@;
        let mut result: usize = 0;
        let mut i: usize = 0;
        while i < moves.len()
            invariant
                i <= moves.len(),
                depth >= 2,
                moves@ == ms,
                ms == position.legal_moves_seq(),
                position.perft_ok(depth as int),
                position.perft_spec(depth as nat) <= usize::MAX,
                position.perft_spec(depth as nat) == position.perft_sum(ms, (depth - 1) as nat),
                result == position.perft_sum(ms.take(i as int), (depth - 1) as nat),
            decreases moves.len() - i,
        {
            let m = moves[i];
            proof {
                assert(ms.contains(m)) by {
                    assert(ms[i as int] == m);
                }
                position.lemma_listed_move_legal(m);
            }
            let child = position.make_move_new(m);
            proof {
                position.lemma_perft_ok_after(m, depth as int);
                position.lemma_perft_sum_prefix(ms, i as int + 1, (depth - 1) as nat);
                assert(ms.take(i as int + 1).drop_last() =~= ms.take(i as int));
                assert(ms.take(i as int + 1).last() == m);
            }
            let sub = MoveGenerator::perft_test(&child, depth - 1);
            result = result + sub;
            i = i + 1;
        }
        proof {
            assert(ms.take(ms.len() as int) =~= ms);
        }
        result
    }
}

} // verus!
