//! Each legal move is generated once: the groups of a position list disjoint sets of moves,
//! and each group lists its moves once.
use vstd::prelude::*;
use vstd::seq_lib::lemma_no_dup_in_concat;
use crate::bits::{bit, count_bits, group_bit_facts, popcount};
use crate::attacks::{fl, rk};
use crate::bitboard::BitBoard;
use crate::move_generator::{dest_moves, entry_moves, group_key, iter_upto, len_upto, lists, promotion_piece, selected};
use crate::move_list::SquareAndBitBoard;
use crate::moves::Move;
use crate::perft::{lemma_entry_moves_listed, lemma_iter_listed};
use crate::piece::{Piece, PieceType};
use crate::position::{lemma_piece_at_facts, BoardPosition};
use crate::types::{group_square_facts, lemma_square_at_range, square_at, Square};

verus! {

broadcast use group_bit_facts, group_square_facts;

/// The moves of `dest_moves` are distinct, leave `sq` with `promotion`, and go to squares
/// below `n`.
proof fn lemma_dest_moves_distinct(sq: Square, x: u64, promotion: Option<PieceType>, n: int)
    requires
        n <= 64,
    ensures
        dest_moves(sq, x, promotion, n).no_duplicates(),
        forall|i: int| 0 <= i < dest_moves(sq, x, promotion, n).len() ==> {
            let m = #[trigger] dest_moves(sq, x, promotion, n)[i];
            m.dest.index() < n && m.promotion == promotion
        },
    decreases n,
{
    if n > 0 {
        lemma_dest_moves_distinct(sq, x, promotion, n - 1);
        lemma_square_at_range(n - 1);
    }
}

/// A group lists each of its moves once.
proof fn lemma_entry_moves_distinct(e: SquareAndBitBoard)
    ensures
        entry_moves(e, u64::MAX).no_duplicates(),
{
    let x = e.bitboard.0 & u64::MAX;
    if e.promotion {
        let a = dest_moves(e.square, x, Some(promotion_piece(0)), 64);
        let b = dest_moves(e.square, x, Some(promotion_piece(1)), 64);
        let c = dest_moves(e.square, x, Some(promotion_piece(2)), 64);
        let d = dest_moves(e.square, x, Some(promotion_piece(3)), 64);
        lemma_dest_moves_distinct(e.square, x, Some(promotion_piece(0)), 64);
        lemma_dest_moves_distinct(e.square, x, Some(promotion_piece(1)), 64);
        lemma_dest_moves_distinct(e.square, x, Some(promotion_piece(2)), 64);
        lemma_dest_moves_distinct(e.square, x, Some(promotion_piece(3)), 64);
        assert forall|i: int, j: int| 0 <= i < a.len() && 0 <= j < b.len() implies a[i] != b[j] by {
            assert(a[i].promotion != b[j].promotion);
        }
        lemma_no_dup_in_concat(a, b);
        let ab = a + b;
        assert forall|i: int, j: int| 0 <= i < ab.len() && 0 <= j < c.len() implies ab[i] != c[j] by {
            if i < a.len() {
                assert(ab[i] == a[i]);
            } else {
                assert(ab[i] == b[i - a.len()]);
            }
        }
        lemma_no_dup_in_concat(ab, c);
        let abc = ab + c;
        assert forall|i: int, j: int| 0 <= i < abc.len() && 0 <= j < d.len() implies abc[i] != d[j] by {
            if i < a.len() {
                assert(abc[i] == a[i]);
            } else if i < ab.len() {
                assert(abc[i] == b[i - a.len()]);
            } else {
                assert(abc[i] == c[i - ab.len()]);
            }
        }
        lemma_no_dup_in_concat(abc, d);
    } else {
        lemma_dest_moves_distinct(e.square, x, None, 64);
    }
}

/// When no two groups list a common move, the walk over the groups yields each move once.
proof fn lemma_iter_distinct(items: Seq<SquareAndBitBoard>, n: int)
    requires
        0 <= n <= items.len(),
        forall|j: int, k: int, m: Move|
            #![trigger lists(items[j], m), lists(items[k], m)]
            0 <= j < k < items.len() && lists(items[j], m) ==> !lists(items[k], m),
    ensures
        iter_upto(items, u64::MAX, u64::MAX, n).0.no_duplicates(),
    decreases n,
{
    if n > 0 {
        lemma_iter_distinct(items, n - 1);
        let ms = iter_upto(items, u64::MAX, u64::MAX, n - 1).0;
        let stopped = iter_upto(items, u64::MAX, u64::MAX, n - 1).1;
        let e = items[n - 1];
        if !stopped && bit(u64::MAX, e.square.index()) && selected(e, u64::MAX) {
            let es = entry_moves(e, u64::MAX);
            lemma_entry_moves_distinct(e);
            assert forall|i: int, j: int| 0 <= i < ms.len() && 0 <= j < es.len() implies ms[i] != es[j] by {
                assert(ms.contains(ms[i]));
                lemma_iter_listed(items, n - 1, ms[i]);
                let k = choose|k: int| 0 <= k < n - 1 && lists(#[trigger] items[k], ms[i]);
                assert(es.contains(es[j]));
                lemma_entry_moves_listed(e, es[j]);
                assert(lists(items[k], ms[i]));
                assert(lists(items[n - 1], es[j]));
            }
            lemma_no_dup_in_concat(ms, es);
        }
    }
}

impl BoardPosition {
    /// The en passant square, if there is one, holds no piece.
    pub open spec fn ep_square_empty(self) -> bool {
        self.ep matches Some(e) ==> !bit(self.occupied_bb.0, e.index())
    }

    /// The pawn that may take en passant from the left (or right) cannot go to the en passant
    /// square by an ordinary move.
    proof fn lemma_ep_dest_not_listed(self, left: bool)
        requires
            self.wf(),
            self.ep_square_empty(),
            self.ep_group(left).len() > 0,
        ensures
            !self.entry_dest(square_at(self.ep_candidate(left)).index(), self.ep.unwrap().index()),
    {
        let d = self.ep.unwrap();
        let dd = d.index();
        let s = square_at(self.ep_candidate(left)).index();
        let mv = Move { source: square_at(self.ep_candidate(left)), dest: d, promotion: None };
        assert(self.ep_legal(mv));
        lemma_piece_at_facts(self, s);
        assert(self.type_on(s) == Some(PieceType::Pawn));
        lemma_square_at_range(s);
        lemma_square_at_range(dd);
        assert(fl(s) != fl(dd));
    }

    /// No group of an ordinary piece is one of the en passant groups.
    proof fn lemma_group_not_ep(self, s: int, left: bool)
        requires
            self.wf(),
            self.ep_square_empty(),
            0 <= s < 64,
        ensures
            !self.ep_group(left).contains(self.entry_at(s)),
    {
        if self.ep_group(left).contains(self.entry_at(s)) {
            let d = self.ep.unwrap().index();
            assert(self.ep_group(left)[0] == self.entry_at(s));
            lemma_square_at_range(s);
            assert(s == square_at(self.ep_candidate(left)).index());
            crate::bits::lemma_mask_of(|x: int| self.entry_dest(s, x), 64);
            assert(bit(self.entry_mask(s), d));
            self.lemma_ep_dest_not_listed(left);
        }
    }

    /// The groups of the pieces of type `pt`, pinned as `pinned` says, on the squares below `n`
    /// are distinct groups of pieces in that group, one per square.
    proof fn lemma_group_distinct(self, pt: PieceType, pinned: bool, n: int)
        requires
            n <= 64,
        ensures
            self.group_entries(pt, pinned, n).no_duplicates(),
            forall|i: int| 0 <= i < self.group_entries(pt, pinned, n).len() ==> {
                let e = #[trigger] self.group_entries(pt, pinned, n)[i];
                &&& e.square.index() < n
                &&& self.in_group(pt, pinned, e.square.index())
                &&& e == self.entry_at(e.square.index())
            },
        decreases n,
    {
        if n > 0 {
            self.lemma_group_distinct(pt, pinned, n - 1);
            lemma_square_at_range(n - 1);
        }
    }

    /// The rank of a group in the order of the groups: its piece type and pin, or past all of
    /// them for an en passant group.
    pub open spec fn group_class(self, e: SquareAndBitBoard) -> int {
        if self.ep_group(true).contains(e) || self.ep_group(false).contains(e) {
            12
        } else {
            group_key(self.type_on(e.square.index()).unwrap(), bit(self.pinned_bb.0, e.square.index()))
        }
    }
}

impl BoardPosition {
    /// A group of an ordinary piece has the rank of its piece type and pin.
    proof fn lemma_group_class(self, pt: PieceType, pinned: bool, i: int)
        requires
            self.wf(),
            self.ep_square_empty(),
            0 <= i < self.group_entries(pt, pinned, 64).len(),
        ensures
            self.group_class(self.group_entries(pt, pinned, 64)[i]) == group_key(pt, pinned),
    {
        self.lemma_group_distinct(pt, pinned, 64);
        let e = self.group_entries(pt, pinned, 64)[i];
        let s = e.square.index();
        self.lemma_group_not_ep(s, true);
        self.lemma_group_not_ep(s, false);
    }

    /// The en passant groups are distinct.
    proof fn lemma_ep_groups_distinct(self)
        ensures
            (self.ep_group(true) + self.ep_group(false)).no_duplicates(),
    {
        let a = self.ep_group(true);
        let b = self.ep_group(false);
        if a.len() > 0 && b.len() > 0 {
            let d = self.ep.unwrap().index();
            let l = self.ep_candidate(true);
            let r = self.ep_candidate(false);
            assert(0 <= l < 64 && 0 <= r < 64 && l != r);
            lemma_square_at_range(l);
            lemma_square_at_range(r);
            assert(a[0].square != b[0].square);
        }
        lemma_no_dup_in_concat(a, b);
    }

    /// The groups of the pieces of type `pt` are distinct, and rank as the groups of that type
    /// (or, for pawns, as en passant groups).
    proof fn lemma_type_entries_distinct(self, pt: PieceType)
        requires
            self.wf(),
            self.ep_square_empty(),
        ensures
            self.type_entries(pt).no_duplicates(),
            forall|i: int| 0 <= i < self.type_entries(pt).len() ==> {
                let c = self.group_class(#[trigger] self.type_entries(pt)[i]);
                c == group_key(pt, false) || c == group_key(pt, true) || (pt == PieceType::Pawn && c == 12)
            },
    {
        let g0 = self.group_entries(pt, false, 64);
        let g1 = self.group_entries(pt, true, 64);
        self.lemma_group_distinct(pt, false, 64);
        self.lemma_group_distinct(pt, true, 64);
        assert forall|i: int, j: int| 0 <= i < g0.len() && 0 <= j < g1.len() implies g0[i] != g1[j] by {
            self.lemma_group_class(pt, false, i);
            self.lemma_group_class(pt, true, j);
        }
        lemma_no_dup_in_concat(g0, g1);
        let g = g0 + g1;
        assert forall|i: int| 0 <= i < g.len() implies {
            let c = self.group_class(#[trigger] g[i]);
            c == group_key(pt, false) || c == group_key(pt, true)
        } by {
            if i < g0.len() {
                assert(g[i] == g0[i]);
                self.lemma_group_class(pt, false, i);
            } else {
                assert(g[i] == g1[i - g0.len()]);
                self.lemma_group_class(pt, true, i - g0.len());
            }
        }
        if pt == PieceType::Pawn {
            let e = self.ep_group(true) + self.ep_group(false);
            self.lemma_ep_groups_distinct();
            assert forall|j: int| 0 <= j < e.len() implies self.group_class(#[trigger] e[j]) == 12 by {
                if j < self.ep_group(true).len() {
                    assert(e[j] == self.ep_group(true)[j]);
                    assert(self.ep_group(true).contains(e[j]));
                } else {
                    assert(e[j] == self.ep_group(false)[j - self.ep_group(true).len()]);
                    assert(self.ep_group(false).contains(e[j]));
                }
            }
            assert forall|i: int, j: int| 0 <= i < g.len() && 0 <= j < e.len() implies g[i] != e[j] by {
                assert(self.group_class(g[i]) != self.group_class(e[j]));
            }
            lemma_no_dup_in_concat(g, e);
            assert(self.type_entries(pt) =~= g + e);
            assert forall|i: int| 0 <= i < self.type_entries(pt).len() implies {
                let c = self.group_class(#[trigger] self.type_entries(pt)[i]);
                c == group_key(pt, false) || c == group_key(pt, true) || (pt == PieceType::Pawn && c == 12)
            } by {
                if i < g.len() {
                    assert(self.type_entries(pt)[i] == g[i]);
                } else {
                    assert(self.type_entries(pt)[i] == e[i - g.len()]);
                }
            }
        } else {
            assert(self.type_entries(pt) =~= g);
        }
    }
}

impl BoardPosition {
    /// Appending the groups of a piece type other than the pawn to groups of lower rank keeps
    /// the groups distinct.
    proof fn lemma_append_type(self, a: Seq<SquareAndBitBoard>, pt: PieceType)
        requires
            self.wf(),
            self.ep_square_empty(),
            pt != PieceType::Pawn,
            a.no_duplicates(),
            forall|i: int| 0 <= i < a.len() ==> {
                let c = self.group_class(#[trigger] a[i]);
                c < 2 * pt.index() || c == 12
            },
        ensures
            (a + self.type_entries(pt)).no_duplicates(),
            forall|i: int| 0 <= i < (a + self.type_entries(pt)).len() ==> {
                let c = self.group_class(#[trigger] (a + self.type_entries(pt))[i]);
                c < 2 * pt.index() + 2 || c == 12
            },
    {
        let t = self.type_entries(pt);
        self.lemma_type_entries_distinct(pt);
        assert forall|i: int, j: int| 0 <= i < a.len() && 0 <= j < t.len() implies a[i] != t[j] by {
            assert(self.group_class(a[i]) != self.group_class(t[j]));
        }
        lemma_no_dup_in_concat(a, t);
        assert forall|i: int| 0 <= i < (a + t).len() implies {
            let c = self.group_class(#[trigger] (a + t)[i]);
            c < 2 * pt.index() + 2 || c == 12
        } by {
            if i < a.len() {
                assert((a + t)[i] == a[i]);
            } else {
                assert((a + t)[i] == t[i - a.len()]);
            }
        }
    }

    /// The groups of a position are distinct.
    proof fn lemma_all_entries_distinct(self)
        requires
            self.wf(),
            self.ep_square_empty(),
        ensures
            self.all_entries().no_duplicates(),
    {
        let p = self.type_entries(PieceType::Pawn);
        self.lemma_type_entries_distinct(PieceType::Pawn);
        let a1 = p + self.type_entries(PieceType::Knight);
        self.lemma_append_type(p, PieceType::Knight);
        let a2 = a1 + self.type_entries(PieceType::Bishop);
        self.lemma_append_type(a1, PieceType::Bishop);
        let a3 = a2 + self.type_entries(PieceType::Rook);
        self.lemma_append_type(a2, PieceType::Rook);
        let a4 = a3 + self.type_entries(PieceType::Queen);
        self.lemma_append_type(a3, PieceType::Queen);
        self.lemma_append_type(a4, PieceType::King);
    }

    /// An en passant group and the group of an ordinary piece never list the same move.
    proof fn lemma_main_ep_apart(self, s: int, left: bool, m: Move)
        requires
            self.wf(),
            self.ep_square_empty(),
            self.has_group(s),
            self.ep_group(left).len() > 0,
            lists(self.entry_at(s), m),
        ensures
            !lists(self.ep_group(left)[0], m),
    {
        let other = self.ep_group(left)[0];
        if lists(other, m) {
            let d = m.dest.index();
            lemma_square_at_range(s);
            assert(s == square_at(self.ep_candidate(left)).index());
            assert(d == self.ep.unwrap().index());
            crate::bits::lemma_mask_of(|x: int| self.entry_dest(s, x), 64);
            assert(bit(self.entry_mask(s), d));
            self.lemma_ep_dest_not_listed(left);
        }
    }

    /// The two en passant groups, when both are there, leave different squares.
    proof fn lemma_ep_groups_apart(self)
        requires
            self.ep_group(true).len() > 0,
            self.ep_group(false).len() > 0,
        ensures
            self.ep_group(true)[0].square != self.ep_group(false)[0].square,
    {
        let l = self.ep_candidate(true);
        let r = self.ep_candidate(false);
        assert(0 <= l < 64 && 0 <= r < 64 && l != r);
        lemma_square_at_range(l);
        lemma_square_at_range(r);
    }

    /// Two different groups of a position never list the same move, provided the en passant
    /// square is empty.
    proof fn lemma_groups_list_apart(self, e1: SquareAndBitBoard, e2: SquareAndBitBoard, m: Move)
        requires
            self.wf(),
            self.ep_square_empty(),
            self.all_entries().contains(e1),
            self.all_entries().contains(e2),
            e1 != e2,
            lists(e1, m),
        ensures
            !lists(e2, m),
    {
        self.lemma_all_entries_contains(e1);
        self.lemma_all_entries_contains(e2);
        let one = exists|s: int| #[trigger] self.has_group(s) && e1 == self.entry_at(s);
        let two = exists|s: int| #[trigger] self.has_group(s) && e2 == self.entry_at(s);
        if one && two {
            let s1 = choose|s: int| #[trigger] self.has_group(s) && e1 == self.entry_at(s);
            let s2 = choose|s: int| #[trigger] self.has_group(s) && e2 == self.entry_at(s);
            lemma_square_at_range(s1);
            lemma_square_at_range(s2);
        } else if one {
            let s = choose|s: int| #[trigger] self.has_group(s) && e1 == self.entry_at(s);
            let left = self.ep_group(true).contains(e2);
            assert(e2 == self.ep_group(left)[0]);
            self.lemma_main_ep_apart(s, left, m);
        } else if two {
            let s = choose|s: int| #[trigger] self.has_group(s) && e2 == self.entry_at(s);
            let left = self.ep_group(true).contains(e1);
            assert(e1 == self.ep_group(left)[0]);
            if lists(e2, m) {
                self.lemma_main_ep_apart(s, left, m);
            }
        } else {
            let l1 = self.ep_group(true).contains(e1);
            let l2 = self.ep_group(true).contains(e2);
            assert(e1 == self.ep_group(l1)[0]);
            assert(e2 == self.ep_group(l2)[0]);
            if l1 != l2 {
                self.lemma_ep_groups_apart();
            }
        }
    }

    /// A fresh generator yields no move twice, so that perft counts each legal move once,
    /// provided the en passant square, if there is one, is empty.
    pub proof fn law_generated_moves_are_distinct(self)
        requires
            self.wf(),
            self.ep_square_empty(),
        ensures
            self.legal_moves_seq().no_duplicates(),
    {
        let items = self.all_entries();
        self.lemma_all_entries_distinct();
        assert forall|j: int, k: int, m: Move|
            #![trigger lists(items[j], m), lists(items[k], m)]
            0 <= j < k < items.len() && lists(items[j], m) implies !lists(items[k], m) by {
            assert(items.contains(items[j]));
            assert(items.contains(items[k]));
            self.lemma_groups_list_apart(items[j], items[k], m);
        }
        lemma_iter_distinct(items, items.len() as int);
    }
}

impl BoardPosition {
    /// Perft to depth one counts the legal moves: the number it gives is the number of moves
    /// that are legal in the position, provided the en passant square, if any, is empty.
    pub proof fn law_perft_one_counts_legal_moves(self)
        requires
            self.wf(),
            self.ep_square_empty(),
        ensures
            Set::new(|m: Move| self.legal_spec(m)).finite(),
            self.perft_spec(1) == Set::new(|m: Move| self.legal_spec(m)).len(),
    {
        let ms = self.legal_moves_seq();
        let legal = Set::new(|m: Move| self.legal_spec(m));
        self.law_generated_moves_are_distinct();
        assert(ms.to_set() =~= legal) by {
            assert forall|m: Move| ms.to_set().contains(m) == legal.contains(m) by {
                self.law_generated_moves_are_legal_moves(m);
            }
        }
        ms.unique_seq_to_set();
        crate::move_generator::lemma_len_is_iter_len(self.all_entries(), u64::MAX, u64::MAX, self.all_entries().len() as int);
    }
}

} // verus!
