//! Legal move generation: the legal moves of a position, grouped by source square, with
//! masks that select which of them an iteration yields.
use vstd::prelude::*;
use arrayvec::ArrayVec;
use crate::attacks::{fl, rk};
use crate::bitboard::BitBoard;
use crate::bits::{bit, count_bits, group_bit_facts, lemma_count_bits_add, lemma_count_bits_subset, lemma_eq_iff_bits, popcount};
use crate::move_list::{list_len, list_new, list_push, move_list_items, SquareAndBitBoard};
use crate::moves::Move;
use crate::piece::{Piece, PieceType};
use crate::position::{lemma_piece_at_facts, BoardPosition};
use crate::types::{group_square_facts, square_at, Color, Square};

verus! {

broadcast use group_bit_facts, group_square_facts;

/// The order in which the groups of pieces are listed: by piece type, unpinned pieces first.
pub open spec fn group_key(pt: PieceType, pinned: bool) -> int {
    pt.index() * 2 + if pinned { 1int } else { 0 }
}

impl BoardPosition {
    /// `d` is a destination the group of the piece on `s` lists: an ordinary legal move there,
    /// or castling for the king.
    pub open spec fn entry_dest(self, s: int, d: int) -> bool {
        &&& 0 <= d < 64
        &&& {
            ||| self.normal_legal(Move { source: square_at(s), dest: square_at(d), promotion: self.first_promotion(s) })
            ||| (self.type_on(s) == Some(PieceType::King) && self.castle_legal(Move { source: square_at(s), dest: square_at(d), promotion: None }, true))
            ||| (self.type_on(s) == Some(PieceType::King) && self.castle_legal(Move { source: square_at(s), dest: square_at(d), promotion: None }, false))
        }
    }

    /// The destinations the group of the piece on `s` lists, as a mask.
    pub open spec fn entry_mask(self, s: int) -> u64 {
        crate::bits::mask_of(|d: int| self.entry_dest(s, d), 64)
    }

    /// `m` holds exactly the destinations the group of the piece on `s` lists.
    pub open spec fn is_entry_mask(self, s: int, m: u64) -> bool {
        forall|d: int| #[trigger] bit(m, d) == self.entry_dest(s, d)
    }

    /// The group of the piece on `s`.
    pub open spec fn entry_at(self, s: int) -> SquareAndBitBoard {
        SquareAndBitBoard { square: square_at(s), bitboard: BitBoard(self.entry_mask(s)), promotion: self.promotes_from(s) }
    }

    /// The piece on `s` is of type `pt`, of the side to move, pinned as `pinned` says, and has
    /// somewhere to go.
    pub open spec fn in_group(self, pt: PieceType, pinned: bool, s: int) -> bool {
        &&& self.type_on(s) == Some(pt)
        &&& self.color_on(s) == Some(self.turn_)
        &&& bit(self.pinned_bb.0, s) == pinned
        &&& self.entry_mask(s) != 0
    }

    /// The groups of the pieces of type `pt`, pinned as `pinned` says, on the squares below `n`.
    pub open spec fn group_entries(self, pt: PieceType, pinned: bool, n: int) -> Seq<SquareAndBitBoard>
        decreases n,
    {
        if n <= 0 {
            Seq::empty()
        } else if self.in_group(pt, pinned, n - 1) {
            self.group_entries(pt, pinned, n - 1).push(self.entry_at(n - 1))
        } else {
            self.group_entries(pt, pinned, n - 1)
        }
    }

    /// The square a pawn taking en passant stands on, on the file left (or right) of the en
    /// passant square.
    pub open spec fn ep_candidate(self, left: bool) -> int {
        let d = self.ep.unwrap().index();
        let r = if rk(d) > 3 { rk(d) - 1 } else { rk(d) + 1 };
        r * 8 + if left { fl(d) - 1 } else { fl(d) + 1 }
    }

    /// The en passant capture from the left (or right) file, when it is legal.
    pub open spec fn ep_group(self, left: bool) -> Seq<SquareAndBitBoard> {
        let d = self.ep.unwrap();
        let s = self.ep_candidate(left);
        if self.ep is Some && (if left { fl(d.index()) > 0 } else { fl(d.index()) < 7 }) && self.ep_legal(
            Move { source: square_at(s), dest: d, promotion: None },
        ) {
            seq![SquareAndBitBoard { square: square_at(s), bitboard: BitBoard(1u64 << (d.index() as u64)), promotion: false }]
        } else {
            Seq::empty()
        }
    }

    /// The groups of the pieces of type `pt`: unpinned, then pinned, then (for pawns) the en
    /// passant captures.
    pub open spec fn type_entries(self, pt: PieceType) -> Seq<SquareAndBitBoard> {
        self.group_entries(pt, false, 64) + self.group_entries(pt, true, 64) + if pt == PieceType::Pawn {
            self.ep_group(true) + self.ep_group(false)
        } else {
            Seq::empty()
        }
    }

    /// All the groups of legal moves, in the order they are listed.
    pub open spec fn all_entries(self) -> Seq<SquareAndBitBoard> {
        self.type_entries(PieceType::Pawn) + self.type_entries(PieceType::Knight) + self.type_entries(PieceType::Bishop)
            + self.type_entries(PieceType::Rook) + self.type_entries(PieceType::Queen) + self.type_entries(PieceType::King)
    }

    /// The squares of the pieces of the side to move whose groups come before the group of
    /// type `pt` pinned as `pinned` says.
    pub open spec fn listed_before(self, used: u64, key: int) -> bool {
        forall|i: int| #[trigger] bit(used, i) ==> bit(self.color_mask(self.turn_), i) && self.type_on(i) is Some
            && group_key(self.type_on(i).unwrap(), bit(self.pinned_bb.0, i)) < key
    }

    /// A mask with the destinations of `entry_dest` is `entry_mask`.
    pub proof fn lemma_entry_mask(self, s: int, m: u64)
        requires
            forall|d: int| #[trigger] bit(m, d) == self.entry_dest(s, d),
        ensures
            self.entry_mask(s) == m,
    {
        crate::bits::lemma_mask_of(|d: int| self.entry_dest(s, d), 64);
        let c = self.entry_mask(s);
        assert(self.is_entry_mask(s, c));
        lemma_eq_iff_bits(c, m);
    }

    /// The destinations the group of the piece on `square` lists.
    fn entry_dests(&self, square: Square) -> (r: BitBoard)
        requires
            self.wf(),
        ensures
            r.0 == self.entry_mask(square.index()),
    {
        let ghost s = square.index();
        let mut m = self.legal_dests(square);
        let ghost normal = m;
        proof {
            lemma_piece_at_facts(*self, square.index());
        }
        if self.kings.contains(square) {
            let king_side = self.castle_dest(square, true);
            let queen_side = self.castle_dest(square, false);
            match king_side {
                Some(d) => {
                    m = m.or(d.to_bitboard());
                },
                None => {},
            }
            match queen_side {
                Some(d) => {
                    m = m.or(d.to_bitboard());
                },
                None => {},
            }
            proof {
                assert forall|d: int| #[trigger] bit(m.0, d) == self.entry_dest(s, d) by {
                    assert(normal.has(d) == (0 <= d < 64 && self.normal_legal(
                        Move { source: square, dest: square_at(d), promotion: self.first_promotion(s) },
                    )));
                    if 0 <= d < 64 {
                        assert(square_at(s) == square);
                    }
                }
                self.lemma_entry_mask(s, m.0);
            }
        } else {
            proof {
                assert forall|d: int| #[trigger] bit(m.0, d) == self.entry_dest(s, d) by {
                    assert(normal.has(d) == (0 <= d < 64 && self.normal_legal(
                        Move { source: square, dest: square_at(d), promotion: self.first_promotion(s) },
                    )));
                    if 0 <= d < 64 {
                        assert(square_at(s) == square);
                    }
                }
                self.lemma_entry_mask(s, m.0);
            }
        }
        m
    }
}

impl BoardPosition {
    /// Append the groups of the pieces of type `pt` pinned as `pinned` says; `used` holds the
    /// squares of the groups listed so far, `eps` counts the en passant groups among them.
    fn push_group(
        &self,
        list: &mut ArrayVec<SquareAndBitBoard, 18>,
        pt: PieceType,
        pinned: bool,
        Ghost(used): Ghost<u64>,
        Ghost(eps): Ghost<nat>,
    ) -> (r: Ghost<u64>)
        requires
            self.wf(),
            popcount(self.color_mask(self.turn_)) <= 16,
            self.listed_before(used, group_key(pt, pinned)),
            move_list_items(*old(list)).len() == popcount(used) + eps,
            eps <= 2,
        ensures
            move_list_items(*final(list)) == move_list_items(*old(list)) + self.group_entries(pt, pinned, 64),
            self.listed_before(r@, group_key(pt, pinned) + 1),
            move_list_items(*final(list)).len() == popcount(r@) + eps,
    {
        let ghost items0 = move_list_items(*list);
        let ghost key = group_key(pt, pinned);
        let ghost mut u = used;
        let us = self.turn_;
        let mut i: usize = 0;
        while i < 64
            invariant
                self.wf(),
                popcount(self.color_mask(self.turn_)) <= 16,
                us == self.turn_,
                key == group_key(pt, pinned),
                i <= 64,
                eps <= 2,
                move_list_items(*list) == items0 + self.group_entries(pt, pinned, i as int),
                forall|j: int| #[trigger] bit(u, j) ==> bit(self.color_mask(self.turn_), j) && self.type_on(j) is Some && (group_key(
                    self.type_on(j).unwrap(),
                    bit(self.pinned_bb.0, j),
                ) < key || (group_key(self.type_on(j).unwrap(), bit(self.pinned_bb.0, j)) == key && j < i)),
                move_list_items(*list).len() == popcount(u) + eps,
            decreases 64 - i,
        {
            let sq = Square::from_index(i);
            let ghost si = i as int;
            proof {
                lemma_piece_at_facts(*self, si);
            }
            let candidate = match self.get_piece_at(sq) {
                Some(p) => p.type_ == pt && p.color == us && self.pinned_bb.contains(sq) == pinned,
                None => false,
            };
            if candidate {
                let mask = self.entry_dests(sq);
                if mask.0 != 0 {
                    let promotion = self.pawns.contains(sq) && sq.get_rank() == us.to_seventh_rank();
                    proof {
                        assert(self.in_group(pt, pinned, si));
                        assert(!bit(u, si));
                        let u2 = u | (1u64 << (si as u64));
                        lemma_count_bits_add(u, u2, si, 64);
                        lemma_count_bits_subset(u2, self.color_mask(self.turn_), 64);
                        assert(promotion == self.promotes_from(si));
                        assert(SquareAndBitBoard { square: sq, bitboard: mask, promotion } == self.entry_at(si));
                    }
                    list_push(list, SquareAndBitBoard::new(sq, mask, promotion));
                    proof {
                        u = u | (1u64 << (si as u64));
                        assert(move_list_items(*list) =~= items0 + self.group_entries(pt, pinned, si + 1));
                    }
                } else {
                    proof {
                        assert(!self.in_group(pt, pinned, si));
                    }
                }
            } else {
                proof {
                    assert(!self.in_group(pt, pinned, si));
                }
            }
            i = i + 1;
        }
        Ghost(u)
    }
}

impl BoardPosition {
    /// Append the en passant capture from the left (or right) file, when it is legal.
    fn push_ep_group(&self, list: &mut ArrayVec<SquareAndBitBoard, 18>, left: bool)
        requires
            self.wf(),
            move_list_items(*old(list)).len() < 18,
        ensures
            move_list_items(*final(list)) == move_list_items(*old(list)) + self.ep_group(left),
            move_list_items(*final(list)).len() <= move_list_items(*old(list)).len() + 1,
    {
        match self.ep {
            Some(dest) => {
                let f = dest.to_index() % 8;
                let r = dest.to_index() / 8;
                let on_board = if left { f > 0 } else { f < 7 };
                if on_board {
                    let rank = if r > 3 { r - 1 } else { r + 1 };
                    let file = if left { f - 1 } else { f + 1 };
                    let src = Square::from_index(rank * 8 + file);
                    proof {
                        assert(src.index() == self.ep_candidate(left));
                    }
                    if self.legal_ep_move(src, dest) {
                        list_push(list, SquareAndBitBoard::new(src, dest.to_bitboard(), false));
                        proof {
                            assert(move_list_items(*list) =~= move_list_items(*old(list)) + self.ep_group(left));
                        }
                    } else {
                        proof {
                            assert(self.ep_group(left) =~= Seq::<SquareAndBitBoard>::empty());
                            assert(move_list_items(*list) =~= move_list_items(*old(list)) + self.ep_group(left));
                        }
                    }
                } else {
                    proof {
                        assert(self.ep_group(left) =~= Seq::<SquareAndBitBoard>::empty());
                        assert(move_list_items(*list) =~= move_list_items(*old(list)) + self.ep_group(left));
                    }
                }
            },
            None => {
                proof {
                    assert(self.ep_group(left) =~= Seq::<SquareAndBitBoard>::empty());
                    assert(move_list_items(*list) =~= move_list_items(*old(list)) + self.ep_group(left));
                }
            },
        }
    }

    /// Append the groups of the pieces of type `pt`: unpinned, pinned, and for pawns the en
    /// passant captures.
    fn push_type(
        &self,
        list: &mut ArrayVec<SquareAndBitBoard, 18>,
        pt: PieceType,
        Ghost(used): Ghost<u64>,
        Ghost(eps): Ghost<nat>,
    ) -> (r: (Ghost<u64>, Ghost<nat>))
        requires
            self.wf(),
            popcount(self.color_mask(self.turn_)) <= 16,
            self.listed_before(used, group_key(pt, false)),
            move_list_items(*old(list)).len() == popcount(used) + eps,
            eps <= 2,
            pt == PieceType::Pawn ==> eps == 0,
        ensures
            move_list_items(*final(list)) == move_list_items(*old(list)) + self.type_entries(pt),
            self.listed_before(r.0@, group_key(pt, true) + 1),
            move_list_items(*final(list)).len() == popcount(r.0@) + r.1@,
            r.1@ <= 2,
    {
        let ghost items0 = move_list_items(*list);
        let Ghost(u1) = self.push_group(list, pt, false, Ghost(used), Ghost(eps));
        let Ghost(u2) = self.push_group(list, pt, true, Ghost(u1), Ghost(eps));
        if pt == PieceType::Pawn {
            let ghost before = move_list_items(*list);
            proof {
                assert forall|i: int| #[trigger] bit(u2, i) implies bit(self.color_mask(self.turn_), i) by {}
                lemma_count_bits_subset(u2, self.color_mask(self.turn_), 64);
            }
            self.push_ep_group(list, true);
            self.push_ep_group(list, false);
            let ghost e = (move_list_items(*list).len() - popcount(u2)) as nat;
            proof {
                assert(move_list_items(*list) =~= items0 + self.type_entries(pt));
            }
            (Ghost(u2), Ghost(e))
        } else {
            proof {
                assert(move_list_items(*list) =~= items0 + self.type_entries(pt));
            }
            (Ghost(u2), Ghost(eps))
        }
    }

    /// The groups of all the legal moves of the side to move.
    fn enumerate_moves(&self) -> (r: ArrayVec<SquareAndBitBoard, 18>)
        requires
            self.wf(),
            popcount(self.color_mask(self.turn_)) <= 16,
        ensures
            move_list_items(r) == self.all_entries(),
            move_list_items(r).len() <= 18,
    {
        let mut list = list_new();
        proof {
            crate::bits::lemma_count_bits_zero(0u64, 64);
        }
        let (Ghost(u), Ghost(e)) = self.push_type(&mut list, PieceType::Pawn, Ghost(0u64), Ghost(0nat));
        let (Ghost(u), Ghost(e)) = self.push_type(&mut list, PieceType::Knight, Ghost(u), Ghost(e));
        let (Ghost(u), Ghost(e)) = self.push_type(&mut list, PieceType::Bishop, Ghost(u), Ghost(e));
        let (Ghost(u), Ghost(e)) = self.push_type(&mut list, PieceType::Rook, Ghost(u), Ghost(e));
        let (Ghost(u), Ghost(e)) = self.push_type(&mut list, PieceType::Queen, Ghost(u), Ghost(e));
        let (Ghost(u), Ghost(e)) = self.push_type(&mut list, PieceType::King, Ghost(u), Ghost(e));
        proof {
            assert(move_list_items(list) =~= self.all_entries());
            lemma_count_bits_subset(u, self.color_mask(self.turn_), 64);
        }
        list
    }
}

/// Does the group `e` have a destination among `to`?
pub open spec fn selected(e: SquareAndBitBoard, to: u64) -> bool {
    e.bitboard.0 & to != 0
}

/// The groups among the first `n` of `items` that have a destination among `to`, in order.
pub open spec fn selected_upto(items: Seq<SquareAndBitBoard>, to: u64, n: int) -> Seq<SquareAndBitBoard>
    decreases n,
{
    if n <= 0 {
        Seq::empty()
    } else if selected(items[n - 1], to) {
        selected_upto(items, to, n - 1).push(items[n - 1])
    } else {
        selected_upto(items, to, n - 1)
    }
}

/// `p` lists each index below `n` once.
pub open spec fn is_permutation(p: Seq<int>, n: int) -> bool {
    &&& p.len() == n
    &&& forall|k: int| 0 <= k < n ==> 0 <= #[trigger] p[k] < n
    &&& forall|k: int, l: int| 0 <= k < n && 0 <= l < n && k != l ==> #[trigger] p[k] != #[trigger] p[l]
}

/// `b` holds the groups of `a`, rearranged.
pub open spec fn rearranged(a: Seq<SquareAndBitBoard>, b: Seq<SquareAndBitBoard>) -> bool {
    exists|p: Seq<int>| #[trigger] is_permutation(p, a.len() as int) && b.len() == a.len() && forall|k: int|
        0 <= k < b.len() ==> #[trigger] b[k] == a[p[k]]
}

/// The groups with a destination among `to` come first.
pub open spec fn organized(items: Seq<SquareAndBitBoard>, to: u64) -> bool {
    forall|k: int, l: int| 0 <= k < l < items.len() && #[trigger] selected(items[l], to) ==> #[trigger] selected(items[k], to)
}

/// `b` is `a` with the selected groups moved to the front, in their order.
pub open spec fn reorganized(a: Seq<SquareAndBitBoard>, b: Seq<SquareAndBitBoard>, to: u64) -> bool {
    &&& rearranged(a, b)
    &&& organized(b, to)
    &&& selected_upto(b, to, b.len() as int) == selected_upto(a, to, a.len() as int)
}

/// A generator of the legal moves of a position: the groups of moves by source square, and
/// the masks of the sources and destinations an iteration yields.
pub struct MoveGenerator {
    square_and_bitboard_array: ArrayVec<SquareAndBitBoard, 18>,
    promotion_index: usize,
    from_bitboard_iterator_mask: BitBoard,
    to_bitboard_iterator_mask: BitBoard,
    index: usize,
    last_index: usize,
}

impl MoveGenerator {
    /// The groups, in order.
    pub closed spec fn items(self) -> Seq<SquareAndBitBoard> {
        move_list_items(self.square_and_bitboard_array)
    }

    /// Which of the four promotions the next promotion move takes.
    pub closed spec fn promotion_at(self) -> int {
        self.promotion_index as int
    }

    /// The sources an iteration yields moves from.
    pub closed spec fn from_mask(self) -> u64 {
        self.from_bitboard_iterator_mask.0
    }

    /// The destinations an iteration yields moves to.
    pub closed spec fn to_mask(self) -> u64 {
        self.to_bitboard_iterator_mask.0
    }

    /// The group the iteration stands at.
    pub closed spec fn at(self) -> int {
        self.index as int
    }

    /// The group the iteration last checked against the source mask.
    pub closed spec fn last_at(self) -> int {
        self.last_index as int
    }

    /// The iteration state is in range: at most 18 groups and a promotion index below 4.
    pub open spec fn gen_wf(self) -> bool {
        self.items().len() <= 18 && 0 <= self.promotion_at() < 4 && 0 <= self.at() && 0 <= self.last_at() <= usize::MAX
    }

    /// Move the groups with a destination among the destination mask to the front, keeping
    /// their order.
    pub fn reorganize_square_and_bitboard_array(&mut self)
        requires
            old(self).gen_wf(),
        ensures
            final(self).gen_wf(),
            reorganized(old(self).items(), final(self).items(), old(self).to_mask()),
            final(self).promotion_at() == old(self).promotion_at(),
            final(self).from_mask() == old(self).from_mask(),
            final(self).to_mask() == old(self).to_mask(),
            final(self).at() == old(self).at(),
            final(self).last_at() == old(self).last_at(),
    {
        let ghost a = self.items();
        let ghost start = *self;
        let to = self.to_bitboard_iterator_mask;
        let len = list_len(&self.square_and_bitboard_array);
        let mut i: usize = 0;
        while i < len && crate::move_list::list_get(&self.square_and_bitboard_array, i).bitboard.and(to).0 != 0
            invariant
                i <= len,
                len == a.len(),
                self.items() == a,
                forall|k: int| 0 <= k < i ==> #[trigger] selected(a[k], to.0),
            decreases len - i,
        {
            i = i + 1;
        }
        proof {
            lemma_selected_upto_all(a, to.0, i as int);
        }
        let ghost mut p: Seq<int> = Seq::new(a.len(), |k: int| k);
        let mut j: usize = i + 1;
        while j < len
            invariant
                i < j || (i == len && j == len + 1) || j == i + 1,
                i <= len,
                len == a.len(),
                j <= len + 1,
                i < j,
                self.items().len() == len,
                self.to_mask() == to.0,
                is_permutation(p, len as int),
                forall|k: int| 0 <= k < len ==> #[trigger] self.items()[k] == a[p[k]],
                forall|k: int| 0 <= k < i ==> #[trigger] selected(self.items()[k], to.0),
                forall|k: int| i <= k < j && k < len ==> !#[trigger] selected(self.items()[k], to.0),
                forall|k: int| j <= k < len ==> #[trigger] self.items()[k] == a[k],
                selected_upto(self.items(), to.0, i as int) == selected_upto(a, to.0, if j > len { len as int } else { j as int }),
                self.promotion_index == start.promotion_index,
                self.from_bitboard_iterator_mask == start.from_bitboard_iterator_mask,
                self.to_bitboard_iterator_mask == start.to_bitboard_iterator_mask,
                self.index == start.index,
                self.last_index == start.last_index,
                self.items().len() <= 18,
            decreases len + 1 - j,
        {
            let e = crate::move_list::list_get(&self.square_and_bitboard_array, j);
            if e.bitboard.and(to).0 != 0 {
                let ghost before = self.items();
                crate::move_list::list_swap(&mut self.square_and_bitboard_array, i, j);
                proof {
                    p = p.update(i as int, p[j as int]).update(j as int, p[i as int]);
                    lemma_swap_selected(before, self.items(), to.0, i as int, j as int, a);
                }
                i = i + 1;
            } else {
                proof {
                    assert(selected_upto(a, to.0, j as int + 1) == selected_upto(a, to.0, j as int));
                }
            }
            j = j + 1;
        }
        proof {
            let b = self.items();
            lemma_selected_upto_tail(b, to.0, i as int, len as int);
            assert(is_permutation(p, a.len() as int));
            assert(rearranged(a, b));
        }
    }
}

/// Unselected groups after position `i` add nothing to the selection.
proof fn lemma_selected_upto_tail(a: Seq<SquareAndBitBoard>, to: u64, i: int, n: int)
    requires
        0 <= i <= n <= a.len(),
        forall|k: int| i <= k < n ==> !#[trigger] selected(a[k], to),
    ensures
        selected_upto(a, to, n) == selected_upto(a, to, i),
    decreases n - i,
{
    if n > i {
        lemma_selected_upto_tail(a, to, i, n - 1);
    }
}

/// When the first `n` groups are all selected, they are their own selection.
proof fn lemma_selected_upto_all(a: Seq<SquareAndBitBoard>, to: u64, n: int)
    requires
        0 <= n <= a.len(),
        forall|k: int| 0 <= k < n ==> #[trigger] selected(a[k], to),
    ensures
        selected_upto(a, to, n) == a.subrange(0, n),
    decreases n,
{
    if n > 0 {
        lemma_selected_upto_all(a, to, n - 1);
        assert(a.subrange(0, n) =~= a.subrange(0, n - 1).push(a[n - 1]));
    }
}

/// Swapping the first unselected group `i` with the selected group `j` extends the selected
/// prefix by one.
proof fn lemma_swap_selected(
    before: Seq<SquareAndBitBoard>,
    after: Seq<SquareAndBitBoard>,
    to: u64,
    i: int,
    j: int,
    a: Seq<SquareAndBitBoard>,
)
    requires
        0 <= i < j < before.len(),
        after == before.update(i, before[j]).update(j, before[i]),
        selected(before[j], to),
        forall|k: int| i <= k < j ==> !#[trigger] selected(before[k], to),
    ensures
        selected_upto(after, to, i + 1) == selected_upto(before, to, i).push(before[j]),
{
    lemma_selected_upto_prefix(before, after, to, i);
}

/// The selection of a prefix depends on the prefix alone.
proof fn lemma_selected_upto_prefix(a: Seq<SquareAndBitBoard>, b: Seq<SquareAndBitBoard>, to: u64, n: int)
    requires
        0 <= n <= a.len(),
        n <= b.len(),
        forall|k: int| 0 <= k < n ==> a[k] == b[k],
    ensures
        selected_upto(a, to, n) == selected_upto(b, to, n),
    decreases n,
{
    if n > 0 {
        lemma_selected_upto_prefix(a, b, to, n - 1);
    }
}

/// The promotions a promotion group yields each destination with, in order.
pub open spec fn promotion_piece(i: int) -> PieceType {
    if i == 0 {
        PieceType::Queen
    } else if i == 1 {
        PieceType::Knight
    } else if i == 2 {
        PieceType::Rook
    } else {
        PieceType::Bishop
    }
}

/// The moves from `sq` to the squares of `x` below `n`, in order, each with `promotion`.
pub open spec fn dest_moves(sq: Square, x: u64, promotion: Option<PieceType>, n: int) -> Seq<Move>
    decreases n,
{
    if n <= 0 {
        Seq::empty()
    } else if bit(x, n - 1) {
        dest_moves(sq, x, promotion, n - 1).push(Move { source: sq, dest: square_at(n - 1), promotion })
    } else {
        dest_moves(sq, x, promotion, n - 1)
    }
}

/// The moves the group `e` yields towards the destinations of `to`: each destination in
/// order, and for a promotion group the whole row once per promotion piece.
pub open spec fn entry_moves(e: SquareAndBitBoard, to: u64) -> Seq<Move> {
    let x = e.bitboard.0 & to;
    if e.promotion {
        dest_moves(e.square, x, Some(promotion_piece(0)), 64) + dest_moves(e.square, x, Some(promotion_piece(1)), 64)
            + dest_moves(e.square, x, Some(promotion_piece(2)), 64) + dest_moves(e.square, x, Some(promotion_piece(3)), 64)
    } else {
        dest_moves(e.square, x, None, 64)
    }
}

/// The moves the first `n` groups yield: groups whose source is outside `from` are passed
/// over, and the walk stops at the first remaining group with no destination in `to`. The
/// flag says whether it stopped.
pub open spec fn iter_upto(items: Seq<SquareAndBitBoard>, from: u64, to: u64, n: int) -> (Seq<Move>, bool)
    decreases n,
{
    if n <= 0 {
        (Seq::empty(), false)
    } else {
        let (ms, stopped) = iter_upto(items, from, to, n - 1);
        let e = items[n - 1];
        if stopped {
            (ms, true)
        } else if !bit(from, e.square.index()) {
            (ms, false)
        } else if !selected(e, to) {
            (ms, true)
        } else {
            (ms + entry_moves(e, to), false)
        }
    }
}

/// The number of moves the first `n` groups yield: groups whose source is outside `from`
/// are passed over, and the count stops at the first remaining group with no destination
/// in `to`, as the walk over them does. The flag says whether the count stopped.
pub open spec fn len_upto(items: Seq<SquareAndBitBoard>, from: u64, to: u64, n: int) -> (int, bool)
    decreases n,
{
    if n <= 0 {
        (0, false)
    } else {
        let (c, stopped) = len_upto(items, from, to, n - 1);
        let e = items[n - 1];
        if stopped {
            (c, true)
        } else if !bit(from, e.square.index()) {
            (c, false)
        } else if !selected(e, to) {
            (c, true)
        } else {
            (c + popcount(e.bitboard.0 & to) * if e.promotion { 4int } else { 1int }, false)
        }
    }
}

/// `items` with the squares of `mask` taken out of every group.
pub open spec fn without_mask(items: Seq<SquareAndBitBoard>, mask: u64) -> Seq<SquareAndBitBoard> {
    Seq::new(items.len(), |k: int| SquareAndBitBoard { bitboard: BitBoard(items[k].bitboard.0 & !mask), ..items[k] })
}

proof fn lemma_len_upto_bound(items: Seq<SquareAndBitBoard>, from: u64, to: u64, n: int)
    requires
        0 <= n <= items.len(),
    ensures
        0 <= len_upto(items, from, to, n).0 <= n * 256,
    decreases n,
{
    if n > 0 {
        lemma_len_upto_bound(items, from, to, n - 1);
        crate::bits::lemma_count_bits_bound(items[n - 1].bitboard.0 & to, 64);
    }
}

impl MoveGenerator {
    /// A generator of the legal moves of `position`, yielding all of them.
    pub fn new_legal(position: &BoardPosition) -> (r: MoveGenerator)
        requires
            position.wf(),
            popcount(position.color_mask(position.turn_)) <= 16,
        ensures
            r.gen_wf(),
            r.items() == position.all_entries(),
            r.promotion_at() == 0,
            r.from_mask() == u64::MAX,
            r.to_mask() == u64::MAX,
            r.at() == 0,
            r.last_at() == usize::MAX,
    {
        MoveGenerator {
            square_and_bitboard_array: position.enumerate_moves(),
            promotion_index: 0,
            from_bitboard_iterator_mask: BitBoard(0xffff_ffff_ffff_ffff),
            to_bitboard_iterator_mask: BitBoard(0xffff_ffff_ffff_ffff),
            index: 0,
            last_index: usize::MAX,
        }
    }

    /// Restart the iteration from the first group.
    pub fn reset_indices(&mut self)
        ensures
            final(self).at() == 0,
            final(self).last_at() == usize::MAX,
            final(self).items() == old(self).items(),
            final(self).promotion_at() == old(self).promotion_at(),
            final(self).from_mask() == old(self).from_mask(),
            final(self).to_mask() == old(self).to_mask(),
    {
        self.index = 0;
        self.last_index = usize::MAX;
    }

    pub fn get_from_bitboard_iterator_mask(&self) -> (r: BitBoard)
        ensures
            r.0 == self.from_mask(),
    {
        self.from_bitboard_iterator_mask
    }

    pub fn get_to_bitboard_iterator_mask(&self) -> (r: BitBoard)
        ensures
            r.0 == self.to_mask(),
    {
        self.to_bitboard_iterator_mask
    }

    /// Yield only moves from the squares of `mask`, restarting the iteration.
    pub fn set_from_bitboard_iterator_mask(&mut self, mask: BitBoard)
        requires
            old(self).gen_wf(),
        ensures
            final(self).gen_wf(),
            final(self).from_mask() == mask.0,
            final(self).to_mask() == old(self).to_mask(),
            reorganized(old(self).items(), final(self).items(), old(self).to_mask()),
            final(self).promotion_at() == old(self).promotion_at(),
            final(self).at() == 0,
            final(self).last_at() == usize::MAX,
    {
        self.reset_indices();
        self.from_bitboard_iterator_mask = mask;
        self.reorganize_square_and_bitboard_array();
    }

    /// Yield only moves to the squares of `mask`, restarting the iteration.
    pub fn set_to_bitboard_iterator_mask(&mut self, mask: BitBoard)
        requires
            old(self).gen_wf(),
        ensures
            final(self).gen_wf(),
            final(self).from_mask() == old(self).from_mask(),
            final(self).to_mask() == mask.0,
            reorganized(old(self).items(), final(self).items(), mask.0),
            final(self).promotion_at() == old(self).promotion_at(),
            final(self).at() == 0,
            final(self).last_at() == usize::MAX,
    {
        self.reset_indices();
        self.to_bitboard_iterator_mask = mask;
        self.reorganize_square_and_bitboard_array();
    }

    /// Yield only moves from the squares of `from_bitboard` to those of `to_bitboard`,
    /// restarting the iteration.
    pub fn set_iterator_masks(&mut self, from_bitboard: BitBoard, to_bitboard: BitBoard)
        requires
            old(self).gen_wf(),
        ensures
            final(self).gen_wf(),
            final(self).from_mask() == from_bitboard.0,
            final(self).to_mask() == to_bitboard.0,
            reorganized(old(self).items(), final(self).items(), to_bitboard.0),
            final(self).promotion_at() == old(self).promotion_at(),
            final(self).at() == 0,
            final(self).last_at() == usize::MAX,
    {
        self.reset_indices();
        self.from_bitboard_iterator_mask = from_bitboard;
        self.to_bitboard_iterator_mask = to_bitboard;
        self.reorganize_square_and_bitboard_array();
    }

    /// Take the squares of `mask` out of every group.
    pub fn remove_mask(&mut self, mask: BitBoard)
        requires
            old(self).gen_wf(),
        ensures
            final(self).gen_wf(),
            reorganized(without_mask(old(self).items(), mask.0), final(self).items(), old(self).to_mask()),
            final(self).from_mask() == old(self).from_mask(),
            final(self).to_mask() == old(self).to_mask(),
            final(self).promotion_at() == old(self).promotion_at(),
            final(self).at() == old(self).at(),
            final(self).last_at() == old(self).last_at(),
    {
        let ghost a = self.items();
        let ghost start = *self;
        let len = list_len(&self.square_and_bitboard_array);
        let mut k: usize = 0;
        while k < len
            invariant
                k <= len,
                len == a.len(),
                self.items().len() == len,
                forall|l: int| 0 <= l < k ==> #[trigger] self.items()[l] == without_mask(a, mask.0)[l],
                forall|l: int| k <= l < len ==> #[trigger] self.items()[l] == a[l],
                self.promotion_index == start.promotion_index,
                self.from_bitboard_iterator_mask == start.from_bitboard_iterator_mask,
                self.to_bitboard_iterator_mask == start.to_bitboard_iterator_mask,
                self.index == start.index,
                self.last_index == start.last_index,
            decreases len - k,
        {
            let e = crate::move_list::list_get(&self.square_and_bitboard_array, k);
            let cleared = SquareAndBitBoard::new(e.square, e.bitboard.and_not(mask), e.promotion);
            crate::move_list::list_set(&mut self.square_and_bitboard_array, k, cleared);
            k = k + 1;
        }
        proof {
            assert(self.items() =~= without_mask(a, mask.0));
        }
        self.reorganize_square_and_bitboard_array();
    }

    /// Take the squares of `mask` out of every group, leaving the groups where they are.
    pub(crate) fn clear_mask(&mut self, mask: BitBoard)
        requires
            old(self).gen_wf(),
        ensures
            final(self).gen_wf(),
            final(self).items() == without_mask(old(self).items(), mask.0),
            final(self).from_mask() == old(self).from_mask(),
            final(self).to_mask() == old(self).to_mask(),
            final(self).promotion_at() == old(self).promotion_at(),
            final(self).at() == old(self).at(),
            final(self).last_at() == old(self).last_at(),
    {
        let ghost a = self.items();
        let ghost start = *self;
        let len = list_len(&self.square_and_bitboard_array);
        let mut k: usize = 0;
        while k < len
            invariant
                k <= len,
                len == a.len(),
                self.items().len() == len,
                forall|l: int| 0 <= l < k ==> #[trigger] self.items()[l] == without_mask(a, mask.0)[l],
                forall|l: int| k <= l < len ==> #[trigger] self.items()[l] == a[l],
                self.promotion_index == start.promotion_index,
                self.from_bitboard_iterator_mask == start.from_bitboard_iterator_mask,
                self.to_bitboard_iterator_mask == start.to_bitboard_iterator_mask,
                self.index == start.index,
                self.last_index == start.last_index,
            decreases len - k,
        {
            let e = crate::move_list::list_get(&self.square_and_bitboard_array, k);
            let cleared = SquareAndBitBoard::new(e.square, e.bitboard.and_not(mask), e.promotion);
            crate::move_list::list_set(&mut self.square_and_bitboard_array, k, cleared);
            k = k + 1;
        }
        proof {
            assert(self.items() =~= without_mask(a, mask.0));
        }
    }

    /// Take the destination of `move_` out of the first group of its source, if there is one,
    /// leaving the groups where they are, and say whether there was one.
    pub(crate) fn clear_move(&mut self, move_: Move) -> (r: bool)
        requires
            old(self).gen_wf(),
        ensures
            final(self).gen_wf(),
            r == exists|k: int| 0 <= k < old(self).items().len() && (#[trigger] old(self).items()[k]).square == move_.source,
            r ==> exists|j: int| {
                &&& 0 <= j < old(self).items().len()
                &&& (#[trigger] old(self).items()[j]).square == move_.source
                &&& forall|k: int| 0 <= k < j ==> (#[trigger] old(self).items()[k]).square != move_.source
                &&& final(self).items() == old(self).items().update(j, SquareAndBitBoard { bitboard: BitBoard(old(self).items()[j].bitboard.0 & !(1u64 << (move_.dest.index() as u64))), ..old(self).items()[j] })
            },
            !r ==> final(self).items() == old(self).items(),
            final(self).from_mask() == old(self).from_mask(),
            final(self).to_mask() == old(self).to_mask(),
            final(self).promotion_at() == old(self).promotion_at(),
            final(self).at() == old(self).at(),
            final(self).last_at() == old(self).last_at(),
    {
        let ghost a = self.items();
        let ghost start = *self;
        let len = list_len(&self.square_and_bitboard_array);
        let mut k: usize = 0;
        while k < len
            invariant
                k <= len,
                len == a.len(),
                *self == start,
                a == start.items(),
                start == *old(self),
                start.gen_wf(),
                forall|l: int| 0 <= l < k ==> (#[trigger] a[l]).square != move_.source,
            decreases len - k,
        {
            let e = crate::move_list::list_get(&self.square_and_bitboard_array, k);
            if e.square == move_.source {
                let cleared = SquareAndBitBoard::new(e.square, e.bitboard.and_not(move_.dest.to_bitboard()), e.promotion);
                crate::move_list::list_set(&mut self.square_and_bitboard_array, k, cleared);
                proof {
                    assert(cleared == SquareAndBitBoard { bitboard: BitBoard(a[k as int].bitboard.0 & !(1u64 << (move_.dest.index() as u64))), ..a[k as int] });
                    assert(a[k as int].square == move_.source);
                }
                return true;
            }
            k = k + 1;
        }
        false
    }

    /// Is there a group for the source of `move_`?
    pub fn contains(&self, move_: &Move) -> (r: bool)
        ensures
            r == exists|k: int| 0 <= k < self.items().len() && (#[trigger] self.items()[k]).square == move_.source,
    {
        let len = list_len(&self.square_and_bitboard_array);
        let mut k: usize = 0;
        while k < len
            invariant
                k <= len,
                len == self.items().len(),
                forall|l: int| 0 <= l < k ==> (#[trigger] self.items()[l]).square != move_.source,
            decreases len - k,
        {
            if crate::move_list::list_get(&self.square_and_bitboard_array, k).square == move_.source {
                return true;
            }
            k = k + 1;
        }
        false
    }

    /// Take the destination of `move_` out of the first group of its source, if there is one,
    /// and say whether there was.
    pub fn remove_move(&mut self, move_: Move) -> (r: bool)
        requires
            old(self).gen_wf(),
        ensures
            final(self).gen_wf(),
            r == exists|k: int| 0 <= k < old(self).items().len() && (#[trigger] old(self).items()[k]).square == move_.source,
            r ==> exists|j: int| {
                &&& 0 <= j < old(self).items().len()
                &&& (#[trigger] old(self).items()[j]).square == move_.source
                &&& forall|k: int| 0 <= k < j ==> (#[trigger] old(self).items()[k]).square != move_.source
                &&& reorganized(
                    old(self).items().update(j, SquareAndBitBoard { bitboard: BitBoard(old(self).items()[j].bitboard.0 & !(1u64 << (move_.dest.index() as u64))), ..old(self).items()[j] }),
                    final(self).items(),
                    old(self).to_mask(),
                )
            },
            !r ==> reorganized(old(self).items(), final(self).items(), old(self).to_mask()),
            final(self).from_mask() == old(self).from_mask(),
            final(self).to_mask() == old(self).to_mask(),
            final(self).promotion_at() == old(self).promotion_at(),
            final(self).at() == old(self).at(),
            final(self).last_at() == old(self).last_at(),
    {
        let ghost a = self.items();
        let ghost start = *self;
        let len = list_len(&self.square_and_bitboard_array);
        let mut k: usize = 0;
        while k < len
            invariant
                k <= len,
                len == a.len(),
                *self == start,
                a == start.items(),
                start == *old(self),
                start.gen_wf(),
                forall|l: int| 0 <= l < k ==> (#[trigger] a[l]).square != move_.source,
            decreases len - k,
        {
            let e = crate::move_list::list_get(&self.square_and_bitboard_array, k);
            if e.square == move_.source {
                let cleared = SquareAndBitBoard::new(e.square, e.bitboard.and_not(move_.dest.to_bitboard()), e.promotion);
                crate::move_list::list_set(&mut self.square_and_bitboard_array, k, cleared);
                proof {
                    assert(cleared == SquareAndBitBoard { bitboard: BitBoard(a[k as int].bitboard.0 & !(1u64 << (move_.dest.index() as u64))), ..a[k as int] });
                }
                self.reorganize_square_and_bitboard_array();
                proof {
                    assert(a[k as int].square == move_.source);
                }
                return true;
            }
            k = k + 1;
        }
        self.reorganize_square_and_bitboard_array();
        false
    }

    /// The number of moves a walk over the groups yields (see `iter`): groups whose source is
    /// outside the source mask are passed over, and the walk stops at the first remaining
    /// group with no destination in the destination mask.
    pub fn len(&self) -> (r: usize)
        requires
            self.gen_wf(),
        ensures
            r == len_upto(self.items(), self.from_mask(), self.to_mask(), self.items().len() as int).0,
            r == iter_upto(self.items(), self.from_mask(), self.to_mask(), self.items().len() as int).0.len(),
    {
        proof {
            lemma_len_is_iter_len(self.items(), self.from_mask(), self.to_mask(), self.items().len() as int);
        }
        let len = list_len(&self.square_and_bitboard_array);
        let from = self.from_bitboard_iterator_mask;
        let to = self.to_bitboard_iterator_mask;
        let mut result: usize = 0;
        let mut k: usize = 0;
        while k < len
            invariant
                k <= len,
                len == self.items().len(),
                len <= 18,
                from.0 == self.from_mask(),
                to.0 == self.to_mask(),
                len_upto(self.items(), from.0, to.0, k as int) == (result as int, false),
                len_upto(self.items(), from.0, to.0, len as int).0 == iter_upto(self.items(), from.0, to.0, len as int).0.len(),
            decreases len - k,
        {
            let e = crate::move_list::list_get(&self.square_and_bitboard_array, k);
            let masked = e.bitboard.and(to);
            proof {
                lemma_len_upto_bound(self.items(), from.0, to.0, k as int);
            }
            if !from.contains(e.square) {
                k = k + 1;
                continue;
            }
            if masked.0 == 0 {
                proof {
                    lemma_len_upto_stopped(self.items(), from.0, to.0, k as int + 1, len as int);
                }
                return result;
            }
            let n = masked.popcnt() as usize;
            if e.promotion {
                result = result + n * 4;
            } else {
                result = result + n;
            }
            k = k + 1;
        }
        result
    }
}

/// `dest_moves` has one move per set bit of `x` below `n`.
proof fn lemma_dest_moves_len(sq: Square, x: u64, promotion: Option<PieceType>, n: int)
    ensures
        dest_moves(sq, x, promotion, n).len() == crate::bits::count_bits(x, n),
    decreases n,
{
    if n > 0 {
        lemma_dest_moves_len(sq, x, promotion, n - 1);
    }
}

/// Counting the moves of the groups gives the number of moves the walk over them yields,
/// and both stop at the same group.
pub proof fn lemma_len_is_iter_len(items: Seq<SquareAndBitBoard>, from: u64, to: u64, n: int)
    requires
        0 <= n <= items.len(),
    ensures
        len_upto(items, from, to, n).0 == iter_upto(items, from, to, n).0.len(),
        len_upto(items, from, to, n).1 == iter_upto(items, from, to, n).1,
    decreases n,
{
    if n > 0 {
        lemma_len_is_iter_len(items, from, to, n - 1);
        let e = items[n - 1];
        let x = e.bitboard.0 & to;
        lemma_dest_moves_len(e.square, x, Some(promotion_piece(0)), 64);
        lemma_dest_moves_len(e.square, x, Some(promotion_piece(1)), 64);
        lemma_dest_moves_len(e.square, x, Some(promotion_piece(2)), 64);
        lemma_dest_moves_len(e.square, x, Some(promotion_piece(3)), 64);
        lemma_dest_moves_len(e.square, x, None, 64);
        assert(popcount(x) == crate::bits::count_bits(x, 64));
    }
}

/// Once the count has stopped it stays where it is.
proof fn lemma_len_upto_stopped(items: Seq<SquareAndBitBoard>, from: u64, to: u64, k: int, n: int)
    requires
        0 < k <= n <= items.len(),
        len_upto(items, from, to, k).1,
    ensures
        len_upto(items, from, to, n) == len_upto(items, from, to, k),
    decreases n - k,
{
    if n > k {
        lemma_len_upto_stopped(items, from, to, k, n - 1);
    }
}

/// The first group at or after `i` whose source is in `from`, or the number of groups.
pub open spec fn skip_from(items: Seq<SquareAndBitBoard>, from: u64, i: int) -> int
    decreases items.len() - i,
{
    if i >= items.len() || i < 0 {
        i
    } else if bit(from, items[i].square.index()) {
        i
    } else {
        skip_from(items, from, i + 1)
    }
}

/// The lowest set bit of `x`.
pub open spec fn lowest_bit(x: u64) -> int {
    choose|i: int| bit(x, i) && forall|j: int| 0 <= j < i ==> !#[trigger] bit(x, j)
}

proof fn lemma_lowest_bit(x: u64, i: int)
    requires
        bit(x, i),
        forall|j: int| 0 <= j < i ==> !#[trigger] bit(x, j),
    ensures
        lowest_bit(x) == i,
{
    let l = lowest_bit(x);
    assert(bit(l_x(x), l_i(x, i)));
    if l < i {
        assert(!bit(x, l));
    }
    if l > i {
        assert(!bit(x, i));
    }
}

spec fn l_x(x: u64) -> u64 {
    x
}

spec fn l_i(x: u64, i: int) -> int {
    lowest_bit(x)
}

proof fn lemma_skip_from(items: Seq<SquareAndBitBoard>, from: u64, i: int)
    requires
        0 <= i,
    ensures
        i <= skip_from(items, from, i),
        skip_from(items, from, i) < items.len() ==> bit(from, items[skip_from(items, from, i)].square.index()),
        skip_from(items, from, i) >= items.len() ==> skip_from(items, from, i) == if i >= items.len() { i } else { items.len() as int },
        forall|k: int| i <= k < skip_from(items, from, i) ==> !bit(from, (#[trigger] items[k]).square.index()),
    decreases items.len() - i,
{
    if i < items.len() && !bit(from, items[i].square.index()) {
        lemma_skip_from(items, from, i + 1);
    }
}

impl MoveGenerator {
    /// The group the next move comes from: the current one when it was already checked
    /// against the source mask, else the first one from there whose source is in the mask.
    pub open spec fn next_index(self) -> int {
        if self.at() >= self.items().len() || self.at() == self.last_at() {
            self.at()
        } else {
            skip_from(self.items(), self.from_mask(), self.at())
        }
    }

    /// What a call of `next` does: it yields the lowest selected destination of the current
    /// group (once per promotion piece for a promotion group), takes it out of the group, and
    /// moves on to the next group when nothing selected is left; it yields nothing when the
    /// groups run out or the current group has nothing selected.
    pub open spec fn next_step(self, after: MoveGenerator, r: Option<Move>) -> bool {
        let len = self.items().len();
        let i = self.next_index();
        &&& after.from_mask() == self.from_mask()
        &&& after.to_mask() == self.to_mask()
        &&& if self.at() >= len {
            r is None && after.items() == self.items() && after.at() == self.at() && after.last_at() == self.last_at()
                && after.promotion_at() == self.promotion_at()
        } else if i >= len {
            r is None && after.items() == self.items() && after.at() == i && after.last_at() == self.last_at()
                && after.promotion_at() == self.promotion_at()
        } else {
            let e = self.items()[i];
            let x = e.bitboard.0 & self.to_mask();
            let d = lowest_bit(x);
            let cleared = SquareAndBitBoard { bitboard: BitBoard(e.bitboard.0 ^ (1u64 << (d as u64))), ..e };
            &&& after.last_at() == i
            &&& if !bit(self.from_mask(), e.square.index()) || x == 0 {
                r is None && after.items() == self.items() && after.at() == i && after.promotion_at() == self.promotion_at()
            } else if e.promotion {
                &&& r == Some(Move { source: e.square, dest: square_at(d), promotion: Some(promotion_piece(self.promotion_at())) })
                &&& if self.promotion_at() + 1 >= 4 {
                    &&& after.promotion_at() == 0
                    &&& after.items() == self.items().update(i, cleared)
                    &&& after.at() == if cleared.bitboard.0 & self.to_mask() == 0 { i + 1 } else { i }
                } else {
                    &&& after.promotion_at() == self.promotion_at() + 1
                    &&& after.items() == self.items()
                    &&& after.at() == i
                }
            } else {
                &&& r == Some(Move { source: e.square, dest: square_at(d), promotion: None })
                &&& after.promotion_at() == self.promotion_at()
                &&& after.items() == self.items().update(i, cleared)
                &&& after.at() == if cleared.bitboard.0 & self.to_mask() == 0 { i + 1 } else { i }
            }
        }
    }

    /// The next move of the iteration, if any (see `next_step`).
    pub fn next(&mut self) -> (r: Option<Move>)
        requires
            old(self).gen_wf(),
            old(self).at() < usize::MAX,
        ensures
            final(self).gen_wf(),
            old(self).next_step(*final(self), r),
    {
        let len = list_len(&self.square_and_bitboard_array);
        if self.index >= len {
            return None;
        }
        proof {
            lemma_skip_from(self.items(), self.from_mask(), self.at());
        }
        if self.index != self.last_index {
            let ghost start = *self;
            while !self.from_bitboard_iterator_mask.contains(crate::move_list::list_get(&self.square_and_bitboard_array, self.index).square)
                invariant
                    self.index < len,
                    len == self.items().len(),
                    self.items() == start.items(),
                    self.from_bitboard_iterator_mask == start.from_bitboard_iterator_mask,
                    self.to_bitboard_iterator_mask == start.to_bitboard_iterator_mask,
                    self.promotion_index == start.promotion_index,
                    self.last_index == start.last_index,
                    start.at() <= self.index <= skip_from(start.items(), start.from_mask(), start.at()),
                    forall|k: int| start.at() <= k < skip_from(start.items(), start.from_mask(), start.at()) ==> !bit(
                        start.from_mask(),
                        (#[trigger] start.items()[k]).square.index(),
                    ),
                    skip_from(start.items(), start.from_mask(), start.at()) < start.items().len() ==> bit(
                        start.from_mask(),
                        start.items()[skip_from(start.items(), start.from_mask(), start.at())].square.index(),
                    ),
                    skip_from(start.items(), start.from_mask(), start.at()) >= start.items().len() ==> skip_from(
                        start.items(),
                        start.from_mask(),
                        start.at(),
                    ) == start.items().len(),
                    self.square_and_bitboard_array == start.square_and_bitboard_array,
                    start == *old(self),
                    start.gen_wf(),
                    start.index != start.last_index,
                    start.index < len,
                decreases len - self.index,
            {
                let ghost before = self.index as int;
                proof {
                    assert(!bit(start.from_mask(), start.items()[before].square.index()));
                    assert(before < skip_from(start.items(), start.from_mask(), start.at()));
                }
                self.index = self.index + 1;
                if self.index >= len {
                    proof {
                        assert(skip_from(start.items(), start.from_mask(), start.at()) == len);
                        assert(start.next_index() == len);
                    }
                    return None;
                }
            }
            self.last_index = self.index;
        }
        let e = crate::move_list::list_get(&self.square_and_bitboard_array, self.index);
        let i = self.index;
        let masked = e.bitboard.and(self.to_bitboard_iterator_mask);
        if !self.from_bitboard_iterator_mask.contains(e.square) || masked.0 == 0 {
            return None;
        }
        let dest = masked.to_square_unchecked();
        proof {
            assert forall|j: int| 0 <= j < dest.index() implies !#[trigger] bit(masked.0, j) by {
                assert(!masked.has(j));
            }
            lemma_lowest_bit(masked.0, dest.index());
        }
        let cleared = SquareAndBitBoard::new(e.square, e.bitboard.xor(dest.to_bitboard()), e.promotion);
        if e.promotion {
            let promotion = match self.promotion_index {
                0 => PieceType::Queen,
                1 => PieceType::Knight,
                2 => PieceType::Rook,
                _ => PieceType::Bishop,
            };
            let result = Move::new_unchecked(e.square, dest, Some(promotion));
            self.promotion_index = self.promotion_index + 1;
            if self.promotion_index >= 4 {
                crate::move_list::list_set(&mut self.square_and_bitboard_array, i, cleared);
                self.promotion_index = 0;
                if cleared.bitboard.and(self.to_bitboard_iterator_mask).0 == 0 {
                    self.index = self.index + 1;
                }
            }
            Some(result)
        } else {
            crate::move_list::list_set(&mut self.square_and_bitboard_array, i, cleared);
            if cleared.bitboard.and(self.to_bitboard_iterator_mask).0 == 0 {
                self.index = self.index + 1;
            }
            Some(Move::new_unchecked(e.square, dest, None))
        }
    }
}

/// Append the moves from `sq` to the squares of `x`, in order, each with `promotion`.
fn push_dest_moves(v: &mut Vec<Move>, sq: Square, x: BitBoard, promotion: Option<PieceType>)
    ensures
        final(v)@ == old(v)@ + dest_moves(sq, x.0, promotion, 64),
{
    let ghost v0 = v@;
    let mut k: usize = 0;
    while k < 64
        invariant
            k <= 64,
            v@ == v0 + dest_moves(sq, x.0, promotion, k as int),
        decreases 64 - k,
    {
        let dest = Square::from_index(k);
        if x.contains(dest) {
            v.push(Move::new_unchecked(sq, dest, promotion));
            proof {
                assert(v@ =~= v0 + dest_moves(sq, x.0, promotion, k as int + 1));
            }
        }
        k = k + 1;
    }
}

impl MoveGenerator {
    /// The moves the groups yield, in order: groups whose source is outside the source mask
    /// are passed over, and the walk stops at the first remaining group with no destination
    /// in the destination mask.
    pub fn iter(&self) -> (r: Vec<Move>)
        requires
            self.gen_wf(),
        ensures
            r@ == iter_upto(self.items(), self.from_mask(), self.to_mask(), self.items().len() as int).0,
    {
        let len = list_len(&self.square_and_bitboard_array);
        let from = self.from_bitboard_iterator_mask;
        let to = self.to_bitboard_iterator_mask;
        let mut v: Vec<Move> = Vec::new();
        let mut stopped = false;
        let mut k: usize = 0;
        while k < len
            invariant
                k <= len,
                len == self.items().len(),
                from.0 == self.from_mask(),
                to.0 == self.to_mask(),
                iter_upto(self.items(), from.0, to.0, k as int) == (v@, stopped),
            decreases len - k,
        {
            if !stopped {
                let e = crate::move_list::list_get(&self.square_and_bitboard_array, k);
                let masked = e.bitboard.and(to);
                if from.contains(e.square) {
                    if masked.0 == 0 {
                        stopped = true;
                    } else if e.promotion {
                        let ghost v0 = v@;
                        push_dest_moves(&mut v, e.square, masked, Some(PieceType::Queen));
                        push_dest_moves(&mut v, e.square, masked, Some(PieceType::Knight));
                        push_dest_moves(&mut v, e.square, masked, Some(PieceType::Rook));
                        push_dest_moves(&mut v, e.square, masked, Some(PieceType::Bishop));
                        proof {
                            assert(v@ =~= v0 + entry_moves(e, to.0));
                        }
                    } else {
                        push_dest_moves(&mut v, e.square, masked, None);
                    }
                }
            }
            k = k + 1;
        }
        v
    }

    /// Whether `move_`, one of the moves generated for `position`, is legal, rechecking only
    /// what the generation leaves to the caller: en passant captures, and the squares a king
    /// goes to and passes.
    pub fn is_legal_quick(position: &BoardPosition, move_: Move) -> (r: bool)
        requires
            position.wf(),
            position.type_on(move_.source.index()) is Some,
        ensures
            r == match position.type_on(move_.source.index()).unwrap() {
                PieceType::Pawn => if fl(move_.source.index()) != fl(move_.dest.index()) && position.type_on(move_.dest.index()) is None {
                    position.ep_legal(Move { source: move_.source, dest: move_.dest, promotion: None })
                } else {
                    true
                },
                PieceType::King => if crate::bits::popcount(position.between_mask(move_)) == 1 {
                    position.king_move_safe(lowest_bit(position.between_mask(move_))) && position.king_move_safe(move_.dest.index())
                } else {
                    position.king_move_safe(move_.dest.index())
                },
                _ => true,
            },
    {
        let piece = match position.get_piece_type_at(move_.source) {
            Some(t) => t,
            None => PieceType::Pawn,
        };
        match piece {
            PieceType::Pawn => {
                if move_.source.get_file() != move_.dest.get_file() && position.get_piece_type_at(move_.dest).is_none() {
                    position.legal_ep_move(move_.source, move_.dest)
                } else {
                    true
                }
            },
            PieceType::King => {
                let bb = move_.source.between(move_.dest);
                proof {
                    assert forall|c: int| #[trigger] bit(bb.0, c) == crate::attacks::between_spec(move_.source.index(), move_.dest.index(), c) by {
                        assert(bb.has(c) == crate::attacks::between_spec(move_.source.index(), move_.dest.index(), c));
                    }
                    assert(is_between_mask(move_, bb.0));
                    crate::bits::lemma_count_bits_zero(bb.0, 64);
                    crate::bits::lemma_zero_iff_no_bits(bb.0);
                    let c = position.between_mask(move_);
                    crate::bits::lemma_mask_of(|x: int| crate::attacks::between_spec(move_.source.index(), move_.dest.index(), x), 64);
                    assert(is_between_mask(move_, c));
                    lemma_eq_iff_bits(bb.0, c);
                }
                if bb.popcnt() == 1 {
                    let mid = bb.to_square_unchecked();
                    proof {
                        assert forall|j: int| 0 <= j < mid.index() implies !#[trigger] bit(bb.0, j) by {
                            assert(!bb.has(j));
                        }
                        lemma_lowest_bit(bb.0, mid.index());
                    }
                    if !position.legal_king_move(mid) {
                        false
                    } else {
                        position.legal_king_move(move_.dest)
                    }
                } else {
                    position.legal_king_move(move_.dest)
                }
            },
            _ => true,
        }
    }
}

/// `x` holds the squares strictly between the source and the destination of `m`.
pub open spec fn is_between_mask(m: Move, x: u64) -> bool {
    forall|c: int| #[trigger] bit(x, c) == crate::attacks::between_spec(m.source.index(), m.dest.index(), c)
}

impl BoardPosition {
    /// The squares strictly between the source and the destination of `m`, as a mask.
    pub open spec fn between_mask(self, m: Move) -> u64 {
        crate::bits::mask_of(|c: int| crate::attacks::between_spec(m.source.index(), m.dest.index(), c), 64)
    }
}

/// The group `e` lists `m`: same source, a destination of the group, and the promotion the
/// group calls for.
pub open spec fn lists(e: SquareAndBitBoard, m: Move) -> bool {
    &&& e.square == m.source
    &&& bit(e.bitboard.0, m.dest.index())
    &&& if e.promotion {
        m.promotion == Some(PieceType::Queen) || m.promotion == Some(PieceType::Knight) || m.promotion == Some(PieceType::Rook)
            || m.promotion == Some(PieceType::Bishop)
    } else {
        m.promotion is None
    }
}

impl BoardPosition {
    /// One of the groups of the position lists `m`.
    pub open spec fn generated(self, m: Move) -> bool {
        exists|e: SquareAndBitBoard| #[trigger] self.all_entries().contains(e) && lists(e, m)
    }

    pub proof fn lemma_group_contains(self, pt: PieceType, pinned: bool, n: int, e: SquareAndBitBoard)
        ensures
            self.group_entries(pt, pinned, n).contains(e) <==> exists|s: int| 0 <= s < n && #[trigger] self.in_group(pt, pinned, s)
                && e == self.entry_at(s),
        decreases n,
    {
        broadcast use vstd::seq_lib::lemma_seq_contains_after_push;
        if n > 0 {
            self.lemma_group_contains(pt, pinned, n - 1, e);
        }
    }

    /// The piece on `s` has a group of its own.
    pub open spec fn has_group(self, s: int) -> bool {
        0 <= s < 64 && self.in_group(self.type_on(s).unwrap(), bit(self.pinned_bb.0, s), s)
    }

    pub proof fn lemma_type_groups_contain(self, pt: PieceType, e: SquareAndBitBoard)
        ensures
            (self.group_entries(pt, false, 64) + self.group_entries(pt, true, 64)).contains(e) <==> exists|s: int|
                #[trigger] self.has_group(s) && self.type_on(s) == Some(pt) && e == self.entry_at(s),
    {
        broadcast use vstd::seq_lib::lemma_seq_concat_contains_all_elements;
        self.lemma_group_contains(pt, false, 64, e);
        self.lemma_group_contains(pt, true, 64, e);
        if (self.group_entries(pt, false, 64) + self.group_entries(pt, true, 64)).contains(e) {
            if self.group_entries(pt, false, 64).contains(e) {
                let s = choose|s: int| 0 <= s < 64 && #[trigger] self.in_group(pt, false, s) && e == self.entry_at(s);
                assert(self.has_group(s));
            } else {
                let s = choose|s: int| 0 <= s < 64 && #[trigger] self.in_group(pt, true, s) && e == self.entry_at(s);
                assert(self.has_group(s));
            }
        }
        if exists|s: int| #[trigger] self.has_group(s) && self.type_on(s) == Some(pt) && e == self.entry_at(s) {
            let s = choose|s: int| #[trigger] self.has_group(s) && self.type_on(s) == Some(pt) && e == self.entry_at(s);
            if bit(self.pinned_bb.0, s) {
                assert(self.in_group(pt, true, s));
            } else {
                assert(self.in_group(pt, false, s));
            }
        }
    }

    pub proof fn lemma_all_entries_contains(self, e: SquareAndBitBoard)
        ensures
            self.all_entries().contains(e) <==> (exists|s: int| #[trigger] self.has_group(s) && e == self.entry_at(s))
                || self.ep_group(true).contains(e) || self.ep_group(false).contains(e),
    {
        broadcast use vstd::seq_lib::lemma_seq_concat_contains_all_elements;
        self.lemma_type_groups_contain(PieceType::Pawn, e);
        self.lemma_type_groups_contain(PieceType::Knight, e);
        self.lemma_type_groups_contain(PieceType::Bishop, e);
        self.lemma_type_groups_contain(PieceType::Rook, e);
        self.lemma_type_groups_contain(PieceType::Queen, e);
        self.lemma_type_groups_contain(PieceType::King, e);
        assert(self.type_entries(PieceType::Pawn) =~= (self.group_entries(PieceType::Pawn, false, 64) + self.group_entries(PieceType::Pawn, true, 64)) + (self.ep_group(true) + self.ep_group(false)));
        assert(self.type_entries(PieceType::Knight) =~= self.group_entries(PieceType::Knight, false, 64) + self.group_entries(PieceType::Knight, true, 64));
        assert(self.type_entries(PieceType::Bishop) =~= self.group_entries(PieceType::Bishop, false, 64) + self.group_entries(PieceType::Bishop, true, 64));
        assert(self.type_entries(PieceType::Rook) =~= self.group_entries(PieceType::Rook, false, 64) + self.group_entries(PieceType::Rook, true, 64));
        assert(self.type_entries(PieceType::Queen) =~= self.group_entries(PieceType::Queen, false, 64) + self.group_entries(PieceType::Queen, true, 64));
        assert(self.type_entries(PieceType::King) =~= self.group_entries(PieceType::King, false, 64) + self.group_entries(PieceType::King, true, 64));
        if exists|s: int| #[trigger] self.has_group(s) && e == self.entry_at(s) {
            let s = choose|s: int| #[trigger] self.has_group(s) && e == self.entry_at(s);
            let pt = self.type_on(s).unwrap();
            assert(self.type_on(s) == Some(pt));
            assert((self.group_entries(pt, false, 64) + self.group_entries(pt, true, 64)).contains(e));
            assert(self.type_entries(pt).contains(e));
        }
    }
}

impl BoardPosition {
    /// Every move the groups of a position list is legal.
    #[verifier::rlimit(40)]
    pub proof fn lemma_generated_is_legal(self, m: Move)
        requires
            self.wf(),
            self.generated(m),
        ensures
            self.legal_spec(m),
    {
        let s = m.source.index();
        let d = m.dest.index();
        let first = Move { source: m.source, dest: m.dest, promotion: self.first_promotion(s) };
        assert(square_at(s) == m.source && square_at(d) == m.dest);
        lemma_piece_at_facts(self, s);
        let e = choose|e: SquareAndBitBoard| #[trigger] self.all_entries().contains(e) && lists(e, m);
        self.lemma_all_entries_contains(e);
        if exists|t: int| #[trigger] self.has_group(t) && e == self.entry_at(t) {
            let t = choose|t: int| #[trigger] self.has_group(t) && e == self.entry_at(t);
            assert(t == s);
            crate::bits::lemma_mask_of(|x: int| self.entry_dest(s, x), 64);
            assert(bit(e.bitboard.0, d));
            assert(self.entry_dest(s, d));
            if self.normal_legal(first) {
                if self.promotes_from(s) {
                    self.lemma_promotion_choice(first, m);
                }
            }
        } else if self.ep_group(true).contains(e) {
            assert(self.ep_legal(m));
        } else {
            assert(self.ep_legal(m));
        }
    }

    /// Every legal move is listed by one of the groups of the position.
    pub proof fn lemma_legal_is_generated(self, m: Move)
        requires
            self.wf(),
            self.legal_spec(m),
        ensures
            self.generated(m),
    {
        let s = m.source.index();
        let d = m.dest.index();
        let first = Move { source: m.source, dest: m.dest, promotion: self.first_promotion(s) };
        assert(square_at(s) == m.source && square_at(d) == m.dest);
        lemma_piece_at_facts(self, s);
        crate::bits::lemma_mask_of(|x: int| self.entry_dest(s, x), 64);
        if self.normal_legal(m) {
            if self.promotes_from(s) {
                self.lemma_promotion_choice(first, m);
            } else {
                assert(first == m);
            }
            assert(self.entry_dest(s, d));
            assert(bit(self.entry_mask(s), d));
            assert(self.has_group(s));
            let e = self.entry_at(s);
            self.lemma_all_entries_contains(e);
            assert(lists(e, m));
        } else if self.ep_legal(m) {
            let left = fl(s) == fl(d) - 1;
            assert(self.ep_candidate(left) == s);
            let e = SquareAndBitBoard { square: square_at(s), bitboard: BitBoard(1u64 << (d as u64)), promotion: false };
            assert(self.ep_group(left) =~= seq![e]);
            assert(self.ep_group(left).contains(e)) by {
                assert(self.ep_group(left)[0] == e);
            }
            self.lemma_all_entries_contains(e);
            assert(lists(e, m));
        } else {
            crate::position_move::lemma_king_bits(self, self.turn_, s);
            assert(self.entry_dest(s, d));
            assert(bit(self.entry_mask(s), d));
            assert(self.has_group(s));
            let e = self.entry_at(s);
            self.lemma_all_entries_contains(e);
            assert(lists(e, m));
        }
    }

    /// The groups of a position list exactly its legal moves.
    pub proof fn lemma_generated_iff_legal(self, m: Move)
        requires
            self.wf(),
        ensures
            self.generated(m) <==> self.legal_spec(m),
    {
        if self.generated(m) {
            self.lemma_generated_is_legal(m);
        }
        if self.legal_spec(m) {
            self.lemma_legal_is_generated(m);
        }
    }
}

impl MoveGenerator {
    /// Does the side to move in `position` have a group of legal moves?
    pub fn has_legal_moves(position: &BoardPosition) -> (r: bool)
        requires
            position.wf(),
            popcount(position.color_mask(position.turn_)) <= 16,
        ensures
            r == (position.all_entries().len() > 0),
    {
        let moves = MoveGenerator::new_legal(position);
        list_len(&moves.square_and_bitboard_array) > 0
    }
}

} // verus!
