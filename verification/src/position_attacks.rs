//! Attacks in a position: attacked squares, attackers, checkers and pinned pieces.
use vstd::prelude::*;
use crate::attacks::{between_spec, bishop_attack, rook_attack};
use crate::bitboard::BitBoard;
use crate::bits::{bit, group_bit_facts, lemma_count_bits_one, lemma_count_bits_one_witness, only_bit, popcount};
use crate::piece::{Piece, PieceType};
use crate::position::{lemma_piece_at_facts, piece_attack, piece_attacks, BoardPosition};
use crate::types::{group_square_facts, square_at, Color, Square};

verus! {

broadcast use group_bit_facts, group_square_facts;

impl BoardPosition {
    /// `k` holds a king of `color`.
    pub open spec fn king_at(self, color: Color, k: int) -> bool {
        bit(self.kings.0 & self.color_mask(color), k)
    }

    /// An enemy slider on `s` that lines up with the king on `k` along its own kind of line
    /// (ignoring the pieces in between).
    pub open spec fn pinner(self, s: int, k: int) -> bool {
        match self.piece_at(s) {
            Some(p) => p.color == self.turn_.other() && (((p.type_ == PieceType::Bishop || p.type_
                == PieceType::Queen) && bishop_attack(k, s, 0)) || ((p.type_ == PieceType::Rook
                || p.type_ == PieceType::Queen) && rook_attack(k, s, 0))),
            None => false,
        }
    }

    /// `i` is the only occupied square between a pinner and the king on `k`.
    pub open spec fn pinned_through(self, k: int, i: int) -> bool {
        exists|s: int| #![trigger self.pinner(s, k)] self.pin_line(s, k, i)
    }

    /// The pinner on `s` and the king on `k` have exactly one occupied square between them,
    /// and it is `i`.
    pub open spec fn pin_line(self, s: int, k: int, i: int) -> bool {
        &&& self.pinner(s, k)
        &&& between_spec(s, k, i)
        &&& bit(self.occupied_bb.0, i)
        &&& forall|d: int| between_spec(s, k, d) && bit(self.occupied_bb.0, d) ==> d == i
    }

    /// `i` is the only occupied square between a pinner and the king of the side to move.
    pub open spec fn pinned_spec(self, i: int) -> bool {
        exists|k: int| #[trigger] self.king_at(self.turn_, k) && self.pinned_through(k, i)
    }

    /// `i` holds a piece of the side not to move attacking the king of the side to move.
    pub open spec fn checker_spec(self, i: int) -> bool {
        exists|k: int| #[trigger] self.king_at(self.turn_, k) && self.attacks_from(i, k, self.turn_.other())
    }

    /// The checkers and pinned pieces recorded in the position are the actual ones.
    pub open spec fn info_ok(self) -> bool {
        &&& forall|i: int| #[trigger] bit(self.checkers_bb.0, i) == self.checker_spec(i)
        &&& forall|i: int| #[trigger] bit(self.pinned_bb.0, i) == self.pinned_spec(i)
    }

    /// Squares holding a piece (of `color`, when given) that attacks `target_square`.
    pub fn get_attackers_mask(&self, target_square: Square, color: Option<Color>) -> (r: BitBoard)
        requires
            self.wf(),
        ensures
            forall|s: int| #[trigger] r.has(s) == match color {
                Some(c) => self.attacks_from(s, target_square.index(), c),
                None => self.attacks_from(s, target_square.index(), Color::White) || self.attacks_from(
                    s,
                    target_square.index(),
                    Color::Black,
                ),
            },
    {
        let ghost t = target_square.index();
        let mut m: u64 = 0;
        let mut i: usize = 0;
        while i < 64
            invariant
                self.wf(),
                t == target_square.index(),
                i <= 64,
                forall|s: int| #[trigger] bit(m, s) == (0 <= s < i && match color {
                    Some(c) => self.attacks_from(s, t, c),
                    None => self.attacks_from(s, t, Color::White) || self.attacks_from(s, t, Color::Black),
                }),
            decreases 64 - i,
        {
            let sq = Square::from_index(i);
            proof {
                lemma_piece_at_facts(*self, i as int);
            }
            match self.get_piece_at(sq) {
                Some(p) => {
                    let wanted = match color {
                        Some(c) => p.color == c,
                        None => true,
                    };
                    if wanted && piece_attacks(p.type_, p.color, sq, self.occupied_bb).contains(target_square) {
                        m = m | (1u64 << (i as u64));
                    }
                },
                None => {},
            }
            i = i + 1;
        }
        BitBoard(m)
    }

    /// Does a piece of `color` attack `square`?
    pub fn is_attacked_by(&self, square: Square, color: Color) -> (r: bool)
        requires
            self.wf(),
        ensures
            r == self.attacked_by(square.index(), color),
    {
        let m = self.get_attackers_mask(square, Some(color));
        let r = m.is_not_empty();
        proof {
            if r {
                let s = choose|s: int| m.has(s);
                assert(self.attacks_from(s, square.index(), color));
            } else {
                assert forall|s: int| !#[trigger] self.attacks_from(s, square.index(), color) by {
                    assert(!m.has(s));
                }
            }
        }
        r
    }

    /// Squares holding a piece of type `piece_type` (and of `color`, when given) that attacks
    /// `target_square`.
    pub fn get_attackers_mask_by_piece_type(&self, target_square: Square, piece_type: PieceType, color: Option<Color>) -> (r: BitBoard)
        requires
            self.wf(),
        ensures
            forall|s: int| #[trigger] r.has(s) == (self.type_on(s) == Some(piece_type) && match color {
                Some(c) => self.attacks_from(s, target_square.index(), c),
                None => self.attacks_from(s, target_square.index(), Color::White) || self.attacks_from(
                    s,
                    target_square.index(),
                    Color::Black,
                ),
            }),
    {
        let all = self.get_attackers_mask(target_square, color);
        let r = all.and(self.get_piece_mask(piece_type));
        proof {
            assert forall|s: int| #[trigger] r.has(s) == (self.type_on(s) == Some(piece_type) && match color {
                Some(c) => self.attacks_from(s, target_square.index(), c),
                None => self.attacks_from(s, target_square.index(), Color::White) || self.attacks_from(
                    s,
                    target_square.index(),
                    Color::Black,
                ),
            }) by {
                lemma_piece_at_facts(*self, s);
                assert(all.has(s) == match color {
                    Some(c) => self.attacks_from(s, target_square.index(), c),
                    None => self.attacks_from(s, target_square.index(), Color::White) || self.attacks_from(
                        s,
                        target_square.index(),
                        Color::Black,
                    ),
                });
            }
        }
        r
    }

    /// The lowest square holding an attacker of `target_square` of the least valuable type
    /// that attacks it (pawns first, kings last).
    pub fn get_least_attackers_square(&self, target_square: Square, color: Option<Color>) -> (r: Option<Square>)
        requires
            self.wf(),
        ensures
            r is None == (forall|s: int| !#[trigger] self.get_attackers_spec(target_square.index(), color, s)),
            r matches Some(sq) ==> self.get_attackers_spec(target_square.index(), color, sq.index()) && forall|s: int|
                #[trigger] self.get_attackers_spec(target_square.index(), color, s) ==> {
                    let a = self.type_on(sq.index()).unwrap().index();
                    let b = self.type_on(s).unwrap().index();
                    a < b || (a == b && sq.index() <= s)
                },
    {
        let all = self.get_attackers_mask(target_square, color);
        let mut k: usize = 0;
        while k < 6
            invariant
                self.wf(),
                k <= 6,
                forall|s: int| #[trigger] all.has(s) == self.get_attackers_spec(target_square.index(), color, s),
                forall|s: int| #[trigger] all.has(s) ==> (self.type_on(s) matches Some(t) && t.index() >= k),
            decreases 6 - k,
        {
            let pt = PieceType::from_index(k);
            let m = all.and(self.get_piece_mask(pt));
            match m.to_square() {
                Some(sq) => {
                    proof {
                        assert forall|s: int| #[trigger] self.get_attackers_spec(target_square.index(), color, s) implies {
                            let a = self.type_on(sq.index()).unwrap().index();
                            let b = self.type_on(s).unwrap().index();
                            a < b || (a == b && sq.index() <= s)
                        } by {
                            assert(all.has(s));
                            lemma_piece_at_facts(*self, s);
                            lemma_piece_at_facts(*self, sq.index());
                            if self.type_on(s) == Some(pt) {
                                assert(m.has(s));
                            }
                        }
                    }
                    return Some(sq);
                },
                None => {
                    proof {
                        assert forall|s: int| #[trigger] all.has(s) implies (self.type_on(s) matches Some(t) && t.index() >= k + 1) by {
                            lemma_piece_at_facts(*self, s);
                            assert(!m.has(s));
                        }
                    }
                },
            }
            k = k + 1;
        }
        proof {
            assert forall|s: int| !#[trigger] self.get_attackers_spec(target_square.index(), color, s) by {
                assert(!all.has(s));
            }
        }
        None
    }

    /// The pieces pinned against a king of the side to move standing on `ksq`.
    fn pinned_against(&self, ksq: Square) -> (r: BitBoard)
        requires
            self.wf(),
        ensures
            forall|c: int| #[trigger] r.has(c) == self.pinned_through(ksq.index(), c),
    {
        let ghost kk = ksq.index();
        let opp = self.turn_.flip();
        let bishop_rays = ksq.get_bishop_rays_bb();
        let rook_rays = ksq.get_rook_rays_bb();
        let mut pinned: u64 = 0;
        let mut i: usize = 0;
        while i < 64
            invariant
                self.wf(),
                i <= 64,
                opp == self.turn_.other(),
                ksq.index() == kk,
                forall|b: int| #[trigger] bishop_rays.has(b) == bishop_attack(kk, b, 0),
                forall|b: int| #[trigger] rook_rays.has(b) == rook_attack(kk, b, 0),
                forall|c: int| #[trigger] bit(pinned, c) == exists|s: int| #![trigger self.pinner(s, kk)] 0 <= s < i && self.pin_line(s, kk, c),
            decreases 64 - i,
        {
            let sq = Square::from_index(i);
            let ghost si = i as int;
            proof {
                lemma_piece_at_facts(*self, si);
            }
            let is_pinner = match self.get_piece_at(sq) {
                Some(p) => {
                    p.color == opp && (((p.type_ == PieceType::Bishop || p.type_ == PieceType::Queen)
                        && bishop_rays.contains(sq)) || ((p.type_ == PieceType::Rook || p.type_
                        == PieceType::Queen) && rook_rays.contains(sq)))
                },
                None => false,
            };
            proof {
                assert(bishop_rays.has(si) == bishop_attack(kk, si, 0));
                assert(rook_rays.has(si) == rook_attack(kk, si, 0));
                assert(is_pinner == self.pinner(si, kk));
            }
            let ghost old_pinned = pinned;
            if is_pinner {
                let bt = sq.between(ksq);
                let b = bt.and(self.occupied_bb);
                proof {
                    assert forall|c: int| #[trigger] b.has(c) == (between_spec(si, kk, c) && bit(self.occupied_bb.0, c)) by {
                        assert(bt.has(c) == between_spec(si, kk, c));
                    }
                }
                if b.popcnt() == 1 {
                    let ghost w = lemma_count_bits_one_witness(b.0, 64);
                    pinned = pinned | b.0;
                    proof {
                        assert forall|c: int| #[trigger] bit(pinned, c) == exists|s: int| #![trigger self.pinner(s, kk)] 0 <= s < i + 1 && self.pin_line(s, kk, c) by {
                            if bit(b.0, c) {
                                assert(c == w);
                                assert(b.has(c));
                                assert forall|d: int| between_spec(si, kk, d) && bit(self.occupied_bb.0, d) implies d == c by {
                                    assert(b.has(d));
                                }
                                assert(self.pin_line(si, kk, c));
                            } else if !bit(old_pinned, c) {
                                if self.pin_line(si, kk, c) {
                                    assert(b.has(c));
                                }
                            }
                        }
                    }
                } else {
                    proof {
                        assert forall|c: int| #[trigger] bit(pinned, c) == exists|s: int| #![trigger self.pinner(s, kk)] 0 <= s < i + 1 && self.pin_line(s, kk, c) by {
                            if self.pin_line(si, kk, c) {
                                assert(b.has(c));
                                assert forall|j: int| 0 <= j < 64 && j != c implies !#[trigger] bit(b.0, j) by {
                                    assert(b.has(j) == (between_spec(si, kk, j) && bit(self.occupied_bb.0, j)));
                                }
                                assert(only_bit(b.0, 64, c));
                                lemma_count_bits_one(b.0, 64, c);
                            }
                        }
                    }
                }
            } else {
                proof {
                    assert forall|c: int| #[trigger] bit(pinned, c) == exists|s: int| #![trigger self.pinner(s, kk)] 0 <= s < i + 1 && self.pin_line(s, kk, c) by {
                        assert(!self.pinner(si, kk));
                    }
                }
            }
            i = i + 1;
        }
        proof {
            assert forall|c: int| #[trigger] bit(pinned, c) == self.pinned_through(kk, c) by {
                if self.pinned_through(kk, c) {
                    let s = choose|s: int| #![trigger self.pinner(s, kk)] self.pin_line(s, kk, c);
                    lemma_piece_at_facts(*self, s);
                }
            }
        }
        BitBoard(pinned)
    }

    /// Recompute the checkers and the pinned pieces of the side to move.
    pub fn update_pin_and_checkers_info(&mut self)
        requires
            old(self).wf(),
        ensures
            final(self).wf(),
            final(self).info_ok(),
            final(self).same_placement(*old(self)),
            final(self).turn_ == old(self).turn_,
            final(self).white_castle_rights == old(self).white_castle_rights,
            final(self).black_castle_rights == old(self).black_castle_rights,
            final(self).ep == old(self).ep,
            final(self).halfmove_clock == old(self).halfmove_clock,
            final(self).fullmove_number == old(self).fullmove_number,
    {
        let turn = self.turn_;
        let opp = turn.flip();
        let kings = self.get_colored_piece_mask(PieceType::King, turn);
        let mut checkers: u64 = 0;
        let mut pinned: u64 = 0;
        let mut i: usize = 0;
        while i < 64
            invariant
                self.wf(),
                i <= 64,
                turn == self.turn_,
                opp == turn.other(),
                kings.0 == self.mask_of(PieceType::King) & self.color_mask(turn),
                forall|c: int| #[trigger] bit(checkers, c) == exists|k: int| 0 <= k < i && #[trigger] self.king_at(turn, k) && self.attacks_from(c, k, opp),
                forall|c: int| #[trigger] bit(pinned, c) == exists|k: int| 0 <= k < i && #[trigger] self.king_at(turn, k) && self.pinned_through(k, c),
            decreases 64 - i,
        {
            let ksq = Square::from_index(i);
            let ghost ki = i as int;
            if kings.contains(ksq) {
                let c = self.get_attackers_mask(ksq, Some(opp));
                let p = self.pinned_against(ksq);
                checkers = checkers | c.0;
                pinned = pinned | p.0;
                proof {
                    assert(self.king_at(turn, ki));
                    assert forall|x: int| #[trigger] bit(checkers, x) == exists|k: int| 0 <= k < i + 1 && #[trigger] self.king_at(turn, k) && self.attacks_from(x, k, opp) by {
                        if c.has(x) {
                            assert(self.king_at(turn, ki) && self.attacks_from(x, ki, opp));
                        }
                        if exists|k: int| 0 <= k < i + 1 && #[trigger] self.king_at(turn, k) && self.attacks_from(x, k, opp) {
                            let k = choose|k: int| 0 <= k < i + 1 && #[trigger] self.king_at(turn, k) && self.attacks_from(x, k, opp);
                            if k == ki {
                                assert(c.has(x));
                            }
                        }
                    }
                    assert forall|x: int| #[trigger] bit(pinned, x) == exists|k: int| 0 <= k < i + 1 && #[trigger] self.king_at(turn, k) && self.pinned_through(k, x) by {
                        if p.has(x) {
                            assert(self.king_at(turn, ki) && self.pinned_through(ki, x));
                        }
                        if exists|k: int| 0 <= k < i + 1 && #[trigger] self.king_at(turn, k) && self.pinned_through(k, x) {
                            let k = choose|k: int| 0 <= k < i + 1 && #[trigger] self.king_at(turn, k) && self.pinned_through(k, x);
                            if k == ki {
                                assert(p.has(x));
                            }
                        }
                    }
                }
            } else {
                proof {
                    assert(!self.king_at(turn, ki));
                }
            }
            i = i + 1;
        }
        let ghost before = *self;
        self.checkers_bb = BitBoard(checkers);
        self.pinned_bb = BitBoard(pinned);
        proof {
            lemma_info_update(before, *self);
        }
    }

    /// `s` holds an attacker of `t` (of `color`, when given).
    pub open spec fn get_attackers_spec(self, t: int, color: Option<Color>, s: int) -> bool {
        match color {
            Some(c) => self.attacks_from(s, t, c),
            None => self.attacks_from(s, t, Color::White) || self.attacks_from(s, t, Color::Black),
        }
    }
}

/// `after` differs from `before` only in its checkers and pinned masks, which were computed
/// for the kings of the side to move.
proof fn lemma_info_update(before: BoardPosition, after: BoardPosition)
    requires
        before.wf(),
        after.same_placement(before),
        after.turn_ == before.turn_,
        forall|c: int| #[trigger] bit(after.checkers_bb.0, c) == exists|k: int| 0 <= k < 64 && #[trigger] before.king_at(before.turn_, k) && before.attacks_from(c, k, before.turn_.other()),
        forall|c: int| #[trigger] bit(after.pinned_bb.0, c) == exists|k: int| 0 <= k < 64 && #[trigger] before.king_at(before.turn_, k) && before.pinned_through(k, c),
    ensures
        after.wf(),
        after.info_ok(),
{
    assert forall|i: int| #[trigger] after.square_ok(i) by {
        assert(before.square_ok(i));
    }
    assert forall|i: int| #[trigger] after.piece_at(i) == before.piece_at(i) by {}
    assert forall|k: int| #[trigger] after.king_at(after.turn_, k) == before.king_at(before.turn_, k) by {}
    assert forall|c: int| #[trigger] bit(after.checkers_bb.0, c) == after.checker_spec(c) by {
        if after.checker_spec(c) {
            let k = choose|k: int| #[trigger] after.king_at(after.turn_, k) && after.attacks_from(c, k, after.turn_.other());
            assert(before.king_at(before.turn_, k) && before.attacks_from(c, k, before.turn_.other()));
        }
        if bit(after.checkers_bb.0, c) {
            let k = choose|k: int| 0 <= k < 64 && #[trigger] before.king_at(before.turn_, k) && before.attacks_from(c, k, before.turn_.other());
            assert(after.king_at(after.turn_, k) && after.attacks_from(c, k, after.turn_.other()));
        }
    }
    assert forall|c: int| #[trigger] bit(after.pinned_bb.0, c) == after.pinned_spec(c) by {
        assert forall|s: int, k: int| #[trigger] after.pin_line(s, k, c) == before.pin_line(s, k, c) by {}
        assert forall|k: int| #[trigger] after.pinned_through(k, c) == before.pinned_through(k, c) by {
            if after.pinned_through(k, c) {
                let s = choose|s: int| #![trigger after.pinner(s, k)] after.pin_line(s, k, c);
                assert(before.pin_line(s, k, c));
            }
            if before.pinned_through(k, c) {
                let s = choose|s: int| #![trigger before.pinner(s, k)] before.pin_line(s, k, c);
                assert(after.pin_line(s, k, c));
            }
        }
        if after.pinned_spec(c) {
            let k = choose|k: int| #[trigger] after.king_at(after.turn_, k) && after.pinned_through(k, c);
            assert(before.king_at(before.turn_, k) && before.pinned_through(k, c));
        }
        if bit(after.pinned_bb.0, c) {
            let k = choose|k: int| 0 <= k < 64 && #[trigger] before.king_at(before.turn_, k) && before.pinned_through(k, c);
            assert(after.king_at(after.turn_, k) && after.pinned_through(k, c));
        }
    }
    assert(after.material(Color::White) == before.material(Color::White)) by {
        assert((|i: int| after.square_material(Color::White, i)) =~= (|i: int| before.square_material(Color::White, i)));
    }
    assert(after.material(Color::Black) == before.material(Color::Black)) by {
        assert((|i: int| after.square_material(Color::Black, i)) =~= (|i: int| before.square_material(Color::Black, i)));
    }
    assert(after.pawn_hash_spec() == before.pawn_hash_spec()) by {
        assert((|i: int| after.square_pawn_key(i)) =~= (|i: int| before.square_pawn_key(i)));
    }
    assert(after.non_pawn_hash_spec() == before.non_pawn_hash_spec()) by {
        assert((|i: int| after.square_piece_key(i)) =~= (|i: int| before.square_piece_key(i)));
    }
}

} // verus!
