//! Which moves are legal in a position: pseudo-legal destinations, king safety after a move,
//! en passant captures and castling.
use vstd::prelude::*;
use crate::attacks::{fl, pawn_attack, pawn_push, rk};
use crate::bitboard::BitBoard;
use crate::bits::{bit, group_bit_facts, lemma_eq_iff_bits};
use crate::moves::Move;
use crate::piece::{Piece, PieceType};
use crate::position::{lemma_piece_at_facts, piece_attack, piece_attacks, BoardPosition};
use crate::position_move::castle_square;
use crate::types::{group_square_facts, Color, Square};

verus! {

broadcast use group_bit_facts, group_square_facts;

/// Two well-placed positions holding the same pieces have the same occupied squares and the
/// same attacks.
pub proof fn lemma_same_pieces_attacks(a: BoardPosition, b: BoardPosition)
    requires
        a.placement_ok(),
        b.placement_ok(),
        forall|i: int| #[trigger] a.piece_at(i) == b.piece_at(i),
    ensures
        a.occupied_bb == b.occupied_bb,
        forall|k: int, c: Color| #[trigger] a.attacked_by(k, c) == b.attacked_by(k, c),
{
    assert forall|i: int| #[trigger] bit(a.occupied_bb.0, i) == bit(b.occupied_bb.0, i) by {
        lemma_piece_at_facts(a, i);
        lemma_piece_at_facts(b, i);
    }
    lemma_eq_iff_bits(a.occupied_bb.0, b.occupied_bb.0);
    assert forall|k: int, c: Color| #[trigger] a.attacked_by(k, c) == b.attacked_by(k, c) by {
        if a.attacked_by(k, c) {
            let s = choose|s: int| #[trigger] a.attacks_from(s, k, c);
            assert(b.attacks_from(s, k, c));
        }
        if b.attacked_by(k, c) {
            let s = choose|s: int| #[trigger] b.attacks_from(s, k, c);
            assert(a.attacks_from(s, k, c));
        }
    }
}

/// `i` is one of the squares between the king and the rook that must be empty to castle:
/// f and g of the back rank on the king side, b, c and d on the queen side.
pub open spec fn castle_path(color: Color, kingside: bool, i: int) -> bool {
    let base = if color == Color::White { 0int } else { 56int };
    if kingside {
        i == base + 5 || i == base + 6
    } else {
        i == base + 1 || i == base + 2 || i == base + 3
    }
}

impl BoardPosition {
    /// The occupied squares after `m`.
    pub open spec fn occupied_after(self, m: Move) -> u64 {
        let o1 = (self.occupied_bb.0 & !(1u64 << (m.source.index() as u64))) | (1u64 << (m.dest.index() as u64));
        let o2 = if self.ep_capture_spec(m) { o1 & !(1u64 << (self.ep_victim(m) as u64)) } else { o1 };
        if self.castles_spec(m) {
            (o2 & !(1u64 << (self.castle_rook_from(m) as u64))) | (1u64 << (self.castle_rook_to(m) as u64))
        } else {
            o2
        }
    }

    /// After `m`, the piece on `s` is of `color` and attacks `k`.
    pub open spec fn attacks_after(self, m: Move, s: int, k: int, color: Color) -> bool {
        match self.moved_piece_at(m, s) {
            Some(p) => p.color == color && piece_attack(p.type_, color, s, k, self.occupied_after(m)),
            None => false,
        }
    }

    /// After `m`, no king of the side that moved is attacked.
    pub open spec fn safe_after(self, m: Move) -> bool {
        forall|k: int| #[trigger] self.moved_piece_at(m, k) == Some(Piece { type_: PieceType::King, color: self.turn_ })
            ==> !exists|s: int| #[trigger] self.attacks_after(m, s, k, self.turn_.other())
    }

    /// Some piece of `color` attacks `d` when the occupied squares are `occ`.
    pub open spec fn attacked_with(self, d: int, color: Color, occ: u64) -> bool {
        exists|s: int| #[trigger] self.attacks_with(s, d, color, occ)
    }

    /// The piece on `s` is of `color` and attacks `d` when the occupied squares are `occ`.
    pub open spec fn attacks_with(self, s: int, d: int, color: Color, occ: u64) -> bool {
        match self.piece_at(s) {
            Some(p) => p.color == color && piece_attack(p.type_, color, s, d, occ),
            None => false,
        }
    }

    /// The king of the side to move could stand on `d`: no enemy piece attacks `d` once the
    /// king leaves its square and stands on `d`.
    pub open spec fn king_move_safe(self, d: int) -> bool {
        !self.attacked_with(d, self.turn_.other(), (self.occupied_bb.0 ^ (self.kings.0 & self.color_mask(self.turn_))) | (1u64 << (d as u64)))
    }

    /// The piece of the side to move on `s` may go to `d`, ignoring the safety of its king:
    /// pawns advance onto empty squares or take enemy pieces, the others go where they attack,
    /// and no piece lands on a piece of its own side.
    pub open spec fn pseudo_dest(self, s: int, d: int) -> bool {
        match self.piece_at(s) {
            Some(p) => {
                &&& p.color == self.turn_
                &&& 0 <= d < 64
                &&& !bit(self.color_mask(self.turn_), d)
                &&& if p.type_ == PieceType::Pawn {
                    pawn_push(self.turn_, s, d, self.occupied_bb.0) || (pawn_attack(self.turn_, s, d)
                        && bit(self.occupied_bb.0, d))
                } else {
                    piece_attack(p.type_, self.turn_, s, d, self.occupied_bb.0)
                }
            },
            None => false,
        }
    }

    /// A pawn on `s` of the side to move promotes when it moves: it stands on the seventh rank
    /// of its side.
    pub open spec fn promotes_from(self, s: int) -> bool {
        self.type_on(s) == Some(PieceType::Pawn) && rk(s) == if self.turn_ == Color::White { 6int } else { 1int }
    }

    /// The promotion of `m` is what its source calls for: one of queen, knight, rook and bishop
    /// for a pawn on its seventh rank, none otherwise.
    pub open spec fn promotion_ok(self, m: Move) -> bool {
        if self.promotes_from(m.source.index()) {
            m.promotion == Some(PieceType::Queen) || m.promotion == Some(PieceType::Knight)
                || m.promotion == Some(PieceType::Rook) || m.promotion == Some(PieceType::Bishop)
        } else {
            m.promotion is None
        }
    }

    /// `m` is an ordinary legal move: a pseudo-legal move with the promotion its source calls
    /// for, which can be made and leaves no king of the mover attacked.
    pub open spec fn normal_legal(self, m: Move) -> bool {
        &&& self.pseudo_dest(m.source.index(), m.dest.index())
        &&& self.promotion_ok(m)
        &&& self.move_fits(m)
        &&& self.safe_after(m)
    }

    /// `s` is where a pawn must stand to take en passant onto `d`: on the rank next to `d`
    /// towards the middle of the board and on an adjacent file.
    pub open spec fn ep_source(s: int, d: int) -> bool {
        &&& 0 <= s < 64
        &&& rk(s) == if rk(d) > 3 { rk(d) - 1 } else { rk(d) + 1 }
        &&& (fl(s) == fl(d) - 1 || fl(s) == fl(d) + 1)
    }

    /// `m` takes en passant: a pawn of the side to move next to the en passant square moves
    /// onto it, and its king is safe afterwards.
    pub open spec fn ep_legal(self, m: Move) -> bool {
        &&& self.ep == Some(m.dest)
        &&& Self::ep_source(m.source.index(), m.dest.index())
        &&& self.piece_at(m.source.index()) == Some(Piece { type_: PieceType::Pawn, color: self.turn_ })
        &&& m.promotion is None
        &&& self.move_fits(m)
        &&& self.safe_after(m)
    }

    /// The square `steps` files to the right of `s` on its rank, wrapping around.
    pub open spec fn right_of(s: int, steps: int) -> int {
        rk(s) * 8 + (fl(s) + steps) % 8
    }

    /// `m` castles on the side `kingside` says: the side to move is not in check and has the
    /// right, the squares between are empty, the king passes and lands on safe squares, and the
    /// rook stands ready.
    pub open spec fn castle_legal(self, m: Move, kingside: bool) -> bool {
        let k = m.source.index();
        let mid = if kingside { Self::right_of(k, 1) } else { Self::right_of(k, 7) };
        let dest = if kingside { Self::right_of(k, 2) } else { Self::right_of(k, 6) };
        &&& self.king_at(self.turn_, k)
        &&& self.checkers_bb.0 == 0
        &&& if kingside { self.castle_rights_of(self.turn_).kingside() } else { self.castle_rights_of(self.turn_).queenside() }
        &&& forall|i: int| #[trigger] castle_path(self.turn_, kingside, i) ==> !bit(self.occupied_bb.0, i)
        &&& self.king_move_safe(mid)
        &&& self.king_move_safe(dest)
        &&& m.dest.index() == dest
        &&& m.promotion is None
        &&& self.castles_spec(m)
        &&& self.move_fits(m)
    }

    /// `m` is legal.
    pub open spec fn legal_spec(self, m: Move) -> bool {
        ||| self.normal_legal(m)
        ||| self.ep_legal(m)
        ||| self.castle_legal(m, true)
        ||| self.castle_legal(m, false)
    }
}

impl BoardPosition {
    /// Does a piece of `color` attack `d` when the occupied squares are `occ`?
    pub fn is_attacked_with(&self, d: Square, color: Color, occ: BitBoard) -> (r: bool)
        requires
            self.wf(),
        ensures
            r == self.attacked_with(d.index(), color, occ.0),
    {
        let mut i: usize = 0;
        while i < 64
            invariant
                self.wf(),
                i <= 64,
                forall|s: int| 0 <= s < i ==> !#[trigger] self.attacks_with(s, d.index(), color, occ.0),
            decreases 64 - i,
        {
            let sq = Square::from_index(i);
            match self.get_piece_at(sq) {
                Some(p) => {
                    if p.color == color && piece_attacks(p.type_, color, sq, occ).contains(d) {
                        proof {
                            assert(self.attacks_with(i as int, d.index(), color, occ.0));
                        }
                        return true;
                    }
                },
                None => {},
            }
            i = i + 1;
        }
        proof {
            assert forall|s: int| !#[trigger] self.attacks_with(s, d.index(), color, occ.0) by {
                if !(0 <= s < 64) {
                    lemma_piece_at_facts(*self, s);
                }
            }
        }
        false
    }

    /// Could the king of the side to move stand on `dest` without being attacked?
    pub fn legal_king_move(&self, dest: Square) -> (r: bool)
        requires
            self.wf(),
        ensures
            r == self.king_move_safe(dest.index()),
    {
        let own_kings = self.kings.and(self.self_occupied());
        let occ = self.occupied_bb.xor(own_kings).or(dest.to_bitboard());
        !self.is_attacked_with(dest, self.turn_.flip(), occ)
    }

    /// Is no king of the side to move attacked once `move_` is made?
    pub fn king_safe_after(&self, move_: Move) -> (r: bool)
        requires
            self.wf(),
            self.move_fits(move_),
        ensures
            r == self.safe_after(move_),
    {
        let mut tmp = *self;
        tmp.apply_placement(move_);
        let us = self.turn_;
        let them = us.flip();
        proof {
            lemma_occupied_after(*self, tmp, move_);
            assert forall|k: int, c: Color| #[trigger] tmp.attacked_by(k, c) == exists|s: int| #[trigger] self.attacks_after(move_, s, k, c) by {
                if tmp.attacked_by(k, c) {
                    let s = choose|s: int| #[trigger] tmp.attacks_from(s, k, c);
                    assert(self.attacks_after(move_, s, k, c));
                }
                if exists|s: int| #[trigger] self.attacks_after(move_, s, k, c) {
                    let s = choose|s: int| #[trigger] self.attacks_after(move_, s, k, c);
                    assert(tmp.attacks_from(s, k, c));
                }
            }
        }
        let mut i: usize = 0;
        while i < 64
            invariant
                tmp.wf(),
                i <= 64,
                us == self.turn_,
                them == us.other(),
                forall|j: int| #[trigger] tmp.piece_at(j) == self.moved_piece_at(move_, j),
                forall|k: int, c: Color| #[trigger] tmp.attacked_by(k, c) == exists|s: int| #[trigger] self.attacks_after(move_, s, k, c),
                forall|k: int| 0 <= k < i ==> (#[trigger] self.moved_piece_at(move_, k) == Some(Piece { type_: PieceType::King, color: us })
                    ==> !exists|s: int| #[trigger] self.attacks_after(move_, s, k, them)),
            decreases 64 - i,
        {
            let sq = Square::from_index(i);
            match tmp.get_piece_at(sq) {
                Some(p) => {
                    if p.type_ == PieceType::King && p.color == us && tmp.is_attacked_by(sq, them) {
                        return false;
                    }
                },
                None => {},
            }
            i = i + 1;
        }
        proof {
            assert forall|k: int| #[trigger] self.moved_piece_at(move_, k) == Some(Piece { type_: PieceType::King, color: us })
                implies !exists|s: int| #[trigger] self.attacks_after(move_, s, k, them) by {
                lemma_piece_at_facts(tmp, k);
            }
        }
        true
    }

    /// Squares the piece of the side to move on `square` may go to, ignoring the safety of
    /// its king.
    pub fn pseudo_dests(&self, square: Square) -> (r: BitBoard)
        requires
            self.wf(),
        ensures
            forall|d: int| #[trigger] r.has(d) == self.pseudo_dest(square.index(), d),
    {
        let us = self.turn_;
        let own = self.self_occupied();
        proof {
            lemma_piece_at_facts(*self, square.index());
        }
        match self.get_piece_at(square) {
            Some(p) => {
                if p.color != us {
                    return BitBoard(0);
                }
                let reach = if p.type_ == PieceType::Pawn {
                    square.get_pawn_moves(us, self.occupied_bb)
                } else {
                    piece_attacks(p.type_, us, square, self.occupied_bb)
                };
                reach.and_not(own)
            },
            None => BitBoard(0),
        }
    }
}

/// The squares the king passes and lands on when castling from `ksq` on the side `kingside`
/// says: one and two files right for the king side, one and two files left for the queen
/// side, wrapping around the rank.
fn castle_walk(ksq: Square, kingside: bool) -> (r: (Square, Square))
    ensures
        r.0.index() == BoardPosition::right_of(ksq.index(), if kingside { 1 } else { 7 }),
        r.1.index() == BoardPosition::right_of(ksq.index(), if kingside { 2 } else { 6 }),
{
    let (mid, dest) = if kingside {
        let mid = ksq.wrapping_right();
        (mid, mid.wrapping_right())
    } else {
        let mid = ksq.wrapping_left();
        (mid, mid.wrapping_left())
    };
    proof {
        let k = ksq.index();
        lemma_file_steps(fl(k));
        assert(mid.index() == mid.rank() * 8 + mid.file());
        assert(dest.index() == dest.rank() * 8 + dest.file());
    }
    (mid, dest)
}

proof fn lemma_file_steps(f: int)
    requires
        0 <= f < 8,
    ensures
        ((f + 1) % 8 + 1) % 8 == (f + 2) % 8,
        ((f + 7) % 8 + 7) % 8 == (f + 6) % 8,
{
    if f == 0 {} else if f == 1 {} else if f == 2 {} else if f == 3 {} else if f == 4 {} else if f == 5 {} else if f == 6 {} else {}
}

impl BoardPosition {
    /// The promotion the first move of a piece on `s` names: a queen for a pawn on its seventh
    /// rank, none otherwise.
    pub open spec fn first_promotion(self, s: int) -> Option<PieceType> {
        if self.promotes_from(s) { Some(PieceType::Queen) } else { None }
    }

    /// Can the pieces of `move_` be moved (see `move_fits`)?
    pub fn move_fits_exec(&self, move_: Move) -> (r: bool)
        requires
            self.wf(),
        ensures
            r == self.move_fits(move_),
    {
        let src = move_.source;
        let dst = move_.dest;
        let us = self.turn_;
        let them = us.flip();
        proof {
            lemma_piece_at_facts(*self, src.index());
            lemma_piece_at_facts(*self, dst.index());
        }
        if src == dst {
            return false;
        }
        let moved = match self.get_piece_at(src) {
            Some(p) => {
                if p.color != us {
                    return false;
                }
                p.type_
            },
            None => {
                return false;
            },
        };
        match self.get_piece_at(dst) {
            Some(q) => {
                if q.color == us || q.type_ == PieceType::King {
                    return false;
                }
            },
            None => {},
        }
        if moved == PieceType::Pawn && move_.promotion.is_none() && !(
        crate::attacks::get_pawn_source_double_moves().contains(src)
            && crate::attacks::get_pawn_dest_double_moves().contains(dst)) && self.ep == Some(dst) {
            let victim = dst.wrapping_backward(us);
            proof {
                assert(self.ep_capture_spec(move_));
                assert(victim.index() == self.ep_victim(move_));
            }
            match self.get_piece_at(victim) {
                Some(v) => {
                    if !(v.type_ == PieceType::Pawn && v.color == them) {
                        return false;
                    }
                },
                None => {
                    return false;
                },
            }
        } else {
            proof {
                assert(!self.ep_capture_spec(move_));
            }
        }
        let castle_moves = crate::attacks::get_castle_moves();
        if moved == PieceType::King && castle_moves.contains(src) && castle_moves.contains(dst) {
            let back = us.to_my_backrank();
            let index = dst.get_file().to_index();
            let from = if index < 4 {
                Square::from_rank_and_file(back, crate::types::File::A)
            } else {
                Square::from_rank_and_file(back, crate::types::File::H)
            };
            let to = if index < 4 {
                Square::from_rank_and_file(back, crate::types::File::D)
            } else {
                Square::from_rank_and_file(back, crate::types::File::F)
            };
            proof {
                assert(self.castles_spec(move_));
                assert(from.index() == self.castle_rook_from(move_));
                assert(to.index() == self.castle_rook_to(move_));
            }
            match self.get_piece_at(from) {
                Some(rook) => {
                    if !(rook.type_ == PieceType::Rook && rook.color == us) {
                        return false;
                    }
                },
                None => {
                    return false;
                },
            }
            if self.get_piece_at(to).is_some() {
                return false;
            }
        } else {
            proof {
                assert(!self.castles_spec(move_));
            }
        }
        true
    }

    /// The destinations of the ordinary legal moves of the piece on `square`, each made with
    /// the first promotion it names.
    pub fn legal_dests(&self, square: Square) -> (r: BitBoard)
        requires
            self.wf(),
        ensures
            forall|d: int| #[trigger] r.has(d) == (0 <= d < 64 && self.normal_legal(
                Move { source: square, dest: crate::types::square_at(d), promotion: self.first_promotion(square.index()) },
            )),
    {
        let pseudo = self.pseudo_dests(square);
        let promotion = if self.pawns.contains(square) && square.get_rank() == self.turn_.to_seventh_rank() {
            Some(PieceType::Queen)
        } else {
            None
        };
        proof {
            lemma_piece_at_facts(*self, square.index());
            assert(promotion == self.first_promotion(square.index()));
        }
        let mut m: u64 = 0;
        let mut i: usize = 0;
        while i < 64
            invariant
                self.wf(),
                i <= 64,
                promotion == self.first_promotion(square.index()),
                forall|d: int| #[trigger] pseudo.has(d) == self.pseudo_dest(square.index(), d),
                forall|d: int| #[trigger] bit(m, d) == (0 <= d < i && self.normal_legal(
                    Move { source: square, dest: crate::types::square_at(d), promotion: self.first_promotion(square.index()) },
                )),
            decreases 64 - i,
        {
            let dest = Square::from_index(i);
            let mv = Move::new(square, dest, promotion);
            if pseudo.contains(dest) && self.move_fits_exec(mv) && self.king_safe_after(mv) {
                proof {
                    assert(self.promotion_ok(mv));
                }
                m = m | (1u64 << (i as u64));
            } else {
                proof {
                    assert(!self.normal_legal(mv));
                }
            }
            i = i + 1;
        }
        BitBoard(m)
    }

    /// Can the pawn of the side to move on `source` take en passant on `dest`?
    pub fn legal_ep_move(&self, source: Square, dest: Square) -> (r: bool)
        requires
            self.wf(),
        ensures
            r == self.ep_legal(Move { source, dest, promotion: None }),
    {
        let mv = Move::new(source, dest, None);
        let rs = source.to_index() / 8;
        let fs = source.to_index() % 8;
        let rd = dest.to_index() / 8;
        let fd = dest.to_index() % 8;
        let want_rank = if rd > 3 { rd - 1 } else { rd + 1 };
        let geometry = rs == want_rank && (fs + 1 == fd || fs == fd + 1);
        let is_my_pawn = match self.get_piece_at(source) {
            Some(p) => p.type_ == PieceType::Pawn && p.color == self.turn_,
            None => false,
        };
        self.ep == Some(dest) && geometry && is_my_pawn && self.move_fits_exec(mv) && self.king_safe_after(mv)
    }

    /// Are the squares between king and rook empty for castling on the side `kingside` says?
    fn castle_path_empty(&self, kingside: bool) -> (r: bool)
        ensures
            r == forall|i: int| #[trigger] castle_path(self.turn_, kingside, i) ==> !bit(self.occupied_bb.0, i),
    {
        let us = self.turn_;
        let rights = self.castle_rights(us);
        let squares = if kingside { rights.kingside_squares(us) } else { rights.queenside_squares(us) };
        proof {
            assert(forall|i: int| #[trigger] squares.has(i) == castle_path(us, kingside, i));
        }
        let blocked = self.occupied_bb.and(squares);
        let empty_path = blocked.is_empty();
        proof {
            if empty_path {
                assert forall|i: int| #[trigger] castle_path(us, kingside, i) implies !bit(self.occupied_bb.0, i) by {
                    assert(squares.has(i));
                    assert(!blocked.has(i));
                }
            } else {
                let i = choose|i: int| blocked.has(i);
                assert(castle_path(us, kingside, i));
            }
        }
        empty_path
    }

    /// Where the king of the side to move, standing on `ksq`, lands when it castles on the
    /// side `kingside` says, if it may.
    #[verifier::rlimit(40)]
    pub fn castle_dest(&self, ksq: Square, kingside: bool) -> (r: Option<Square>)
        requires
            self.wf(),
        ensures
            r == if self.castle_legal(
                Move { source: ksq, dest: crate::types::square_at(Self::right_of(ksq.index(), if kingside { 2 } else { 6 })), promotion: None },
                kingside,
            ) {
                Some(crate::types::square_at(Self::right_of(ksq.index(), if kingside { 2 } else { 6 })))
            } else {
                None
            },
    {
        let us = self.turn_;
        let rights = self.castle_rights(us);
        let has_right = if kingside { rights.has_kingside() } else { rights.has_queenside() };
        let (mid, dest) = castle_walk(ksq, kingside);
        let ghost k = ksq.index();
        let mv = Move::new(ksq, dest, None);
        let kings = self.get_colored_piece_mask(PieceType::King, us);
        let castle_moves = crate::attacks::get_castle_moves();
        proof {
            lemma_piece_at_facts(*self, k);
        }
        if kings.contains(ksq) && self.checkers_bb.0 == 0 && has_right && self.castle_path_empty(kingside)
            && self.legal_king_move(mid) && self.legal_king_move(dest)
            && castle_moves.contains(ksq) && castle_moves.contains(dest) && self.move_fits_exec(mv) {
            Some(dest)
        } else {
            None
        }
    }
}

/// After a fitting move, the occupied squares of the position are `occupied_after`.
pub proof fn lemma_occupied_after(p: BoardPosition, r: BoardPosition, m: Move)
    requires
        p.wf(),
        p.move_fits(m),
        r.placement_ok(),
        forall|i: int| #[trigger] r.piece_at(i) == p.moved_piece_at(m, i),
    ensures
        r.occupied_bb.0 == p.occupied_after(m),
{
    assert forall|i: int| #[trigger] bit(r.occupied_bb.0, i) == bit(p.occupied_after(m), i) by {
        lemma_piece_at_facts(r, i);
        lemma_piece_at_facts(p, i);
        assert(r.piece_at(i) == p.moved_piece_at(m, i));
        if 0 <= i < 64 {
            lemma_piece_at_facts(p, m.source.index());
            if p.ep_capture_spec(m) {
                lemma_piece_at_facts(p, p.ep_victim(m));
            }
            if p.castles_spec(m) {
                lemma_piece_at_facts(p, p.castle_rook_from(m));
                lemma_piece_at_facts(p, p.castle_rook_to(m));
            }
        }
    }
    lemma_eq_iff_bits(r.occupied_bb.0, p.occupied_after(m));
}

impl BoardPosition {
    /// Which of queen, knight, rook or bishop a pawn on its seventh rank promotes to does not
    /// change whether its move is an ordinary legal move.
    pub proof fn lemma_promotion_choice(self, a: Move, b: Move)
        requires
            self.wf(),
            a.source == b.source,
            a.dest == b.dest,
            self.promotes_from(a.source.index()),
            self.promotion_ok(a),
            self.promotion_ok(b),
        ensures
            self.normal_legal(a) == self.normal_legal(b),
    {
        assert(self.move_fits(a) == self.move_fits(b));
        assert(self.occupied_after(a) == self.occupied_after(b));
        assert forall|k: int, s: int| #[trigger] self.attacks_after(a, s, k, self.turn_.other()) == self.attacks_after(b, s, k, self.turn_.other()) by {}
        assert forall|k: int| #[trigger] self.moved_piece_at(a, k) == Some(Piece { type_: PieceType::King, color: self.turn_ })
            <==> self.moved_piece_at(b, k) == Some(Piece { type_: PieceType::King, color: self.turn_ }) by {}
        if self.safe_after(a) {
            assert forall|k: int| #[trigger] self.moved_piece_at(b, k) == Some(Piece { type_: PieceType::King, color: self.turn_ })
                implies !exists|s: int| #[trigger] self.attacks_after(b, s, k, self.turn_.other()) by {
                assert(self.moved_piece_at(a, k) == Some(Piece { type_: PieceType::King, color: self.turn_ }));
                if exists|s: int| #[trigger] self.attacks_after(b, s, k, self.turn_.other()) {
                    let s = choose|s: int| #[trigger] self.attacks_after(b, s, k, self.turn_.other());
                    assert(self.attacks_after(a, s, k, self.turn_.other()));
                }
            }
        }
        if self.safe_after(b) {
            assert forall|k: int| #[trigger] self.moved_piece_at(a, k) == Some(Piece { type_: PieceType::King, color: self.turn_ })
                implies !exists|s: int| #[trigger] self.attacks_after(a, s, k, self.turn_.other()) by {
                assert(self.moved_piece_at(b, k) == Some(Piece { type_: PieceType::King, color: self.turn_ }));
                if exists|s: int| #[trigger] self.attacks_after(a, s, k, self.turn_.other()) {
                    let s = choose|s: int| #[trigger] self.attacks_after(a, s, k, self.turn_.other());
                    assert(self.attacks_after(b, s, k, self.turn_.other()));
                }
            }
        }
    }
}

} // verus!
