//! Checking that a position could arise in a game, and reading and writing positions as FEN.
use vstd::prelude::*;
use crate::attacks::king_attack;
use crate::bitboard::BitBoard;
use crate::bits::{bit, group_bit_facts, lemma_count_bits_zero, lemma_zero_iff_no_bits, popcount};
use crate::castle::CastleRights;
use crate::piece::{Piece, PieceType};
use crate::position::{lemma_piece_at_facts, BoardPosition};
use crate::position_move::{back_rank_base, lemma_king_bits};
use crate::types::{group_square_facts, square_at, Color, Square};
use crate::attacks::{fl, rk};
use crate::builder::{ep_rank_of, BuilderModel, MiniBoardBuilder};
use crate::error::TimecatError;

verus! {

broadcast use group_bit_facts, group_square_facts;

impl BoardPosition {
    /// The castle rights of `c` match the placement: the rooks they name stand in their
    /// corners, and with any right the king of `c` stands on its e-file square alone.
    pub open spec fn castle_rights_consistent(self, c: Color) -> bool {
        let cr = self.castle_rights_of(c);
        let base = back_rank_base(c);
        &&& cr.kingside() ==> self.piece_at(base + 7) == Some(Piece { type_: PieceType::Rook, color: c })
        &&& cr.queenside() ==> self.piece_at(base) == Some(Piece { type_: PieceType::Rook, color: c })
        &&& cr != CastleRights::NoRights ==> forall|i: int| #[trigger] self.king_at(c, i) <==> i == base + 4
    }

    /// The pawn that made the en passant square possible stands in front of it, as seen by
    /// the side to move.
    pub open spec fn ep_consistent(self) -> bool {
        match self.ep {
            Some(x) => {
                let v = if self.turn_ == Color::White { x.index() - 8 } else { x.index() + 8 };
                0 <= v < 64 && self.piece_at(v) == Some(Piece { type_: PieceType::Pawn, color: self.turn_.other() })
            },
            None => true,
        }
    }

    /// The position could arise in a game: one king each, a consistent en passant square, the
    /// side not to move is not in check, castle rights match the placement, and the kings do
    /// not touch.
    pub open spec fn sane_spec(self) -> bool {
        &&& self.one_king(Color::White)
        &&& self.one_king(Color::Black)
        &&& self.ep_consistent()
        &&& !exists|k: int| #[trigger] self.king_at(self.turn_.other(), k) && self.attacked_by(k, self.turn_)
        &&& self.castle_rights_consistent(Color::White)
        &&& self.castle_rights_consistent(Color::Black)
        &&& forall|a: int, b: int| #[trigger] self.king_at(Color::White, a) && #[trigger] bit(self.kings.0, b) ==> !king_attack(a, b)
    }

    /// Is the castle-rights part of sanity met for `color`?
    fn castle_rights_ok(&self, color: Color) -> (r: bool)
        requires
            self.wf(),
        ensures
            r == self.castle_rights_consistent(color),
    {
        let cr = self.castle_rights(color);
        let unmoved = cr.unmoved_rooks(color);
        let rooks = self.get_colored_piece_mask(PieceType::Rook, color);
        let base: usize = match color {
            Color::White => 0,
            Color::Black => 56,
        };
        proof {
            lemma_piece_at_facts(*self, base as int);
            lemma_piece_at_facts(*self, base as int + 7);
        }
        let present = unmoved.and(rooks);
        if present.0 != unmoved.0 {
            proof {
                crate::bits::lemma_eq_iff_bits(present.0, unmoved.0);
                let i = choose|i: int| !(#[trigger] bit(present.0, i) == bit(unmoved.0, i));
                assert(unmoved.has(i));
                assert(!rooks.has(i));
            }
            return false;
        }
        proof {
            assert(forall|i: int| #[trigger] bit(present.0, i) == bit(unmoved.0, i));
            assert(unmoved.has(base as int + 7) == cr.kingside());
            assert(unmoved.has(base as int) == cr.queenside());
            assert(cr.kingside() ==> rooks.has(base as int + 7));
            assert(cr.queenside() ==> rooks.has(base as int));
        }
        if cr != CastleRights::NoRights {
            let kings = self.get_colored_piece_mask(PieceType::King, color);
            let home = Square::from_index(base + 4).to_bitboard();
            if kings.0 != home.0 {
                proof {
                    crate::bits::lemma_eq_iff_bits(kings.0, home.0);
                    let i = choose|i: int| !(#[trigger] bit(kings.0, i) == bit(home.0, i));
                    assert(!(self.king_at(color, i) <==> i == base + 4));
                }
                return false;
            }
        }
        true
    }

    /// Could the position arise in a game (see `sane_spec`)?
    pub fn is_sane(&self) -> (r: bool)
        requires
            self.wf(),
        ensures
            r == self.sane_spec(),
    {
        let white_kings = self.get_colored_piece_mask(PieceType::King, Color::White);
        let black_kings = self.get_colored_piece_mask(PieceType::King, Color::Black);
        if white_kings.popcnt() != 1 || black_kings.popcnt() != 1 {
            return false;
        }
        let us = self.turn_;
        let them = us.flip();
        match self.ep {
            Some(x) => {
                let i = x.to_index();
                let v: usize = match us {
                    Color::White => {
                        if i < 8 {
                            return false;
                        }
                        i - 8
                    },
                    Color::Black => {
                        if i >= 56 {
                            return false;
                        }
                        i + 8
                    },
                };
                match self.get_piece_at(Square::from_index(v)) {
                    Some(p) => {
                        if !(p.type_ == PieceType::Pawn && p.color == them) {
                            return false;
                        }
                    },
                    None => {
                        return false;
                    },
                }
            },
            None => {},
        }
        let mut copy = *self;
        copy.turn_ = them;
        proof {
            crate::position_move::lemma_same_placement_wf(*self, copy);
        }
        copy.update_pin_and_checkers_info();
        if copy.checkers_bb.0 != 0 {
            proof {
                lemma_zero_iff_no_bits(copy.checkers_bb.0);
                let s = choose|s: int| bit(copy.checkers_bb.0, s);
                assert(copy.checker_spec(s));
                let k = choose|k: int| #[trigger] copy.king_at(copy.turn_, k) && copy.attacks_from(s, k, copy.turn_.other());
                crate::position_move::lemma_same_placement_wf(*self, copy);
                assert(self.attacks_from(s, k, us));
                assert(self.king_at(them, k) && self.attacked_by(k, us));
            }
            return false;
        }
        proof {
            lemma_zero_iff_no_bits(copy.checkers_bb.0);
            assert forall|k: int| !(#[trigger] self.king_at(them, k) && self.attacked_by(k, us)) by {
                if self.king_at(them, k) && self.attacked_by(k, us) {
                    let s = choose|s: int| #[trigger] self.attacks_from(s, k, us);
                    crate::position_move::lemma_same_placement_wf(*self, copy);
                    assert(copy.king_at(copy.turn_, k) && copy.attacks_from(s, k, copy.turn_.other()));
                    assert(copy.checker_spec(s));
                    assert(bit(copy.checkers_bb.0, s));
                }
            }
        }
        if !self.castle_rights_ok(Color::White) || !self.castle_rights_ok(Color::Black) {
            return false;
        }
        proof {
            lemma_count_bits_zero(white_kings.0, 64);
            lemma_zero_iff_no_bits(white_kings.0);
        }
        let wk = self.get_king_square(Color::White);
        let near = wk.get_king_moves().and(self.kings);
        proof {
            crate::bits::lemma_count_bits_one_witness(white_kings.0, 64);
        }
        if near.0 != 0 {
            proof {
                lemma_zero_iff_no_bits(near.0);
                let b = choose|b: int| bit(near.0, b);
                assert(self.king_at(Color::White, wk.index()));
                assert(near.has(b));
                assert(bit(self.kings.0, b));
                assert(king_attack(wk.index(), b));
                assert(!(forall|a: int, b: int| #[trigger] self.king_at(Color::White, a) && #[trigger] bit(self.kings.0, b) ==> !king_attack(a, b)));
            }
            return false;
        }
        proof {
            lemma_zero_iff_no_bits(near.0);
            assert forall|a: int, b: int| #[trigger] self.king_at(Color::White, a) && #[trigger] bit(self.kings.0, b) implies !king_attack(a, b) by {
                let w = crate::bits::lemma_count_bits_one_witness(white_kings.0, 64);
                assert(white_kings.has(a));
                assert(white_kings.has(wk.index()));
                assert(!near.has(b));
            }
        }
        true
    }
}

impl BoardPosition {
    /// The en passant square a position built from `m` gets: the square on the en passant
    /// file and the third rank of the side that just moved, when a pawn of the side to move
    /// stands beside the pawn that passed it.
    pub open spec fn ep_from_builder(self, m: BuilderModel) -> Option<Square> {
        match m.4 {
            Some(f) => if exists|j: int| #[trigger] self.piece_at(j) == Some(Piece { type_: PieceType::Pawn, color: m.1 })
                && rk(j) == (if m.1 == Color::White { 4int } else { 3int }) && (fl(j) == f + 1 || fl(j) == f - 1) {
                Some(square_at(ep_rank_of(m.1) * 8 + f))
            } else {
                None
            },
            None => None,
        }
    }

    /// The position holds what `m` describes.
    pub open spec fn describes(self, m: BuilderModel) -> bool {
        &&& forall|i: int| 0 <= i < 64 ==> #[trigger] self.piece_at(i) == m.0[i]
        &&& self.turn_ == m.1
        &&& self.white_castle_rights == m.2
        &&& self.black_castle_rights == m.3
        &&& self.ep == self.ep_from_builder(m)
        &&& self.halfmove_clock == m.5
        &&& self.fullmove_number == m.6
    }
}

/// Whether a position is sane depends only on its pieces, side to move, castle rights and en
/// passant square.
pub proof fn lemma_sane_depends(a: BoardPosition, b: BoardPosition)
    requires
        a.wf(),
        b.wf(),
        forall|i: int| #[trigger] a.piece_at(i) == b.piece_at(i),
        a.turn_ == b.turn_,
        a.white_castle_rights == b.white_castle_rights,
        a.black_castle_rights == b.black_castle_rights,
        a.ep == b.ep,
    ensures
        a.sane_spec() == b.sane_spec(),
{
    crate::position_legal::lemma_same_pieces_attacks(a, b);
    assert forall|i: int| #[trigger] bit(a.kings.0, i) == bit(b.kings.0, i) by {
        lemma_piece_at_facts(a, i);
        lemma_piece_at_facts(b, i);
        assert(a.kings.0 == a.mask_of(PieceType::King));
        assert(b.kings.0 == b.mask_of(PieceType::King));
    }
    crate::bits::lemma_eq_iff_bits(a.kings.0, b.kings.0);
    assert forall|i: int| #[trigger] bit(a.white.0, i) == bit(b.white.0, i) by {
        lemma_piece_at_facts(a, i);
        lemma_piece_at_facts(b, i);
        assert(a.white.0 == a.color_mask(Color::White));
        assert(b.white.0 == b.color_mask(Color::White));
    }
    crate::bits::lemma_eq_iff_bits(a.white.0, b.white.0);
    assert forall|i: int| #[trigger] bit(a.black.0, i) == bit(b.black.0, i) by {
        lemma_piece_at_facts(a, i);
        lemma_piece_at_facts(b, i);
        assert(a.black.0 == a.color_mask(Color::Black));
        assert(b.black.0 == b.color_mask(Color::Black));
    }
    crate::bits::lemma_eq_iff_bits(a.black.0, b.black.0);
    assert(a.kings == b.kings && a.white == b.white && a.black == b.black);
    assert(forall|c: Color| #[trigger] a.color_mask(c) == b.color_mask(c));
    assert(forall|k: int, c: Color| #[trigger] a.king_at(c, k) == b.king_at(c, k));
    assert(a.ep_consistent() == b.ep_consistent());
    lemma_castle_consistent_same(a, b, Color::White);
    lemma_castle_consistent_same(a, b, Color::Black);
    if exists|k: int| #[trigger] a.king_at(a.turn_.other(), k) && a.attacked_by(k, a.turn_) {
        let k = choose|k: int| #[trigger] a.king_at(a.turn_.other(), k) && a.attacked_by(k, a.turn_);
        assert(b.king_at(b.turn_.other(), k) && b.attacked_by(k, b.turn_));
    }
    if exists|k: int| #[trigger] b.king_at(b.turn_.other(), k) && b.attacked_by(k, b.turn_) {
        let k = choose|k: int| #[trigger] b.king_at(b.turn_.other(), k) && b.attacked_by(k, b.turn_);
        assert(a.king_at(a.turn_.other(), k) && a.attacked_by(k, a.turn_));
    }
    assert((forall|x: int, y: int| #[trigger] a.king_at(Color::White, x) && #[trigger] bit(a.kings.0, y) ==> !king_attack(x, y))
        == (forall|x: int, y: int| #[trigger] b.king_at(Color::White, x) && #[trigger] bit(b.kings.0, y) ==> !king_attack(x, y))) by {
        if forall|x: int, y: int| #[trigger] a.king_at(Color::White, x) && #[trigger] bit(a.kings.0, y) ==> !king_attack(x, y) {
            assert forall|x: int, y: int| #[trigger] b.king_at(Color::White, x) && #[trigger] bit(b.kings.0, y) implies !king_attack(x, y) by {
                assert(a.king_at(Color::White, x) && bit(a.kings.0, y));
            }
        }
        if forall|x: int, y: int| #[trigger] b.king_at(Color::White, x) && #[trigger] bit(b.kings.0, y) ==> !king_attack(x, y) {
            assert forall|x: int, y: int| #[trigger] a.king_at(Color::White, x) && #[trigger] bit(a.kings.0, y) implies !king_attack(x, y) by {
                assert(b.king_at(Color::White, x) && bit(b.kings.0, y));
            }
        }
    }
}

proof fn lemma_castle_consistent_same(a: BoardPosition, b: BoardPosition, c: Color)
    requires
        forall|i: int| #[trigger] a.piece_at(i) == b.piece_at(i),
        forall|k: int, c: Color| #[trigger] a.king_at(c, k) == b.king_at(c, k),
        a.white_castle_rights == b.white_castle_rights,
        a.black_castle_rights == b.black_castle_rights,
    ensures
        a.castle_rights_consistent(c) == b.castle_rights_consistent(c),
{
    let base = back_rank_base(c);
    assert(a.piece_at(base) == b.piece_at(base));
    assert(a.piece_at(base + 7) == b.piece_at(base + 7));
    assert((forall|i: int| #[trigger] a.king_at(c, i) <==> i == base + 4) == (forall|i: int| #[trigger] b.king_at(c, i) <==> i == base + 4)) by {
        if forall|i: int| #[trigger] a.king_at(c, i) <==> i == base + 4 {
            assert forall|i: int| #[trigger] b.king_at(c, i) <==> i == base + 4 by {
                assert(a.king_at(c, i) == b.king_at(c, i));
            }
        }
        if forall|i: int| #[trigger] b.king_at(c, i) <==> i == base + 4 {
            assert forall|i: int| #[trigger] a.king_at(c, i) <==> i == base + 4 by {
                assert(a.king_at(c, i) == b.king_at(c, i));
            }
        }
    }
}

/// The en passant square a builder gives depends only on the pieces.
proof fn lemma_ep_from_builder_same(a: BoardPosition, b: BoardPosition, m: BuilderModel)
    requires
        forall|i: int| #[trigger] a.piece_at(i) == b.piece_at(i),
    ensures
        a.ep_from_builder(m) == b.ep_from_builder(m),
{
    if m.4 is Some {
        let f = m.4.unwrap();
        if exists|j: int| #[trigger] a.piece_at(j) == Some(Piece { type_: PieceType::Pawn, color: m.1 })
            && rk(j) == (if m.1 == Color::White { 4int } else { 3int }) && (fl(j) == f + 1 || fl(j) == f - 1) {
            let j = choose|j: int| #[trigger] a.piece_at(j) == Some(Piece { type_: PieceType::Pawn, color: m.1 })
                && rk(j) == (if m.1 == Color::White { 4int } else { 3int }) && (fl(j) == f + 1 || fl(j) == f - 1);
            assert(b.piece_at(j) == a.piece_at(j));
        }
        if exists|j: int| #[trigger] b.piece_at(j) == Some(Piece { type_: PieceType::Pawn, color: m.1 })
            && rk(j) == (if m.1 == Color::White { 4int } else { 3int }) && (fl(j) == f + 1 || fl(j) == f - 1) {
            let j = choose|j: int| #[trigger] b.piece_at(j) == Some(Piece { type_: PieceType::Pawn, color: m.1 })
                && rk(j) == (if m.1 == Color::White { 4int } else { 3int }) && (fl(j) == f + 1 || fl(j) == f - 1);
            assert(b.piece_at(j) == a.piece_at(j));
        }
    }
}

impl BoardPosition {
    /// Put the pieces of `builder` on an empty board.
    fn place_builder_pieces(builder: &MiniBoardBuilder) -> (r: BoardPosition)
        requires
            builder.wf(),
        ensures
            r.wf(),
            forall|i: int| 0 <= i < 64 ==> #[trigger] r.piece_at(i) == builder.model().0[i],
            r.turn_ == Color::White,
            r.white_castle_rights == CastleRights::NoRights,
            r.black_castle_rights == CastleRights::NoRights,
            r.ep is None,
            r.halfmove_clock == 0,
            r.fullmove_number == 1,
    {
        let mut position = BoardPosition::new_empty();
        let mut k: usize = 0;
        while k < 64
            invariant
                k <= 64,
                builder.wf(),
                position.wf(),
                forall|i: int| 0 <= i < k ==> #[trigger] position.piece_at(i) == builder.model().0[i],
                forall|i: int| k <= i ==> #[trigger] position.piece_at(i) is None,
                position.turn_ == Color::White,
                position.white_castle_rights == CastleRights::NoRights,
                position.black_castle_rights == CastleRights::NoRights,
                position.ep is None,
                position.halfmove_clock == 0,
                position.fullmove_number == 1,
            decreases 64 - k,
        {
            let sq = Square::from_index(k);
            match builder.get_piece(sq) {
                Some(piece) => {
                    position.xor(piece.type_, sq, piece.color);
                },
                None => {},
            }
            k = k + 1;
        }
        position
    }

    /// The position `builder` describes, when it could arise in a game; else the error
    /// holding the position built.
    pub fn from_builder(builder: &MiniBoardBuilder) -> (r: Result<BoardPosition, TimecatError>)
        requires
            builder.wf(),
        ensures
            r matches Ok(p) ==> p.wf() && p.info_ok() && p.describes(builder.model()) && p.sane_spec(),
            r is Err ==> (r matches Err(e) && e is InvalidBoardPosition) && forall|p: BoardPosition| p.wf() && #[trigger] p.describes(builder.model()) ==> !p.sane_spec(),
    {
        let ghost m = builder.model();
        let mut position = BoardPosition::place_builder_pieces(builder);
        let ghost placed = position;
        position.set_turn_unchecked(builder.get_turn());
        match builder.get_en_passant() {
            Some(ep) => {
                position.flip_turn_unchecked();
                proof {
                    crate::position_move::lemma_same_placement_wf(placed, position);
                }
                let ghost before = position;
                position.set_ep(ep);
                position.flip_turn_unchecked();
                proof {
                    let d = (if ep.rank() > 3 { ep.rank() - 1 } else { ep.rank() + 1 }) * 8 + ep.file();
                    let f = m.4.unwrap();
                    crate::types::lemma_square_at_range(ep_rank_of(m.1) * 8 + f);
                    assert(ep.index() == ep_rank_of(m.1) * 8 + f);
                    assert(rk(d) == (if m.1 == Color::White { 4int } else { 3int }));
                    assert(fl(d) == f);
                    assert(before.turn_.other() == m.1);
                    assert(forall|j: int| #[trigger] before.piece_at(j) == placed.piece_at(j));
                    if before.ep_takers_beside(d) {
                        let j = choose|j: int| #[trigger] before.piece_at(j) == Some(Piece { type_: PieceType::Pawn, color: before.turn_.other() })
                            && rk(j) == rk(d) && (fl(j) == fl(d) + 1 || fl(j) == fl(d) - 1);
                        assert(placed.piece_at(j) == Some(Piece { type_: PieceType::Pawn, color: m.1 }));
                    }
                    let e = placed.ep_from_builder(m);
                    if exists|j: int| #[trigger] placed.piece_at(j) == Some(Piece { type_: PieceType::Pawn, color: m.1 })
                        && rk(j) == (if m.1 == Color::White { 4int } else { 3int }) && (fl(j) == f + 1 || fl(j) == f - 1) {
                        let j = choose|j: int| #[trigger] placed.piece_at(j) == Some(Piece { type_: PieceType::Pawn, color: m.1 })
                            && rk(j) == (if m.1 == Color::White { 4int } else { 3int }) && (fl(j) == f + 1 || fl(j) == f - 1);
                        assert(before.piece_at(j) == placed.piece_at(j));
                        assert(before.ep_takers_beside(d));
                    }
                    assert(position.ep == placed.ep_from_builder(m));
                }
            },
            None => {},
        }
        position.add_castle_rights(Color::White, builder.get_castle_rights(Color::White));
        position.add_castle_rights(Color::Black, builder.get_castle_rights(Color::Black));
        position.halfmove_clock = builder.get_halfmove_clock();
        position.fullmove_number = builder.get_fullmove_number();
        proof {
            crate::position_move::lemma_same_placement_wf(placed, position);
            assert(CastleRights::NoRights.union(m.2) == m.2);
            assert(CastleRights::NoRights.union(m.3) == m.3);
            assert(forall|i: int| 0 <= i < 64 ==> #[trigger] position.piece_at(i) == m.0[i]);
            assert(position.turn_ == m.1);
            assert(position.white_castle_rights == m.2);
            assert(position.black_castle_rights == m.3);
            lemma_ep_from_builder_same(position, placed, m);
            assert(position.ep == position.ep_from_builder(m));
            assert(position.halfmove_clock == m.5);
            assert(position.fullmove_number == m.6);
            assert(position.describes(m));
            assert forall|p: BoardPosition| p.wf() && #[trigger] p.describes(m) implies p.sane_spec() == position.sane_spec() by {
                assert forall|i: int| #[trigger] p.piece_at(i) == position.piece_at(i) by {
                    if !(0 <= i < 64) {
                        lemma_piece_at_facts(p, i);
                        lemma_piece_at_facts(position, i);
                    }
                }
                lemma_ep_from_builder_same(p, position, m);
                lemma_sane_depends(p, position);
            }
        }
        let ghost before_info = position;
        position.update_pin_and_checkers_info();
        proof {
            crate::position_move::lemma_same_placement_wf(before_info, position);
            lemma_sane_depends(before_info, position);
            lemma_ep_from_builder_same(position, before_info, m);
            assert(position.describes(m));
        }
        if position.is_sane() {
            Ok(position)
        } else {
            Err(TimecatError::InvalidBoardPosition { position })
        }
    }
}

impl BoardPosition {
    /// The pieces of the position, square by square.
    pub open spec fn pieces_seq(self) -> Seq<Option<Piece>> {
        Seq::new(64, |i: int| self.piece_at(i))
    }

    /// What the builder of the position describes.
    pub open spec fn builder_model(self) -> BuilderModel {
        (self.pieces_seq(), self.turn_, self.white_castle_rights, self.black_castle_rights, match self.ep {
            Some(sq) => Some(sq.file()),
            None => None,
        }, self.halfmove_clock, self.fullmove_number)
    }

    /// The builder describing the position.
    pub fn to_builder(&self) -> (r: MiniBoardBuilder)
        requires
            self.wf(),
        ensures
            r.wf(),
            r.model() == self.builder_model(),
    {
        let mut b = MiniBoardBuilder::new();
        let mut k: usize = 0;
        while k < 64
            invariant
                k <= 64,
                self.wf(),
                b.wf(),
                b.model() == (Seq::new(64, |i: int| if i < k { self.piece_at(i) } else { None }), Color::White, CastleRights::NoRights, CastleRights::NoRights, None::<int>, 0u8, 1u16),
            decreases 64 - k,
        {
            let sq = Square::from_index(k);
            match self.get_piece_at(sq) {
                Some(p) => {
                    b.add_piece(sq, p);
                },
                None => {},
            }
            proof {
                assert(b.model().0 =~= Seq::new(64, |i: int| if i < k + 1 { self.piece_at(i) } else { None }));
            }
            k = k + 1;
        }
        proof {
            assert(b.model().0 =~= self.pieces_seq());
        }
        b.turn(self.turn_);
        b.castle_rights(Color::White, self.white_castle_rights);
        b.castle_rights(Color::Black, self.black_castle_rights);
        match self.ep {
            Some(sq) => b.ep_file(Some(sq.get_file())),
            None => b.ep_file(None),
        }
        b.halfmove_clock(self.halfmove_clock);
        b.fullmove_number(self.fullmove_number);
        b
    }

    /// The FEN text of the position: that of its builder.
    pub fn get_fen(&self) -> (r: String)
        requires
            self.wf(),
        ensures
            r@ == crate::builder::fen_text(self.builder_model(), ep_rank_of(self.turn_)),
    {
        self.to_builder().to_string()
    }

    /// The position the FEN text `fen` describes, when it reads and the position could arise
    /// in a game.
    pub fn from_fen(fen: &str) -> (r: Result<BoardPosition, TimecatError>)
        ensures
            match crate::builder::fen_model(fen@) {
                None => r matches Err(e) && e is BadFen,
                Some(m) => {
                    &&& r matches Ok(p) ==> p.wf() && p.info_ok() && p.describes(m) && p.sane_spec()
                    &&& r is Err ==> (r matches Err(e) && e is InvalidBoardPosition) && forall|p: BoardPosition|
                        p.wf() && #[trigger] p.describes(m) ==> !p.sane_spec()
                },
            },
    {
        match MiniBoardBuilder::from_str(fen) {
            Ok(b) => BoardPosition::from_builder(&b),
            Err(e) => Err(e),
        }
    }

    /// The same as `from_fen`.
    pub fn from_str(fen: &str) -> (r: Result<BoardPosition, TimecatError>)
        ensures
            match crate::builder::fen_model(fen@) {
                None => r matches Err(e) && e is BadFen,
                Some(m) => {
                    &&& r matches Ok(p) ==> p.wf() && p.info_ok() && p.describes(m) && p.sane_spec()
                    &&& r is Err ==> (r matches Err(e) && e is InvalidBoardPosition) && forall|p: BoardPosition|
                        p.wf() && #[trigger] p.describes(m) ==> !p.sane_spec()
                },
            },
    {
        BoardPosition::from_fen(fen)
    }
}

} // verus!
