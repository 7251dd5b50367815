//! Making a move on a position.
use vstd::prelude::*;
use crate::attacks::{fl, rk};
use crate::bitboard::BitBoard;
use crate::bits::{bit, group_bit_facts, lemma_eq_iff_bits, popcount};
use crate::castle::{square_castle_rights, CastleRights};
use crate::moves::Move;
use crate::piece::{Piece, PieceType};
use crate::position::{lemma_piece_at_facts, BoardPosition};
use crate::types::{group_square_facts, Color, Square};

verus! {

broadcast use group_bit_facts, group_square_facts;

/// `i` is one of the squares a king starts from or castles to (c, e and g of both back ranks).
pub open spec fn castle_square(i: int) -> bool {
    i == 2 || i == 4 || i == 6 || i == 58 || i == 60 || i == 62
}

/// The back rank's first square of `color`.
pub open spec fn back_rank_base(color: Color) -> int {
    if color == Color::White { 0 } else { 56 }
}

/// The rank of the square one step behind rank `r`, seen from `color`, wrapping around.
pub open spec fn behind_rank(color: Color, r: int) -> int {
    if color == Color::White { (r + 7) % 8 } else { (r + 1) % 8 }
}

impl BoardPosition {
    /// The type of the piece on the source square of `m`.
    pub open spec fn moved_type(self, m: Move) -> PieceType {
        self.type_on(m.source.index()).unwrap()
    }

    /// The type of the piece that lands on the destination square: the promotion piece for a
    /// pawn move that names one, else the moving piece.
    pub open spec fn landing_type(self, m: Move) -> PieceType {
        if self.moved_type(m) == PieceType::Pawn && m.promotion is Some {
            m.promotion.unwrap()
        } else {
            self.moved_type(m)
        }
    }

    /// A king move between two of the castle squares.
    pub open spec fn castles_spec(self, m: Move) -> bool {
        &&& self.moved_type(m) == PieceType::King
        &&& castle_square(m.source.index())
        &&& castle_square(m.dest.index())
    }

    /// The rook's square before castling: the a- or h-file corner of the mover's back rank.
    pub open spec fn castle_rook_from(self, m: Move) -> int {
        back_rank_base(self.turn_) + if fl(m.dest.index()) < 4 { 0int } else { 7int }
    }

    /// The rook's square after castling: the d- or f-file of the mover's back rank.
    pub open spec fn castle_rook_to(self, m: Move) -> int {
        back_rank_base(self.turn_) + if fl(m.dest.index()) < 4 { 3int } else { 5int }
    }

    /// A pawn move without promotion from rank 2 or 7 to rank 4 or 5.
    pub open spec fn double_push_spec(self, m: Move) -> bool {
        &&& self.moved_type(m) == PieceType::Pawn
        &&& m.promotion is None
        &&& (rk(m.source.index()) == 1 || rk(m.source.index()) == 6)
        &&& (rk(m.dest.index()) == 3 || rk(m.dest.index()) == 4)
    }

    /// A pawn move without promotion onto the en passant square, which is not a double push.
    pub open spec fn ep_capture_spec(self, m: Move) -> bool {
        &&& self.moved_type(m) == PieceType::Pawn
        &&& m.promotion is None
        &&& !self.double_push_spec(m)
        &&& self.ep == Some(m.dest)
    }

    /// The square of the pawn taken en passant: one step behind the destination.
    pub open spec fn ep_victim(self, m: Move) -> int {
        behind_rank(self.turn_, rk(m.dest.index())) * 8 + fl(m.dest.index())
    }

    /// The piece on square `i` once `m` is made.
    pub open spec fn moved_piece_at(self, m: Move, i: int) -> Option<Piece> {
        if i == m.source.index() {
            None
        } else if i == m.dest.index() {
            Some(Piece { type_: self.landing_type(m), color: self.turn_ })
        } else if self.ep_capture_spec(m) && i == self.ep_victim(m) {
            None
        } else if self.castles_spec(m) && i == self.castle_rook_from(m) {
            None
        } else if self.castles_spec(m) && i == self.castle_rook_to(m) {
            Some(Piece { type_: PieceType::Rook, color: self.turn_ })
        } else {
            self.piece_at(i)
        }
    }

    /// Exactly one king of `color` is on the board.
    pub open spec fn one_king(self, color: Color) -> bool {
        popcount(self.kings.0 & self.color_mask(color)) == 1
    }

    /// The pieces of `m` can be moved: a piece of the side to move leaves its square for another
    /// one that holds no piece of its own side and no king, and the pawn taken en passant and
    /// the castling rook are where they should be.
    pub open spec fn move_fits(self, m: Move) -> bool {
        &&& m.source != m.dest
        &&& self.piece_at(m.source.index()) matches Some(p) && p.color == self.turn_
        &&& (self.piece_at(m.dest.index()) matches Some(q) ==> q.color == self.turn_.other()
            && q.type_ != PieceType::King)
        &&& self.ep_capture_spec(m) ==> self.piece_at(self.ep_victim(m)) == Some(
            Piece { type_: PieceType::Pawn, color: self.turn_.other() },
        )
        &&& self.castles_spec(m) ==> self.piece_at(self.castle_rook_from(m)) == Some(
            Piece { type_: PieceType::Rook, color: self.turn_ },
        ) && self.piece_at(self.castle_rook_to(m)) is None
    }

    /// `m` can be made on this position: its pieces can be moved and the move clocks have room
    /// to count on.
    pub open spec fn move_ok(self, m: Move) -> bool {
        &&& self.move_fits(m)
        &&& self.halfmove_clock < 255
        &&& self.turn_ == Color::Black ==> self.fullmove_number < 65535
    }

    /// Some pawn of the side not to move stands beside `dest` on its rank, ready to take en
    /// passant.
    pub open spec fn ep_takers_beside(self, dest: int) -> bool {
        exists|j: int| #[trigger] self.piece_at(j) == Some(Piece { type_: PieceType::Pawn, color: self.turn_.other() })
            && rk(j) == rk(dest) && (fl(j) == fl(dest) + 1 || fl(j) == fl(dest) - 1)
    }

    /// The en passant square after `m`: the square the pawn passed over on a double push, when
    /// an enemy pawn stands beside its destination, else none.
    pub open spec fn ep_after(self, m: Move) -> Option<Square> {
        if self.double_push_spec(m) && self.moved_placement_has_ep_taker(m) {
            Some(crate::types::square_at(self.ep_victim(m)))
        } else {
            None
        }
    }

    /// After `m`, a pawn of the side not to move stands beside the destination on its rank.
    pub open spec fn moved_placement_has_ep_taker(self, m: Move) -> bool {
        exists|j: int| #[trigger] self.moved_piece_at(m, j) == Some(Piece { type_: PieceType::Pawn, color: self.turn_.other() })
            && 0 <= j < 64 && rk(j) == rk(m.dest.index()) && (fl(j) == fl(m.dest.index()) + 1 || fl(j)
            == fl(m.dest.index()) - 1)
    }

    /// A pawn move or a capture.
    pub open spec fn zeroing_spec(self, m: Move) -> bool {
        m.source != m.dest && (bit(self.pawns.0, m.source.index()) || bit(self.pawns.0, m.dest.index())
            || bit(self.color_mask(self.turn_.other()), m.source.index()) || bit(
            self.color_mask(self.turn_.other()),
            m.dest.index(),
        ))
    }

    /// What making `m` gives, apart from the placement: the other side to move, castle rights
    /// lost by the squares touched, the new en passant square and the move clocks.
    pub open spec fn after_move_state(self, m: Move, r: BoardPosition) -> bool {
        &&& r.turn_ == self.turn_.other()
        &&& r.castle_rights_of(self.turn_) == self.castle_rights_of(self.turn_).minus(
            square_castle_rights(self.turn_, m.source.index()),
        )
        &&& r.castle_rights_of(self.turn_.other()) == self.castle_rights_of(self.turn_.other()).minus(
            square_castle_rights(self.turn_.other(), m.dest.index()),
        )
        &&& r.ep == self.ep_after(m)
        &&& r.halfmove_clock == if self.zeroing_spec(m) { 0 } else { self.halfmove_clock + 1 }
        &&& r.fullmove_number == if self.turn_ == Color::Black {
            self.fullmove_number + 1
        } else {
            self.fullmove_number as int
        }
    }

    /// The position after `move_`, with the checkers and pinned pieces of the new side to move.
    pub fn make_move_new(&self, move_: Move) -> (r: BoardPosition)
        requires
            self.wf(),
            self.move_ok(move_),
        ensures
            r.wf(),
            r.info_ok(),
            forall|i: int| #[trigger] r.piece_at(i) == self.moved_piece_at(move_, i),
            self.after_move_state(move_, r),
            r == self.after_move(move_),
    {
        let zeroing = self.is_zeroing(move_);
        let us = self.turn_;
        let them = us.flip();
        let my_rights = self.castle_rights(us).remove(CastleRights::square_to_castle_rights(us, move_.source));
        let their_rights = self.castle_rights(them).remove(CastleRights::square_to_castle_rights(them, move_.dest));
        let mut result = *self;
        result.apply_placement(move_);
        let placed = result;
        let ep = self.ep_after_move(&placed, move_);
        result.halfmove_clock = if zeroing { 0 } else { self.halfmove_clock + 1 };
        if us == Color::Black {
            result.fullmove_number = self.fullmove_number + 1;
        }
        match us {
            Color::White => {
                result.white_castle_rights = my_rights;
                result.black_castle_rights = their_rights;
            },
            Color::Black => {
                result.black_castle_rights = my_rights;
                result.white_castle_rights = their_rights;
            },
        }
        result.ep = ep;
        result.turn_ = them;
        proof {
            lemma_same_placement_wf(placed, result);
        }
        let ghost pre = result;
        result.update_pin_and_checkers_info();
        proof {
            lemma_same_placement_wf(pre, result);
            assert(self.made(move_, result));
            let q = self.after_move(move_);
            assert(self.made(move_, q));
            lemma_position_ext(result, q);
        }
        result
    }

    /// The en passant square after `move_`, given the placement `placed` it leads to.
    fn ep_after_move(&self, placed: &BoardPosition, move_: Move) -> (r: Option<Square>)
        requires
            self.wf(),
            self.move_ok(move_),
            placed.wf(),
            placed.turn_ == self.turn_,
            forall|i: int| #[trigger] placed.piece_at(i) == self.moved_piece_at(move_, i),
        ensures
            r == self.ep_after(move_),
    {
        let src = move_.source;
        let dst = move_.dest;
        proof {
            lemma_piece_at_facts(*self, src.index());
        }
        if self.pawns.contains(src) && move_.promotion.is_none()
            && crate::attacks::get_pawn_source_double_moves().contains(src)
            && crate::attacks::get_pawn_dest_double_moves().contains(dst) {
            let passed = dst.wrapping_backward(self.turn_);
            let mut tmp = *placed;
            tmp.ep = None;
            proof {
                lemma_same_placement_wf(*placed, tmp);
            }
            let ghost before_ep = tmp;
            tmp.set_ep(passed);
            proof {
                assert(self.double_push_spec(move_));
                assert(passed.index() == self.ep_victim(move_));
                let d = (if passed.rank() > 3 { passed.rank() - 1 } else { passed.rank() + 1 }) * 8 + passed.file();
                assert(d == dst.index());
                if before_ep.ep_takers_beside(d) {
                    let j = choose|j: int| #[trigger] before_ep.piece_at(j) == Some(Piece { type_: PieceType::Pawn, color: before_ep.turn_.other() })
                        && rk(j) == rk(d) && (fl(j) == fl(d) + 1 || fl(j) == fl(d) - 1);
                    lemma_piece_at_facts(before_ep, j);
                    assert(self.moved_piece_at(move_, j) == before_ep.piece_at(j));
                    assert(self.moved_placement_has_ep_taker(move_));
                }
                if self.moved_placement_has_ep_taker(move_) {
                    let j = choose|j: int| #[trigger] self.moved_piece_at(move_, j) == Some(Piece { type_: PieceType::Pawn, color: self.turn_.other() })
                        && 0 <= j < 64 && rk(j) == rk(move_.dest.index()) && (fl(j) == fl(move_.dest.index()) + 1 || fl(j)
                        == fl(move_.dest.index()) - 1);
                    assert(before_ep.piece_at(j) == self.moved_piece_at(move_, j));
                    assert(before_ep.ep_takers_beside(d));
                }
                assert(crate::types::square_at(self.ep_victim(move_)) == passed);
            }
            tmp.ep
        } else {
            proof {
                assert(!self.double_push_spec(move_));
            }
            None
        }
    }

    /// Move the pieces of `move_`: the captured piece, the moving piece (promoted when it
    /// names a promotion), the pawn taken en passant and the castling rook.
    pub fn apply_placement(&mut self, move_: Move)
        requires
            old(self).wf(),
            old(self).move_fits(move_),
        ensures
            final(self).wf(),
            final(self).same_state(*old(self)),
            forall|i: int| #[trigger] final(self).piece_at(i) == old(self).moved_piece_at(move_, i),
    {
        let ghost p0 = *self;
        let src = move_.source;
        let dst = move_.dest;
        let us = self.turn_;
        let them = us.flip();
        proof {
            lemma_piece_at_facts(p0, src.index());
            lemma_piece_at_facts(p0, dst.index());
        }
        let moved = match self.get_piece_type_at(src) {
            Some(t) => t,
            None => PieceType::Pawn,
        };
        let captured = self.get_piece_type_at(dst);
        match captured {
            Some(c) => {
                self.xor(c, dst, them);
            },
            None => {},
        }
        let ghost p1 = *self;
        self.xor(moved, src, us);
        let landing = match move_.promotion {
            Some(p) => if moved == PieceType::Pawn { p } else { moved },
            None => moved,
        };
        self.xor(landing, dst, us);
        let ghost p2 = *self;
        proof {
            assert forall|i: int| i != src.index() && i != dst.index() implies #[trigger] p2.piece_at(i) == p0.piece_at(i) by {
                assert(p1.piece_at(i) == p0.piece_at(i));
            }
            assert(p2.piece_at(src.index()) is None);
            assert(p2.piece_at(dst.index()) == Some(Piece { type_: p0.landing_type(move_), color: us }));
        }
        let castle_moves = crate::attacks::get_castle_moves();
        if moved == PieceType::Pawn {
            let plain = move_.promotion.is_none();
            let double = crate::attacks::get_pawn_source_double_moves().contains(src)
                && crate::attacks::get_pawn_dest_double_moves().contains(dst);
            if plain && !double && self.ep == Some(dst) {
                let victim = dst.wrapping_backward(us);
                proof {
                    assert(p0.ep_capture_spec(move_));
                    assert(victim.index() == p0.ep_victim(move_));
                    assert(p2.piece_at(victim.index()) == p0.piece_at(victim.index()));
                }
                self.xor(PieceType::Pawn, victim, them);
            } else {
                proof {
                    assert(!p0.ep_capture_spec(move_));
                }
            }
        } else if moved == PieceType::King && castle_moves.contains(src) && castle_moves.contains(dst) {
            let back = us.to_my_backrank();
            let index = dst.get_file().to_index();
            let from = if index < 4 {
                Square::from_rank_and_file(back, crate::types::File::A)
            } else {
                Square::from_rank_and_file(back, crate::types::File::H)
            };
            let to = if index < 4 {
                Square::from_rank_and_file(back, crate::types::File::D)
            } else {
                Square::from_rank_and_file(back, crate::types::File::F)
            };
            proof {
                assert(p0.castles_spec(move_));
                assert(from.index() == p0.castle_rook_from(move_));
                assert(to.index() == p0.castle_rook_to(move_));
                assert(p2.piece_at(from.index()) == p0.piece_at(from.index()));
                assert(p2.piece_at(to.index()) == p0.piece_at(to.index()));
            }
            self.xor(PieceType::Rook, from, us);
            self.xor(PieceType::Rook, to, us);
        } else {
            proof {
                assert(!p0.castles_spec(move_));
                assert(!p0.ep_capture_spec(move_));
            }
        }
    }

    /// Set the en passant square to `square`, the square a pawn of the side to move just
    /// passed over, when a pawn of the other side stands beside the pawn and can take it.
    pub(crate) fn set_ep(&mut self, square: Square)
        requires
            old(self).wf(),
        ensures
            final(self).ep == if old(self).ep_takers_beside(
                (if square.rank() > 3 { square.rank() - 1 } else { square.rank() + 1 }) * 8 + square.file(),
            ) {
                Some(square)
            } else {
                old(self).ep
            },
            final(self).same_placement(*old(self)),
            final(self).turn_ == old(self).turn_,
            final(self).white_castle_rights == old(self).white_castle_rights,
            final(self).black_castle_rights == old(self).black_castle_rights,
            final(self).halfmove_clock == old(self).halfmove_clock,
            final(self).fullmove_number == old(self).fullmove_number,
            final(self).pinned_bb == old(self).pinned_bb,
            final(self).checkers_bb == old(self).checkers_bb,
    {
        let rank = square.get_rank();
        let rank = if rank.to_int() > 3 { rank.wrapping_down() } else { rank.wrapping_up() };
        let files = square.get_file().get_adjacent_files_bb();
        let takers = files.and(rank.to_bitboard()).and(self.get_piece_mask(PieceType::Pawn)).and(
            self.opponent_occupied(),
        );
        let ghost d = (if square.rank() > 3 { square.rank() - 1 } else { square.rank() + 1 }) * 8 + square.file();
        proof {
            assert forall|j: int| #[trigger] takers.has(j) == (self.piece_at(j) == Some(Piece { type_: PieceType::Pawn, color: self.turn_.other() })
                && rk(j) == rk(d) && (fl(j) == fl(d) + 1 || fl(j) == fl(d) - 1)) by {
                lemma_piece_at_facts(*self, j);
                assert(files.has(j) == (0 <= j < 64 && (fl(j) == square.file() + 1 || fl(j) == square.file() - 1)));
            }
        }
        if takers.is_not_empty() {
            proof {
                let j = choose|j: int| takers.has(j);
                assert(self.piece_at(j) == Some(Piece { type_: PieceType::Pawn, color: self.turn_.other() }));
            }
            self.ep = Some(square);
        } else {
            proof {
                assert forall|j: int| !(#[trigger] self.piece_at(j) == Some(Piece { type_: PieceType::Pawn, color: self.turn_.other() })
                    && rk(j) == rk(d) && (fl(j) == fl(d) + 1 || fl(j) == fl(d) - 1)) by {
                    assert(!takers.has(j));
                }
            }
        }
    }
}

/// Two positions with the same piece masks and keys are well formed together.
pub proof fn lemma_same_placement_wf(a: BoardPosition, b: BoardPosition)
    requires
        a.wf(),
        b.same_placement(a),
    ensures
        b.wf(),
        forall|i: int| #[trigger] b.piece_at(i) == a.piece_at(i),
{
    assert forall|i: int| #[trigger] b.square_ok(i) by {
        assert(a.square_ok(i));
    }
    assert forall|i: int| #[trigger] b.piece_at(i) == a.piece_at(i) by {}
    assert(b.material(Color::White) == a.material(Color::White)) by {
        assert((|i: int| b.square_material(Color::White, i)) =~= (|i: int| a.square_material(Color::White, i)));
    }
    assert(b.material(Color::Black) == a.material(Color::Black)) by {
        assert((|i: int| b.square_material(Color::Black, i)) =~= (|i: int| a.square_material(Color::Black, i)));
    }
    assert(b.pawn_hash_spec() == a.pawn_hash_spec()) by {
        assert((|i: int| b.square_pawn_key(i)) =~= (|i: int| a.square_pawn_key(i)));
    }
    assert(b.non_pawn_hash_spec() == a.non_pawn_hash_spec()) by {
        assert((|i: int| b.square_piece_key(i)) =~= (|i: int| a.square_piece_key(i)));
    }
}

/// The kings of `color` sit where a piece says so.
pub proof fn lemma_king_bits(p: BoardPosition, color: Color, i: int)
    requires
        p.placement_ok(),
    ensures
        bit(p.kings.0 & p.color_mask(color), i) == (p.piece_at(i) == Some(Piece { type_: PieceType::King, color })),
{
    lemma_piece_at_facts(p, i);
    assert(p.kings.0 == p.mask_of(PieceType::King));
}

/// Making a move that captures no king leaves the kings of the other side in place.
pub proof fn lemma_king_mask_same(p: BoardPosition, r: BoardPosition, m: Move)
    requires
        p.wf(),
        r.wf(),
        p.move_fits(m),
        p.one_king(p.turn_.other()),
        forall|i: int| #[trigger] r.piece_at(i) == p.moved_piece_at(m, i),
        r.turn_ == p.turn_.other(),
    ensures
        r.one_king(r.turn_),
{
    let them = r.turn_;
    assert forall|i: int| #[trigger] bit(r.kings.0 & r.color_mask(them), i) == bit(p.kings.0 & p.color_mask(them), i) by {
        lemma_king_bits(p, them, i);
        lemma_king_bits(r, them, i);
        lemma_piece_at_facts(p, i);
        assert(r.piece_at(i) == p.moved_piece_at(m, i));
    }
    lemma_eq_iff_bits(r.kings.0 & r.color_mask(them), p.kings.0 & p.color_mask(them));
}

impl BoardPosition {
    /// `r` is the position after `m`: well formed, with its checkers and pinned pieces, the
    /// pieces `m` leaves, and the state `m` gives.
    pub open spec fn made(self, m: Move, r: BoardPosition) -> bool {
        &&& r.wf()
        &&& r.info_ok()
        &&& forall|i: int| #[trigger] r.piece_at(i) == self.moved_piece_at(m, i)
        &&& self.after_move_state(m, r)
    }

    /// The position after `m`.
    pub open spec fn after_move(self, m: Move) -> BoardPosition {
        choose|r: BoardPosition| #[trigger] self.made(m, r)
    }
}

/// A well-formed position with its checkers and pinned pieces is determined by its pieces,
/// side to move, castle rights, en passant square and move clocks.
pub proof fn lemma_position_ext(a: BoardPosition, b: BoardPosition)
    requires
        a.wf(),
        b.wf(),
        a.info_ok(),
        b.info_ok(),
        forall|i: int| #[trigger] a.piece_at(i) == b.piece_at(i),
        a.turn_ == b.turn_,
        a.white_castle_rights == b.white_castle_rights,
        a.black_castle_rights == b.black_castle_rights,
        a.ep == b.ep,
        a.halfmove_clock == b.halfmove_clock,
        a.fullmove_number == b.fullmove_number,
    ensures
        a == b,
{
    assert forall|t: PieceType| #[trigger] a.mask_of(t) == b.mask_of(t) by {
        assert forall|i: int| #[trigger] bit(a.mask_of(t), i) == bit(b.mask_of(t), i) by {
            lemma_piece_at_facts(a, i);
            lemma_piece_at_facts(b, i);
        }
        lemma_eq_iff_bits(a.mask_of(t), b.mask_of(t));
    }
    assert forall|c: Color| #[trigger] a.color_mask(c) == b.color_mask(c) by {
        assert forall|i: int| #[trigger] bit(a.color_mask(c), i) == bit(b.color_mask(c), i) by {
            lemma_piece_at_facts(a, i);
            lemma_piece_at_facts(b, i);
        }
        lemma_eq_iff_bits(a.color_mask(c), b.color_mask(c));
    }
    assert(a.pawns == b.pawns) by { assert(a.mask_of(PieceType::Pawn) == b.mask_of(PieceType::Pawn)); }
    assert(a.knights == b.knights) by { assert(a.mask_of(PieceType::Knight) == b.mask_of(PieceType::Knight)); }
    assert(a.bishops == b.bishops) by { assert(a.mask_of(PieceType::Bishop) == b.mask_of(PieceType::Bishop)); }
    assert(a.rooks == b.rooks) by { assert(a.mask_of(PieceType::Rook) == b.mask_of(PieceType::Rook)); }
    assert(a.queens == b.queens) by { assert(a.mask_of(PieceType::Queen) == b.mask_of(PieceType::Queen)); }
    assert(a.kings == b.kings) by { assert(a.mask_of(PieceType::King) == b.mask_of(PieceType::King)); }
    assert(a.white == b.white) by { assert(a.color_mask(Color::White) == b.color_mask(Color::White)); }
    assert(a.black == b.black) by { assert(a.color_mask(Color::Black) == b.color_mask(Color::Black)); }
    crate::position_legal::lemma_same_pieces_attacks(a, b);
    assert(a.pawn_hash_spec() == b.pawn_hash_spec()) by {
        assert((|i: int| a.square_pawn_key(i)) =~= (|i: int| b.square_pawn_key(i)));
    }
    assert(a.non_pawn_hash_spec() == b.non_pawn_hash_spec()) by {
        assert((|i: int| a.square_piece_key(i)) =~= (|i: int| b.square_piece_key(i)));
    }
    assert(a.material(Color::White) == b.material(Color::White)) by {
        assert((|i: int| a.square_material(Color::White, i)) =~= (|i: int| b.square_material(Color::White, i)));
    }
    assert(a.material(Color::Black) == b.material(Color::Black)) by {
        assert((|i: int| a.square_material(Color::Black, i)) =~= (|i: int| b.square_material(Color::Black, i)));
    }
    assert forall|i: int| #[trigger] bit(a.checkers_bb.0, i) == bit(b.checkers_bb.0, i) by {
        assert(a.checker_spec(i) == b.checker_spec(i)) by {
            if a.checker_spec(i) {
                let k = choose|k: int| #[trigger] a.king_at(a.turn_, k) && a.attacks_from(i, k, a.turn_.other());
                assert(b.king_at(b.turn_, k) && b.attacks_from(i, k, b.turn_.other()));
            }
            if b.checker_spec(i) {
                let k = choose|k: int| #[trigger] b.king_at(b.turn_, k) && b.attacks_from(i, k, b.turn_.other());
                assert(a.king_at(a.turn_, k) && a.attacks_from(i, k, a.turn_.other()));
            }
        }
    }
    lemma_eq_iff_bits(a.checkers_bb.0, b.checkers_bb.0);
    assert forall|i: int| #[trigger] bit(a.pinned_bb.0, i) == bit(b.pinned_bb.0, i) by {
        assert forall|s: int, k: int| #[trigger] a.pin_line(s, k, i) == b.pin_line(s, k, i) by {}
        assert(a.pinned_spec(i) == b.pinned_spec(i)) by {
            if a.pinned_spec(i) {
                let k = choose|k: int| #[trigger] a.king_at(a.turn_, k) && a.pinned_through(k, i);
                let s = choose|s: int| #![trigger a.pinner(s, k)] a.pin_line(s, k, i);
                assert(b.pin_line(s, k, i));
                assert(b.king_at(b.turn_, k) && b.pinned_through(k, i));
            }
            if b.pinned_spec(i) {
                let k = choose|k: int| #[trigger] b.king_at(b.turn_, k) && b.pinned_through(k, i);
                let s = choose|s: int| #![trigger b.pinner(s, k)] b.pin_line(s, k, i);
                assert(a.pin_line(s, k, i));
                assert(a.king_at(a.turn_, k) && a.pinned_through(k, i));
            }
        }
    }
    lemma_eq_iff_bits(a.pinned_bb.0, b.pinned_bb.0);
}

} // verus!
