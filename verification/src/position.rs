//! A chess position kept as bitboards, with its hash keys and material counts.
use vstd::prelude::*;
use crate::attacks::{bishop_attack, king_attack, knight_attack, pawn_attack, rook_attack};
use crate::bitboard::BitBoard;
use crate::bits::{bit, group_bit_facts};
use crate::castle::CastleRights;
use crate::fold::{lemma_sum_bounds, lemma_sum_update, lemma_xor_update, sum_upto, xor_upto};
use crate::piece::{piece_value, Piece, PieceType};
use crate::types::{group_square_facts, Color, Square};
use crate::zobrist::{piece_key, Zobrist};

verus! {

broadcast use group_bit_facts, group_square_facts;

/// Whether the side to move can still move, and if not why.
#[derive(PartialEq, Eq, Clone, Copy, Debug, Structural)]
pub enum BoardStatus {
    Ongoing,
    Stalemate,
    Checkmate,
}

/// A chess position: piece placement, side to move, castling rights, en passant square and
/// move clocks, together with the squares giving check and the pinned pieces.
#[derive(Clone, Copy, Debug)]
pub struct BoardPosition {
    pub pawns: BitBoard,
    pub knights: BitBoard,
    pub bishops: BitBoard,
    pub rooks: BitBoard,
    pub queens: BitBoard,
    pub kings: BitBoard,
    pub white: BitBoard,
    pub black: BitBoard,
    pub occupied_bb: BitBoard,
    pub turn_: Color,
    pub white_castle_rights: CastleRights,
    pub black_castle_rights: CastleRights,
    pub ep: Option<Square>,
    pub pinned_bb: BitBoard,
    pub checkers_bb: BitBoard,
    pub pawn_hash: u64,
    pub non_pawn_hash: u64,
    pub halfmove_clock: u8,
    pub fullmove_number: u16,
    pub white_material: i32,
    pub black_material: i32,
}

/// Does a piece of type `pt` and color `color` on `a` attack the square `b`?
pub open spec fn piece_attack(pt: PieceType, color: Color, a: int, b: int, occupied: u64) -> bool {
    match pt {
        PieceType::Pawn => pawn_attack(color, a, b),
        PieceType::Knight => knight_attack(a, b),
        PieceType::Bishop => bishop_attack(a, b, occupied),
        PieceType::Rook => rook_attack(a, b, occupied),
        PieceType::Queen => rook_attack(a, b, occupied) || bishop_attack(a, b, occupied),
        PieceType::King => king_attack(a, b),
    }
}

/// The squares a piece of type `pt` and color `color` on `square` attacks.
pub fn piece_attacks(pt: PieceType, color: Color, square: Square, occupied: BitBoard) -> (r: BitBoard)
    ensures
        forall|b: int| #[trigger] r.has(b) == piece_attack(pt, color, square.index(), b, occupied.0),
{
    match pt {
        PieceType::Pawn => {
            let r = square.get_pawn_attacks(color, BitBoard(0xffff_ffff_ffff_ffff));
            r
        },
        PieceType::Knight => square.get_knight_moves(),
        PieceType::Bishop => crate::attacks::get_bishop_moves(square, occupied),
        PieceType::Rook => crate::attacks::get_rook_moves(square, occupied),
        PieceType::Queen => crate::attacks::get_queen_moves(square, occupied),
        PieceType::King => square.get_king_moves(),
    }
}

impl BoardPosition {
    pub open spec fn mask_of(self, pt: PieceType) -> u64 {
        match pt {
            PieceType::Pawn => self.pawns.0,
            PieceType::Knight => self.knights.0,
            PieceType::Bishop => self.bishops.0,
            PieceType::Rook => self.rooks.0,
            PieceType::Queen => self.queens.0,
            PieceType::King => self.kings.0,
        }
    }

    pub open spec fn color_mask(self, c: Color) -> u64 {
        match c {
            Color::White => self.white.0,
            Color::Black => self.black.0,
        }
    }

    pub open spec fn castle_rights_of(self, c: Color) -> CastleRights {
        match c {
            Color::White => self.white_castle_rights,
            Color::Black => self.black_castle_rights,
        }
    }

    /// Number of piece masks holding square `i`.
    pub open spec fn type_count(self, i: int) -> int {
        (if bit(self.pawns.0, i) { 1int } else { 0 }) + (if bit(self.knights.0, i) { 1int } else { 0 })
            + (if bit(self.bishops.0, i) { 1int } else { 0 }) + (if bit(self.rooks.0, i) { 1int } else { 0 })
            + (if bit(self.queens.0, i) { 1int } else { 0 }) + (if bit(self.kings.0, i) { 1int } else { 0 })
    }

    /// The type of the piece on square `i`, if any.
    pub open spec fn type_on(self, i: int) -> Option<PieceType> {
        if bit(self.pawns.0, i) {
            Some(PieceType::Pawn)
        } else if bit(self.knights.0, i) {
            Some(PieceType::Knight)
        } else if bit(self.bishops.0, i) {
            Some(PieceType::Bishop)
        } else if bit(self.rooks.0, i) {
            Some(PieceType::Rook)
        } else if bit(self.queens.0, i) {
            Some(PieceType::Queen)
        } else if bit(self.kings.0, i) {
            Some(PieceType::King)
        } else {
            None
        }
    }

    /// The color of the piece on square `i`, if any.
    pub open spec fn color_on(self, i: int) -> Option<Color> {
        if bit(self.white.0, i) {
            Some(Color::White)
        } else if bit(self.black.0, i) {
            Some(Color::Black)
        } else {
            None
        }
    }

    /// The piece on square `i`, if any.
    pub open spec fn piece_at(self, i: int) -> Option<Piece> {
        match (self.type_on(i), self.color_on(i)) {
            (Some(t), Some(c)) => Some(Piece { type_: t, color: c }),
            _ => None,
        }
    }

    /// Material of `color` on square `i` (kings count nothing).
    pub open spec fn square_material(self, c: Color, i: int) -> int {
        match self.piece_at(i) {
            Some(p) => if p.color == c && p.type_ != PieceType::King {
                piece_value(p.type_)
            } else {
                0
            },
            None => 0,
        }
    }

    /// Total material of `color`.
    pub open spec fn material(self, c: Color) -> int {
        sum_upto(|i: int| self.square_material(c, i), 64)
    }

    /// Key contribution of square `i` to the pawn hash.
    pub open spec fn square_pawn_key(self, i: int) -> u64 {
        match self.piece_at(i) {
            Some(p) => if p.type_ == PieceType::Pawn {
                piece_key(p.type_, i, p.color)
            } else {
                0
            },
            None => 0,
        }
    }

    /// Key contribution of square `i` to the hash of the other pieces.
    pub open spec fn square_piece_key(self, i: int) -> u64 {
        match self.piece_at(i) {
            Some(p) => if p.type_ != PieceType::Pawn {
                piece_key(p.type_, i, p.color)
            } else {
                0
            },
            None => 0,
        }
    }

    pub open spec fn pawn_hash_spec(self) -> u64 {
        xor_upto(|i: int| self.square_pawn_key(i), 64)
    }

    pub open spec fn non_pawn_hash_spec(self) -> u64 {
        xor_upto(|i: int| self.square_piece_key(i), 64)
    }

    /// The bitboards describe a placement: each occupied square holds exactly one piece type
    /// and one color; the hash keys and material counts match the placement.
    pub open spec fn wf(self) -> bool {
        &&& self.placement_ok()
        &&& self.white_material == self.material(Color::White)
        &&& self.black_material == self.material(Color::Black)
        &&& self.pawn_hash == self.pawn_hash_spec()
        &&& self.non_pawn_hash == self.non_pawn_hash_spec()
    }

    /// Does a piece of `color` attack square `k`?
    pub open spec fn attacked_by(self, k: int, color: Color) -> bool {
        exists|s: int| #[trigger] self.attacks_from(s, k, color)
    }

    /// Is there a piece of `color` on `s` attacking `k`?
    pub open spec fn attacks_from(self, s: int, k: int, color: Color) -> bool {
        match self.piece_at(s) {
            Some(p) => p.color == color && piece_attack(p.type_, color, s, k, self.occupied_bb.0),
            None => false,
        }
    }
}

impl BoardPosition {
    /// Everything but the piece placement, hash keys and material is the same.
    pub open spec fn same_state(self, other: BoardPosition) -> bool {
        &&& self.turn_ == other.turn_
        &&& self.white_castle_rights == other.white_castle_rights
        &&& self.black_castle_rights == other.black_castle_rights
        &&& self.ep == other.ep
        &&& self.pinned_bb == other.pinned_bb
        &&& self.checkers_bb == other.checkers_bb
        &&& self.halfmove_clock == other.halfmove_clock
        &&& self.fullmove_number == other.fullmove_number
    }

    /// Each occupied square holds exactly one piece type and one color.
    pub open spec fn placement_ok(self) -> bool {
        forall|i: int| #[trigger] self.square_ok(i)
    }

    /// Square `i` holds at most one piece type and one color, and is occupied exactly when it
    /// holds a piece.
    pub open spec fn square_ok(self, i: int) -> bool {
        &&& self.type_count(i) <= 1
        &&& bit(self.occupied_bb.0, i) == (self.type_count(i) == 1)
        &&& bit(self.occupied_bb.0, i) == (bit(self.white.0, i) || bit(self.black.0, i))
        &&& !(bit(self.white.0, i) && bit(self.black.0, i))
    }

    /// Put a piece of type `piece_type` and color `color` on the empty `square`, or take that
    /// piece off `square`, keeping hash keys and material up to date.
    pub fn xor(&mut self, piece_type: PieceType, square: Square, color: Color)
        requires
            old(self).wf(),
            old(self).piece_at(square.index()) is None || old(self).piece_at(square.index()) == Some(
                Piece { type_: piece_type, color },
            ),
        ensures
            final(self).wf(),
            final(self).same_state(*old(self)),
            final(self).piece_at(square.index()) == if old(self).piece_at(square.index()) is None {
                Some(Piece { type_: piece_type, color })
            } else {
                None
            },
            forall|i: int| i != square.index() ==> #[trigger] final(self).piece_at(i) == old(self).piece_at(i),
    {
        let ghost s = square.index();
        let ghost before = *self;
        let bb = square.to_bitboard();
        match piece_type {
            PieceType::Pawn => self.pawns = self.pawns.xor(bb),
            PieceType::Knight => self.knights = self.knights.xor(bb),
            PieceType::Bishop => self.bishops = self.bishops.xor(bb),
            PieceType::Rook => self.rooks = self.rooks.xor(bb),
            PieceType::Queen => self.queens = self.queens.xor(bb),
            PieceType::King => self.kings = self.kings.xor(bb),
        }
        match color {
            Color::White => self.white = self.white.xor(bb),
            Color::Black => self.black = self.black.xor(bb),
        }
        self.occupied_bb = self.occupied_bb.xor(bb);
        let ghost placed = *self;
        proof {
            lemma_toggle_placement(before, placed, piece_type, color, s);
            lemma_toggle_material(before, placed, piece_type, color, s);
        }
        let key = Zobrist::piece(piece_type, square, color);
        match piece_type {
            PieceType::Pawn => self.pawn_hash = self.pawn_hash ^ key,
            _ => self.non_pawn_hash = self.non_pawn_hash ^ key,
        }
        let adding = match color {
            Color::White => self.white.contains(square),
            Color::Black => self.black.contains(square),
        };
        proof {
            assert(adding == (before.piece_at(s) is None));
        }
        if piece_type != PieceType::King {
            let v = piece_type.evaluate() as i32;
            match color {
                Color::White => {
                    if adding {
                        self.white_material = self.white_material + v;
                    } else {
                        self.white_material = self.white_material - v;
                    }
                },
                Color::Black => {
                    if adding {
                        self.black_material = self.black_material + v;
                    } else {
                        self.black_material = self.black_material - v;
                    }
                },
            }
        }
        proof {
            let after = *self;
            lemma_toggle_placement(before, after, piece_type, color, s);
            lemma_toggle_hash(before, after, piece_type, color, s);
            lemma_toggle_material(before, after, piece_type, color, s);
            crate::fold::lemma_xor_zero(before.pawn_hash);
            crate::fold::lemma_xor_zero(before.non_pawn_hash);
            assert(after.placement_ok());
            assert(after.pawn_hash == after.pawn_hash_spec());
            assert(after.non_pawn_hash == after.non_pawn_hash_spec());
            assert(after.white_material == after.material(Color::White));
            assert(after.black_material == after.material(Color::Black));
        }
    }
}

/// `after` is `before` with the bit of square `s` flipped in the masks of `pt`, of `color` and of
/// all occupied squares.
pub open spec fn toggled(before: BoardPosition, after: BoardPosition, pt: PieceType, color: Color, s: int) -> bool {
    &&& 0 <= s < 64
    &&& forall|t: PieceType| #[trigger] after.mask_of(t) == if t == pt { before.mask_of(t) ^ (1u64 << (s as u64)) } else { before.mask_of(t) }
    &&& forall|c: Color| #[trigger] after.color_mask(c) == if c == color { before.color_mask(c) ^ (1u64 << (s as u64)) } else { before.color_mask(c) }
    &&& after.occupied_bb.0 == before.occupied_bb.0 ^ (1u64 << (s as u64))
}

proof fn lemma_toggle_placement(before: BoardPosition, after: BoardPosition, pt: PieceType, color: Color, s: int)
    requires
        before.placement_ok(),
        toggled(before, after, pt, color, s),
        before.piece_at(s) is None || before.piece_at(s) == Some(Piece { type_: pt, color }),
    ensures
        after.placement_ok(),
        after.piece_at(s) == if before.piece_at(s) is None { Some(Piece { type_: pt, color }) } else { None },
        forall|i: int| i != s ==> #[trigger] after.piece_at(i) == before.piece_at(i),
{
    assert(after.pawns.0 == after.mask_of(PieceType::Pawn));
    assert(after.knights.0 == after.mask_of(PieceType::Knight));
    assert(after.bishops.0 == after.mask_of(PieceType::Bishop));
    assert(after.rooks.0 == after.mask_of(PieceType::Rook));
    assert(after.queens.0 == after.mask_of(PieceType::Queen));
    assert(after.kings.0 == after.mask_of(PieceType::King));
    assert(after.white.0 == after.color_mask(Color::White));
    assert(after.black.0 == after.color_mask(Color::Black));
    assert(before.square_ok(s));
    assert forall|i: int| i != s implies #[trigger] after.piece_at(i) == before.piece_at(i) by {
        assert(after.type_on(i) == before.type_on(i));
        assert(after.color_on(i) == before.color_on(i));
    }
    assert forall|i: int| #[trigger] after.square_ok(i) by {
        assert(before.square_ok(i));
        if i == s {
            lemma_piece_at_facts(before, s);
        }
    }
    assert(after.placement_ok());
}

proof fn lemma_toggle_hash(before: BoardPosition, after: BoardPosition, pt: PieceType, color: Color, s: int)
    requires
        0 <= s < 64,
        before.piece_at(s) is None || before.piece_at(s) == Some(Piece { type_: pt, color }),
        after.piece_at(s) == if before.piece_at(s) is None { Some(Piece { type_: pt, color }) } else { None },
        forall|i: int| i != s ==> #[trigger] after.piece_at(i) == before.piece_at(i),
    ensures
        after.pawn_hash_spec() == before.pawn_hash_spec() ^ if pt == PieceType::Pawn { piece_key(pt, s, color) } else { 0 },
        after.non_pawn_hash_spec() == before.non_pawn_hash_spec() ^ if pt != PieceType::Pawn { piece_key(pt, s, color) } else { 0 },
{
    let f = |i: int| before.square_pawn_key(i);
    let g = |i: int| after.square_pawn_key(i);
    lemma_xor_update(f, g, s, 64);
    let f2 = |i: int| before.square_piece_key(i);
    let g2 = |i: int| after.square_piece_key(i);
    lemma_xor_update(f2, g2, s, 64);
    crate::fold::lemma_xor_zero(piece_key(pt, s, color));
    crate::fold::lemma_xor_zero(0);
}

proof fn lemma_toggle_material(before: BoardPosition, after: BoardPosition, pt: PieceType, color: Color, s: int)
    requires
        0 <= s < 64,
        before.piece_at(s) is None || before.piece_at(s) == Some(Piece { type_: pt, color }),
        after.piece_at(s) == if before.piece_at(s) is None { Some(Piece { type_: pt, color }) } else { None },
        forall|i: int| i != s ==> #[trigger] after.piece_at(i) == before.piece_at(i),
    ensures
        forall|c: Color| #[trigger] after.material(c) == before.material(c) + if c == color && pt != PieceType::King {
            if before.piece_at(s) is None { piece_value(pt) } else { -piece_value(pt) }
        } else {
            0
        },
        forall|c: Color| 0 <= #[trigger] before.material(c) <= 57600,
        forall|c: Color| 0 <= #[trigger] after.material(c) <= 57600,
{
    assert forall|c: Color| #[trigger] after.material(c) == before.material(c) + if c == color && pt != PieceType::King {
        if before.piece_at(s) is None { piece_value(pt) } else { -piece_value(pt) }
    } else {
        0
    } by {
        let f = |i: int| before.square_material(c, i);
        let g = |i: int| after.square_material(c, i);
        lemma_sum_update(f, g, s, 64);
    }
    assert forall|c: Color| 0 <= #[trigger] before.material(c) <= 57600 by {
        let f = |i: int| before.square_material(c, i);
        lemma_sum_bounds(f, 64, 900);
    }
    assert forall|c: Color| 0 <= #[trigger] after.material(c) <= 57600 by {
        let f = |i: int| after.square_material(c, i);
        lemma_sum_bounds(f, 64, 900);
    }
}

pub proof fn lemma_piece_at_facts(p: BoardPosition, i: int)
    requires
        p.placement_ok(),
    ensures
        p.piece_at(i) is Some == bit(p.occupied_bb.0, i),
        p.piece_at(i) is Some ==> p.type_on(i) is Some && p.color_on(i) is Some,
        p.type_on(i) is Some == bit(p.occupied_bb.0, i),
        p.color_on(i) is Some == bit(p.occupied_bb.0, i),
        p.piece_at(i) matches Some(q) ==> bit(p.mask_of(q.type_), i) && bit(p.color_mask(q.color), i),
        forall|t: PieceType| #[trigger] bit(p.mask_of(t), i) ==> (p.piece_at(i) matches Some(q) && q.type_ == t),
        forall|c: Color| #[trigger] bit(p.color_mask(c), i) ==> (p.piece_at(i) matches Some(q) && q.color == c),
{
    assert(p.square_ok(i));
}

} // verus!
