//! Read-only questions about a position: occupancy, material, hash keys and move kinds.
use vstd::prelude::*;
use crate::attacks::{abs, fl, rk};
use crate::bitboard::{BitBoard, DARK_SQUARES_MASK, LIGHT_SQUARES_MASK};
use crate::bits::{bit, group_bit_facts, popcount};
use crate::castle::CastleRights;
use crate::fold::{lemma_sum_bounds, lemma_xor_all_zero};
use crate::moves::Move;
use crate::piece::{Piece, PieceType};
use crate::position::{BoardPosition, lemma_piece_at_facts};
use crate::types::{group_square_facts, Color, Square};
use crate::zobrist::{castles_key, en_passant_key, turn_key, Zobrist};

verus! {

broadcast use group_bit_facts, group_square_facts;

/// Number of pieces at or below which a position counts as an endgame.
pub const ENDGAME_PIECE_THRESHOLD: u32 = 12;

impl BoardPosition {
    /// The position hash: pieces, castle rights, en passant file and side to move.
    pub open spec fn hash_spec(self) -> u64 {
        self.pawn_hash ^ self.non_pawn_hash ^ (match self.ep {
            Some(sq) => en_passant_key(sq.file(), self.turn_.other()),
            None => 0,
        }) ^ castles_key(self.castle_rights_of(self.turn_), self.turn_) ^ castles_key(
            self.castle_rights_of(self.turn_.other()),
            self.turn_.other(),
        ) ^ (if self.turn_ == Color::Black { turn_key() } else { 0 })
    }

    /// An empty board with White to move, no castle rights, no en passant square and the
    /// move clocks at their starting values.
    pub fn new_empty() -> (r: BoardPosition)
        ensures
            r.wf(),
            forall|i: int| #[trigger] r.piece_at(i) is None,
            r.turn_ == Color::White,
            r.white_castle_rights == CastleRights::NoRights,
            r.black_castle_rights == CastleRights::NoRights,
            r.ep is None,
            r.halfmove_clock == 0,
            r.fullmove_number == 1,
            r.pinned_bb.0 == 0,
            r.checkers_bb.0 == 0,
    {
        let r = BoardPosition {
            pawns: BitBoard(0),
            knights: BitBoard(0),
            bishops: BitBoard(0),
            rooks: BitBoard(0),
            queens: BitBoard(0),
            kings: BitBoard(0),
            white: BitBoard(0),
            black: BitBoard(0),
            occupied_bb: BitBoard(0),
            turn_: Color::White,
            white_castle_rights: CastleRights::NoRights,
            black_castle_rights: CastleRights::NoRights,
            ep: None,
            pinned_bb: BitBoard(0),
            checkers_bb: BitBoard(0),
            pawn_hash: 0,
            non_pawn_hash: 0,
            halfmove_clock: 0,
            fullmove_number: 1,
            white_material: 0,
            black_material: 0,
        };
        proof {
            assert forall|i: int| #[trigger] r.square_ok(i) by {}
            assert forall|i: int| #[trigger] r.piece_at(i) is None by {}
            lemma_sum_bounds(|i: int| r.square_material(Color::White, i), 64, 0);
            lemma_sum_bounds(|i: int| r.square_material(Color::Black, i), 64, 0);
            lemma_xor_all_zero(|i: int| r.square_pawn_key(i), 64);
            lemma_xor_all_zero(|i: int| r.square_piece_key(i), 64);
        }
        r
    }

    pub fn occupied(&self) -> (r: BitBoard)
        ensures
            r == self.occupied_bb,
    {
        self.occupied_bb
    }

    /// Number of pieces on the board.
    pub fn get_num_pieces(&self) -> (r: u32)
        ensures
            r == popcount(self.occupied_bb.0),
    {
        self.occupied_bb.popcnt()
    }

    /// Squares of the pieces of `color`.
    pub fn occupied_color(&self, color: Color) -> (r: BitBoard)
        ensures
            r.0 == self.color_mask(color),
    {
        match color {
            Color::White => self.white,
            Color::Black => self.black,
        }
    }

    /// Squares of the pieces of the side to move.
    pub fn self_occupied(&self) -> (r: BitBoard)
        ensures
            r.0 == self.color_mask(self.turn_),
    {
        self.occupied_color(self.turn_)
    }

    /// Squares of the pieces of the side not to move.
    pub fn opponent_occupied(&self) -> (r: BitBoard)
        ensures
            r.0 == self.color_mask(self.turn_.other()),
    {
        self.occupied_color(self.turn_.flip())
    }

    pub fn get_black_occupied(&self) -> (r: BitBoard)
        ensures
            r == self.black,
    {
        self.black
    }

    pub fn get_white_occupied(&self) -> (r: BitBoard)
        ensures
            r == self.white,
    {
        self.white
    }

    /// Squares of the pieces of type `piece_type`, of either color.
    pub fn get_piece_mask(&self, piece_type: PieceType) -> (r: BitBoard)
        ensures
            r.0 == self.mask_of(piece_type),
    {
        match piece_type {
            PieceType::Pawn => self.pawns,
            PieceType::Knight => self.knights,
            PieceType::Bishop => self.bishops,
            PieceType::Rook => self.rooks,
            PieceType::Queen => self.queens,
            PieceType::King => self.kings,
        }
    }

    /// Squares of the pieces of type `piece_type` and color `color`.
    pub fn get_colored_piece_mask(&self, piece_type: PieceType, color: Color) -> (r: BitBoard)
        ensures
            r.0 == self.mask_of(piece_type) & self.color_mask(color),
    {
        self.get_piece_mask(piece_type).and(self.occupied_color(color))
    }

    /// The six piece masks, pawns first and kings last.
    pub fn get_all_piece_masks(&self) -> (r: Vec<BitBoard>)
        ensures
            r@ == seq![self.pawns, self.knights, self.bishops, self.rooks, self.queens, self.kings],
    {
        let mut v: Vec<BitBoard> = Vec::new();
        v.push(self.pawns);
        v.push(self.knights);
        v.push(self.bishops);
        v.push(self.rooks);
        v.push(self.queens);
        v.push(self.kings);
        v
    }

    /// The square of the lowest king of `color`.
    pub fn get_king_square(&self, color: Color) -> (r: Square)
        requires
            self.mask_of(PieceType::King) & self.color_mask(color) != 0,
        ensures
            bit(self.mask_of(PieceType::King) & self.color_mask(color), r.index()),
            forall|j: int| 0 <= j < r.index() ==> !bit(self.mask_of(PieceType::King) & self.color_mask(color), j),
    {
        let bb = self.get_colored_piece_mask(PieceType::King, color);
        let r = bb.to_square_unchecked();
        proof {
            assert forall|j: int| 0 <= j < r.index() implies !bit(self.mask_of(PieceType::King) & self.color_mask(color), j) by {
                assert(!bb.has(j));
            }
        }
        r
    }

    /// `color` alone cannot mate: a bare king, or a king and a single knight or bishop.
    pub fn has_insufficient_material(&self, color: Color) -> (r: bool)
        ensures
            r == (popcount(self.color_mask(color)) == 1 || (popcount(self.color_mask(color)) == 2
                && (self.rooks.0 ^ self.queens.0 ^ self.pawns.0) & self.color_mask(color) == 0)),
    {
        let occupied = self.occupied_color(color);
        let n = occupied.popcnt();
        if n == 1 {
            true
        } else if n == 2 {
            self.rooks.xor(self.queens).xor(self.pawns).and(occupied).0 == 0
        } else {
            false
        }
    }

    /// Is there a piece other than pawns and kings on the board?
    pub fn has_non_pawn_material(&self) -> (r: bool)
        ensures
            r == (self.pawns.0 ^ self.kings.0 != self.occupied_bb.0),
    {
        self.pawns.xor(self.kings).0 != self.occupied_bb.0
    }

    /// Squares of all pieces but the kings.
    pub fn get_non_king_pieces_mask(&self) -> (r: BitBoard)
        ensures
            r.0 == self.occupied_bb.0 ^ self.kings.0,
    {
        self.occupied_bb.xor(self.kings)
    }

    /// Are all pieces but the kings bishops standing on squares of one color?
    /// Neither side can mate: only the kings, the kings and one knight or bishop, or the kings
    /// and bishops all on squares of one color.
    pub open spec fn insufficient_material_spec(self) -> bool {
        let n = popcount(self.occupied_bb.0);
        if n == 2 {
            true
        } else if n == 3 {
            self.pawns.0 == 0 && self.rooks.0 == 0 && self.queens.0 == 0
        } else {
            let non_king = self.occupied_bb.0 ^ self.kings.0;
            popcount(non_king) <= 32 && non_king == self.bishops.0 && (non_king & LIGHT_SQUARES_MASK == self.bishops.0
                || non_king & DARK_SQUARES_MASK == self.bishops.0)
        }
    }

    pub fn has_only_same_colored_bishop(&self) -> (r: bool)
        ensures
            r == {
                let non_king = self.occupied_bb.0 ^ self.kings.0;
                popcount(non_king) <= 32 && non_king == self.bishops.0 && (non_king
                    & LIGHT_SQUARES_MASK == self.bishops.0 || non_king & DARK_SQUARES_MASK
                    == self.bishops.0)
            },
    {
        let non_king_pieces_mask = self.get_non_king_pieces_mask();
        if non_king_pieces_mask.popcnt() > 32 {
            return false;
        }
        let bishop_bitboard = self.bishops;
        if non_king_pieces_mask != bishop_bitboard {
            return false;
        }
        non_king_pieces_mask.and(BitBoard(LIGHT_SQUARES_MASK)) == bishop_bitboard
            || non_king_pieces_mask.and(BitBoard(DARK_SQUARES_MASK)) == bishop_bitboard
    }

    /// Can neither side mate: bare kings, a single minor piece, or only bishops on squares of
    /// one color besides the kings.
    pub fn is_insufficient_material(&self) -> (r: bool)
        ensures
            r == self.insufficient_material_spec(),
            r == {
                let n = popcount(self.occupied_bb.0);
                if n == 2 {
                    true
                } else if n == 3 {
                    self.pawns.0 == 0 && self.rooks.0 == 0 && self.queens.0 == 0
                } else {
                    let non_king = self.occupied_bb.0 ^ self.kings.0;
                    popcount(non_king) <= 32 && non_king == self.bishops.0 && (non_king
                        & LIGHT_SQUARES_MASK == self.bishops.0 || non_king & DARK_SQUARES_MASK
                        == self.bishops.0)
                }
            },
    {
        let n = self.occupied_bb.popcnt();
        if n == 2 {
            true
        } else if n == 3 {
            self.pawns.0 == 0 && self.rooks.0 == 0 && self.queens.0 == 0
        } else {
            self.has_only_same_colored_bishop()
        }
    }

    pub fn castle_rights(&self, color: Color) -> (r: CastleRights)
        ensures
            r == self.castle_rights_of(color),
    {
        match color {
            Color::White => self.white_castle_rights,
            Color::Black => self.black_castle_rights,
        }
    }

    /// The rook corners whose rooks still carry castle rights.
    pub fn clean_castling_rights(&self) -> (r: BitBoard)
        ensures
            forall|i: int| #[trigger] r.has(i) == ((i == 0 && self.white_castle_rights.queenside())
                || (i == 7 && self.white_castle_rights.kingside()) || (i == 56
                && self.black_castle_rights.queenside()) || (i == 63
                && self.black_castle_rights.kingside())),
    {
        self.white_castle_rights.unmoved_rooks(Color::White).or(
            self.black_castle_rights.unmoved_rooks(Color::Black),
        )
    }

    pub fn add_castle_rights(&mut self, color: Color, add: CastleRights)
        ensures
            final(self).castle_rights_of(color) == old(self).castle_rights_of(color).union(add),
            final(self).castle_rights_of(color.other()) == old(self).castle_rights_of(color.other()),
            final(self).same_placement(*old(self)),
            final(self).turn_ == old(self).turn_,
            final(self).ep == old(self).ep,
            final(self).halfmove_clock == old(self).halfmove_clock,
            final(self).fullmove_number == old(self).fullmove_number,
            final(self).pinned_bb == old(self).pinned_bb,
            final(self).checkers_bb == old(self).checkers_bb,
    {
        match color {
            Color::White => self.white_castle_rights = self.white_castle_rights.add(add),
            Color::Black => self.black_castle_rights = self.black_castle_rights.add(add),
        }
    }

    pub fn remove_castle_rights(&mut self, color: Color, remove: CastleRights)
        ensures
            final(self).castle_rights_of(color) == old(self).castle_rights_of(color).minus(remove),
            final(self).castle_rights_of(color.other()) == old(self).castle_rights_of(color.other()),
            final(self).same_placement(*old(self)),
            final(self).turn_ == old(self).turn_,
            final(self).ep == old(self).ep,
            final(self).halfmove_clock == old(self).halfmove_clock,
            final(self).fullmove_number == old(self).fullmove_number,
            final(self).pinned_bb == old(self).pinned_bb,
            final(self).checkers_bb == old(self).checkers_bb,
    {
        match color {
            Color::White => self.white_castle_rights = self.white_castle_rights.remove(remove),
            Color::Black => self.black_castle_rights = self.black_castle_rights.remove(remove),
        }
    }

    /// The side to move.
    pub fn turn(&self) -> (r: Color)
        ensures
            r == self.turn_,
    {
        self.turn_
    }

    pub fn my_castle_rights(&self) -> (r: CastleRights)
        ensures
            r == self.castle_rights_of(self.turn_),
    {
        self.castle_rights(self.turn_)
    }

    pub fn their_castle_rights(&self) -> (r: CastleRights)
        ensures
            r == self.castle_rights_of(self.turn_.other()),
    {
        self.castle_rights(self.turn_.flip())
    }

    pub fn get_pawn_hash(&self) -> (r: u64)
        requires
            self.wf(),
        ensures
            r == self.pawn_hash_spec(),
    {
        self.pawn_hash
    }

    pub fn get_non_pawn_hash(&self) -> (r: u64)
        requires
            self.wf(),
        ensures
            r == self.non_pawn_hash_spec(),
    {
        self.non_pawn_hash
    }

    /// The position hash: the keys of all pieces, of the en passant file, of both sides'
    /// castle rights and of the side to move. The keys are this library's own (see
    /// `zobrist`), not those of the polyglot book format, so a book built by other programs
    /// is not keyed by this hash.
    pub fn get_hash(&self) -> (r: u64)
        ensures
            r == self.hash_spec(),
    {
        let ep_key = match self.ep {
            Some(sq) => Zobrist::en_passant(sq.get_file(), self.turn_.flip()),
            None => 0,
        };
        let turn_part = match self.turn_ {
            Color::Black => Zobrist::color(),
            Color::White => 0,
        };
        self.pawn_hash ^ self.non_pawn_hash ^ ep_key ^ Zobrist::castles(
            self.castle_rights(self.turn_),
            self.turn_,
        ) ^ Zobrist::castles(self.castle_rights(self.turn_.flip()), self.turn_.flip()) ^ turn_part
    }

    pub fn get_white_material_score(&self) -> (r: i32)
        requires
            self.wf(),
        ensures
            r == self.material(Color::White),
    {
        self.white_material
    }

    pub fn get_black_material_score(&self) -> (r: i32)
        requires
            self.wf(),
        ensures
            r == self.material(Color::Black),
    {
        self.black_material
    }

    /// The type of the piece on `square`, if any.
    pub fn get_piece_type_at(&self, square: Square) -> (r: Option<PieceType>)
        ensures
            r == self.type_on(square.index()),
    {
        let i = square.to_int() as u64;
        if (self.pawns.0 >> i) & 1 == 1 {
            Some(PieceType::Pawn)
        } else if (self.knights.0 >> i) & 1 == 1 {
            Some(PieceType::Knight)
        } else if (self.bishops.0 >> i) & 1 == 1 {
            Some(PieceType::Bishop)
        } else if (self.rooks.0 >> i) & 1 == 1 {
            Some(PieceType::Rook)
        } else if (self.queens.0 >> i) & 1 == 1 {
            Some(PieceType::Queen)
        } else if (self.kings.0 >> i) & 1 == 1 {
            Some(PieceType::King)
        } else {
            None
        }
    }

    /// The color of the piece on `square`, if any.
    pub fn color_at(&self, square: Square) -> (r: Option<Color>)
        ensures
            r == self.color_on(square.index()),
    {
        if self.white.contains(square) {
            Some(Color::White)
        } else if self.black.contains(square) {
            Some(Color::Black)
        } else {
            None
        }
    }

    /// The piece on `square`, if any.
    pub fn get_piece_at(&self, square: Square) -> (r: Option<Piece>)
        ensures
            r == self.piece_at(square.index()),
    {
        match (self.get_piece_type_at(square), self.color_at(square)) {
            (Some(t), Some(c)) => Some(Piece::new(t, c)),
            _ => None,
        }
    }

    pub fn remove_ep(&mut self)
        ensures
            final(self).ep is None,
            final(self).same_placement(*old(self)),
            final(self).turn_ == old(self).turn_,
            final(self).white_castle_rights == old(self).white_castle_rights,
            final(self).black_castle_rights == old(self).black_castle_rights,
            final(self).halfmove_clock == old(self).halfmove_clock,
            final(self).fullmove_number == old(self).fullmove_number,
            final(self).pinned_bb == old(self).pinned_bb,
            final(self).checkers_bb == old(self).checkers_bb,
    {
        self.ep = None;
    }

    /// The square a pawn may capture en passant onto, if any.
    pub fn ep_square(&self) -> (r: Option<Square>)
        ensures
            r == self.ep,
    {
        self.ep
    }

    pub fn get_halfmove_clock(&self) -> (r: u8)
        ensures
            r == self.halfmove_clock,
    {
        self.halfmove_clock
    }

    pub fn get_fullmove_number(&self) -> (r: u16)
        ensures
            r == self.fullmove_number,
    {
        self.fullmove_number
    }

    pub fn set_turn_unchecked(&mut self, turn: Color)
        ensures
            final(self).turn_ == turn,
            final(self).same_placement(*old(self)),
            final(self).white_castle_rights == old(self).white_castle_rights,
            final(self).black_castle_rights == old(self).black_castle_rights,
            final(self).ep == old(self).ep,
            final(self).halfmove_clock == old(self).halfmove_clock,
            final(self).fullmove_number == old(self).fullmove_number,
            final(self).pinned_bb == old(self).pinned_bb,
            final(self).checkers_bb == old(self).checkers_bb,
    {
        self.turn_ = turn;
    }

    pub fn flip_turn_unchecked(&mut self)
        ensures
            final(self).turn_ == old(self).turn_.other(),
            final(self).same_placement(*old(self)),
            final(self).white_castle_rights == old(self).white_castle_rights,
            final(self).black_castle_rights == old(self).black_castle_rights,
            final(self).ep == old(self).ep,
            final(self).halfmove_clock == old(self).halfmove_clock,
            final(self).fullmove_number == old(self).fullmove_number,
            final(self).pinned_bb == old(self).pinned_bb,
            final(self).checkers_bb == old(self).checkers_bb,
    {
        self.turn_ = self.turn_.flip();
    }

    /// Squares of the pieces giving check to the side to move, as last computed.
    pub fn get_checkers(&self) -> (r: BitBoard)
        ensures
            r == self.checkers_bb,
    {
        self.checkers_bb
    }

    /// Pieces standing alone between the king of the side to move and an enemy slider, as
    /// last computed.
    pub fn pinned(&self) -> (r: BitBoard)
        ensures
            r == self.pinned_bb,
    {
        self.pinned_bb
    }

    /// Is the side to move in check (as last computed)?
    pub fn is_check(&self) -> (r: bool)
        ensures
            r == (self.checkers_bb.0 != 0),
    {
        self.checkers_bb.0 != 0
    }

    /// Has the halfmove clock reached `n`?
    pub fn is_halfmoves(&self, n: u8) -> (r: bool)
        ensures
            r == (self.halfmove_clock >= n),
    {
        self.halfmove_clock >= n
    }

    /// Have fifty moves passed without a capture or pawn move?
    pub fn is_fifty_moves(&self) -> (r: bool)
        ensures
            r == (self.halfmove_clock >= 100),
    {
        self.is_halfmoves(100)
    }

    /// Is there an en passant square?
    pub fn has_legal_en_passant(&self) -> (r: bool)
        ensures
            r == (self.ep is Some),
    {
        self.ep.is_some()
    }

    /// `score` from the side to move's point of view.
    pub fn score_flipped(&self, score: i32) -> (r: i32)
        requires
            score > i32::MIN,
        ensures
            r == if self.turn_ == Color::White { score as int } else { -score },
    {
        match self.turn_ {
            Color::White => score,
            Color::Black => -score,
        }
    }

    /// White's material minus Black's.
    pub fn get_material_score(&self) -> (r: i32)
        requires
            self.wf(),
        ensures
            r == self.material(Color::White) - self.material(Color::Black),
    {
        proof {
            self.lemma_material_bounds();
        }
        self.white_material - self.black_material
    }

    /// The side with more material, if any.
    pub fn get_winning_side(&self) -> (r: Option<Color>)
        requires
            self.wf(),
        ensures
            r == if self.material(Color::White) > self.material(Color::Black) {
                Some(Color::White)
            } else if self.material(Color::White) < self.material(Color::Black) {
                Some(Color::Black)
            } else {
                None
            },
    {
        let m = self.get_material_score();
        if m > 0 {
            Some(Color::White)
        } else if m < 0 {
            Some(Color::Black)
        } else {
            None
        }
    }

    /// Material difference from the side to move's point of view.
    pub fn get_material_score_flipped(&self) -> (r: i32)
        requires
            self.wf(),
        ensures
            r == if self.turn_ == Color::White {
                self.material(Color::White) - self.material(Color::Black)
            } else {
                self.material(Color::Black) - self.material(Color::White)
            },
    {
        proof {
            self.lemma_material_bounds();
        }
        self.score_flipped(self.get_material_score())
    }

    /// Material of both sides together.
    pub fn get_material_score_abs(&self) -> (r: i32)
        requires
            self.wf(),
        ensures
            r == self.material(Color::White) + self.material(Color::Black),
    {
        proof {
            self.lemma_material_bounds();
        }
        self.white_material + self.black_material
    }

    /// Value of the pawns, knights, bishops, rooks and queens of either color within `mask`.
    pub open spec fn masked_material(self, mask: u64) -> nat {
        100 * popcount(self.pawns.0 & mask) + 320 * popcount(self.knights.0 & mask) + 330 * popcount(
            self.bishops.0 & mask,
        ) + 500 * popcount(self.rooks.0 & mask) + 900 * popcount(self.queens.0 & mask)
    }

    /// Value of the pawns, knights, bishops, rooks and queens of either color within `mask`
    /// (see `masked_material`).
    pub fn get_masked_material_score_abs(&self, mask: BitBoard) -> (r: i32)
        ensures
            r == self.masked_material(mask.0),
    {
        let p = self.pawns.and(mask).popcnt() as i32;
        let n = self.knights.and(mask).popcnt() as i32;
        let b = self.bishops.and(mask).popcnt() as i32;
        let k = self.rooks.and(mask).popcnt() as i32;
        let q = self.queens.and(mask).popcnt() as i32;
        100 * p + 320 * n + 330 * b + 500 * k + 900 * q
    }

    /// White's material minus Black's, less the value of all pawns on the board.
    pub fn get_non_pawn_material_score_abs(&self) -> (r: i32)
        requires
            self.wf(),
        ensures
            r == self.material(Color::White) - self.material(Color::Black) - 100 * popcount(self.pawns.0),
    {
        proof {
            self.lemma_material_bounds();
        }
        let m = self.get_material_score();
        let p = self.pawns.popcnt() as i32;
        m - 100 * p
    }

    /// Few pieces remain, or few heavy and minor pieces besides the queens.
    pub fn is_endgame(&self) -> (r: bool)
        ensures
            r == (popcount(self.occupied_bb.0) <= ENDGAME_PIECE_THRESHOLD || {
                let q = popcount(self.queens.0);
                if q == 0 {
                    popcount(self.rooks.0 ^ self.bishops.0 ^ self.knights.0) <= 4
                } else if q == 1 {
                    popcount(self.rooks.0) <= 2 && self.bishops.0 ^ self.knights.0 == 0
                } else if q == 2 {
                    self.rooks.0 ^ self.bishops.0 ^ self.knights.0 == 0
                } else {
                    false
                }
            }),
    {
        if self.get_num_pieces() <= ENDGAME_PIECE_THRESHOLD {
            return true;
        }
        let q = self.queens.popcnt();
        if q == 0 {
            self.rooks.xor(self.bishops).xor(self.knights).popcnt() <= 4
        } else if q == 1 {
            self.rooks.popcnt() <= 2 && self.bishops.xor(self.knights).0 == 0
        } else if q == 2 {
            self.rooks.xor(self.bishops).xor(self.knights).0 == 0
        } else {
            false
        }
    }

    /// Does `move_` capture en passant: a pawn moving diagonally onto the empty en passant
    /// square?
    pub fn is_en_passant(&self, move_: Move) -> (r: bool)
        ensures
            r == (self.ep == Some(move_.dest) && bit(self.pawns.0, move_.source.index()) && (abs(
                move_.dest.index() - move_.source.index(),
            ) == 7 || abs(move_.dest.index() - move_.source.index()) == 9) && !bit(
                self.occupied_bb.0,
                move_.dest.index(),
            )),
    {
        match self.ep {
            Some(ep_square) => {
                let source = move_.source.to_int();
                let dest = move_.dest.to_int();
                let diff = if dest > source { dest - source } else { source - dest };
                ep_square == move_.dest && self.pawns.contains(move_.source) && (diff == 7 || diff
                    == 9) && !self.occupied_bb.contains(move_.dest)
            },
            None => false,
        }
    }

    /// Does `move_` capture a piece of the side not to move, or capture en passant?
    pub open spec fn capture_spec(self, move_: Move) -> bool {
        (move_.source != move_.dest && (bit(self.color_mask(self.turn_.other()), move_.source.index()) || bit(
            self.color_mask(self.turn_.other()),
            move_.dest.index(),
        ))) || (self.ep == Some(move_.dest) && bit(self.pawns.0, move_.source.index()) && (abs(
            move_.dest.index() - move_.source.index(),
        ) == 7 || abs(move_.dest.index() - move_.source.index()) == 9) && !bit(self.occupied_bb.0, move_.dest.index()))
    }

    /// Does `move_` capture a piece of the side not to move, or capture en passant (see
    /// `capture_spec`)?
    pub fn is_capture(&self, move_: Move) -> (r: bool)
        ensures
            r == self.capture_spec(move_),
    {
        let touched = move_.source.to_bitboard().xor(move_.dest.to_bitboard());
        let a = touched.and(self.opponent_occupied());
        proof {
            assert(a.has(move_.source.index()) == (move_.source != move_.dest && bit(self.color_mask(self.turn_.other()), move_.source.index())));
            assert(a.has(move_.dest.index()) == (move_.source != move_.dest && bit(self.color_mask(self.turn_.other()), move_.dest.index())));
        }
        a.is_not_empty() || self.is_en_passant(move_)
    }

    /// Is `move_` a king move of more than one file, or a king moving onto a rook of its own
    /// side?
    pub fn is_castling(&self, move_: Move) -> (r: bool)
        ensures
            r == (bit(self.kings.0, move_.source.index()) && (abs(fl(move_.source.index()) - fl(
                move_.dest.index(),
            )) > 1 || bit(self.rooks.0 & self.color_mask(self.turn_), move_.dest.index()))),
    {
        if !self.kings.contains(move_.source) {
            return false;
        }
        let fs = move_.source.to_index() % 8;
        let fd = move_.dest.to_index() % 8;
        let diff = if fs > fd { fs - fd } else { fd - fs };
        diff > 1 || self.get_colored_piece_mask(PieceType::Rook, self.turn_).contains(move_.dest)
    }

    /// Does `move_` reset the fifty-move counter: a pawn move or a capture?
    pub fn is_zeroing(&self, move_: Move) -> (r: bool)
        ensures
            r == (move_.source != move_.dest && (bit(self.pawns.0, move_.source.index()) || bit(self.pawns.0, move_.dest.index())
                || bit(self.color_mask(self.turn_.other()), move_.source.index()) || bit(
                self.color_mask(self.turn_.other()),
                move_.dest.index(),
            ))),
    {
        let touched = move_.source.to_bitboard().xor(move_.dest.to_bitboard());
        let a = touched.and(self.pawns);
        let b = touched.and(self.opponent_occupied());
        proof {
            assert(a.has(move_.source.index()) == (move_.source != move_.dest && bit(self.pawns.0, move_.source.index())));
            assert(a.has(move_.dest.index()) == (move_.source != move_.dest && bit(self.pawns.0, move_.dest.index())));
            assert(b.has(move_.source.index()) == (move_.source != move_.dest && bit(self.color_mask(self.turn_.other()), move_.source.index())));
            assert(b.has(move_.dest.index()) == (move_.source != move_.dest && bit(self.color_mask(self.turn_.other()), move_.dest.index())));
        }
        a.is_not_empty() || b.is_not_empty()
    }

    /// Does `move_` go from the side to move's second rank two ranks forward, from a square
    /// without a pawn?
    pub fn is_double_pawn_push(&self, move_: Move) -> (r: bool)
        ensures
            r == (rk(move_.source.index()) == (if self.turn_ == Color::White { 1int } else { 6int })
                && abs(rk(move_.source.index()) - rk(move_.dest.index())) == 2 && !bit(
                self.pawns.0,
                move_.source.index(),
            )),
    {
        let rs = move_.source.to_index() / 8;
        let rd = move_.dest.to_index() / 8;
        let second = self.turn_.to_second_rank().to_index();
        let diff = if rs > rd { rs - rd } else { rd - rs };
        rs == second && diff == 2 && !self.pawns.contains(move_.source)
    }

    /// Does `move_` count as one that may reduce castle rights? The test asks, besides the
    /// squares the move touches, for the first and eighth ranks to hold no squares, so every
    /// move counts.
    pub fn reduces_castling_rights(&self, move_: Move) -> (r: bool)
        ensures
            r == true,
    {
        let cr = self.clean_castling_rights();
        let touched = move_.source.to_bitboard().xor(move_.dest.to_bitboard());
        let touched_cr = touched.and(cr);
        let touched_kings_cr_is_empty = touched_cr.and(self.kings).0 == 0;
        !(touched_cr.0 == 0 && touched_kings_cr_is_empty && false && self.white.0 == 0 && false
            && self.black.0 == 0)
    }

    /// Is `move_` irreversible: with an en passant square on the board, a zeroing move, or one
    /// that may reduce castle rights (which every move is, see `reduces_castling_rights`)?
    pub fn is_irreversible(&self, move_: Move) -> (r: bool)
        ensures
            r == true,
    {
        self.has_legal_en_passant() || self.is_zeroing(move_) || self.reduces_castling_rights(move_)
    }

    /// Is the pawn on `square` passed: no enemy pawn ahead of it on its own or an adjacent
    /// file?
    pub fn is_passed_pawn(&self, square: Square) -> (r: bool)
        requires
            self.wf(),
        ensures
            r == (self.piece_at(square.index()) matches Some(p) && p.type_ == PieceType::Pawn
                && forall|i: int| #![trigger bit(self.pawns.0, i)] 0 <= i < 64 && bit(self.pawns.0, i)
                    && bit(self.color_mask(p.color.other()), i) && abs(fl(i) - fl(square.index())) <= 1
                    ==> if p.color == Color::White { rk(i) <= rk(square.index()) } else { rk(i) >= rk(square.index()) }),
    {
        let self_color = match self.color_at(square) {
            Some(c) => c,
            None => {
                proof {
                    lemma_piece_at_facts(*self, square.index());
                }
                return false;
            },
        };
        proof {
            lemma_piece_at_facts(*self, square.index());
        }
        if !self.pawns.and(self.occupied_color(self_color)).contains(square) {
            return false;
        }
        let file = square.get_file();
        let mask = self.pawns.and(self.occupied_color(self_color.flip())).and(
            file.get_adjacent_files_bb().xor(file.to_bitboard()),
        ).and(square.get_rank().get_upper_board_mask(self_color));
        let r = mask.is_empty();
        proof {
            if r {
                assert forall|i: int| #![trigger bit(self.pawns.0, i)] 0 <= i < 64 && bit(self.pawns.0, i)
                    && bit(self.color_mask(self_color.other()), i) && abs(fl(i) - fl(square.index())) <= 1
                    implies if self_color == Color::White { rk(i) <= rk(square.index()) } else { rk(i) >= rk(square.index()) } by {
                    assert(!mask.has(i));
                }
            } else {
                let i = choose|i: int| mask.has(i);
                assert(bit(self.pawns.0, i));
            }
        }
        r
    }

    pub proof fn lemma_material_bounds(self)
        requires
            self.wf(),
        ensures
            0 <= self.material(Color::White) <= 57600,
            0 <= self.material(Color::Black) <= 57600,
    {
        lemma_sum_bounds(|i: int| self.square_material(Color::White, i), 64, 900);
        lemma_sum_bounds(|i: int| self.square_material(Color::Black, i), 64, 900);
    }

    /// The piece placement and its derived hash keys and material are the same.
    pub open spec fn same_placement(self, other: BoardPosition) -> bool {
        &&& self.pawns == other.pawns
        &&& self.knights == other.knights
        &&& self.bishops == other.bishops
        &&& self.rooks == other.rooks
        &&& self.queens == other.queens
        &&& self.kings == other.kings
        &&& self.white == other.white
        &&& self.black == other.black
        &&& self.occupied_bb == other.occupied_bb
        &&& self.pawn_hash == other.pawn_hash
        &&& self.non_pawn_hash == other.non_pawn_hash
        &&& self.white_material == other.white_material
        &&& self.black_material == other.black_material
    }
}

} // verus!
