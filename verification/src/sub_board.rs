//! A chess position seen through the interface of the board kept by the search tree: the
//! same state as `BoardPosition`, with its own names for a few queries.
use vstd::prelude::*;
use crate::attacks::{abs, fl, rk};
use crate::bitboard::{BitBoard, DARK_SQUARES_MASK, LIGHT_SQUARES_MASK};
use crate::bits::{bit, group_bit_facts, popcount};
use crate::builder::ep_rank_of;
use crate::castle::CastleRights;
use crate::move_generator::MoveGenerator;
use crate::moves::Move;
use crate::piece::{Piece, PieceType};
use crate::position::{BoardPosition, BoardStatus};
use crate::position_query::ENDGAME_PIECE_THRESHOLD;
use crate::position_status::mirror_square;
use crate::types::{group_square_facts, square_at, Color, Square};

verus! {

broadcast use group_bit_facts, group_square_facts;

/// A position as the search tree keeps it.
#[derive(Clone, Copy, Debug)]
pub struct SubBoard {
    pub position: BoardPosition,
}

impl SubBoard {
    /// The position with the other side to move, unless the side to move is in check.
    pub fn null_move(&self) -> (r: Option<SubBoard>)
        requires
            self.position.wf(),
            self.position.halfmove_clock < 255,
            self.position.fullmove_number < 65535,
        ensures
            r is Some == (self.position.checkers_bb.0 == 0),
            r matches Some(b) ==> b.position.wf() && b.position.info_ok() && b.position.same_placement(self.position)
                && b.position.turn_ == self.position.turn_.other() && b.position.ep is None
                && b.position.white_castle_rights == self.position.white_castle_rights
                && b.position.black_castle_rights == self.position.black_castle_rights
                && b.position.halfmove_clock == self.position.halfmove_clock + 1
                && b.position.fullmove_number == self.position.fullmove_number + 1,
    {
        if self.position.get_checkers().0 != 0 {
            None
        } else {
            Some(SubBoard { position: self.position.null_move_unchecked() })
        }
    }

    /// The legal moves onto the squares of `to_bitboard`.
    pub fn generate_masked_legal_moves(&self, to_bitboard: BitBoard) -> (r: MoveGenerator)
        requires
            self.position.wf(),
            popcount(self.position.color_mask(self.position.turn_)) <= 16,
        ensures
            r.gen_wf(),
            crate::move_generator::reorganized(self.position.all_entries(), r.items(), to_bitboard.0),
            r.from_mask() == u64::MAX,
            r.to_mask() == to_bitboard.0,
            r.promotion_at() == 0,
            r.at() == 0,
            r.last_at() == usize::MAX,
    {
        self.position.generate_masked_legal_moves(BitBoard(0xffff_ffff_ffff_ffff), to_bitboard)
    }

    /// Play `move_` on this board.
    pub fn make_move(&mut self, move_: Move)
        requires
            old(self).position.wf(),
            old(self).position.move_ok(move_),
        ensures
            final(self).position.wf(),
            final(self).position.info_ok(),
            forall|i: int| #[trigger] final(self).position.piece_at(i) == old(self).position.moved_piece_at(move_, i),
            old(self).position.after_move_state(move_, final(self).position),
            final(self).position == old(self).position.after_move(move_),
    {
        self.position = self.position.make_move_new(move_);
    }

    /// Mirror the board top to bottom and hand the move to the other side, dropping the
    /// castle rights; the checkers and pinned pieces are those of the new side to move.
    pub fn flip_vertical(&mut self)
        requires
            old(self).position.wf(),
        ensures
            final(self).position.wf(),
            final(self).position.info_ok(),
            forall|i: int| 0 <= i < 64 ==> #[trigger] final(self).position.piece_at(i) == old(self).position.piece_at(
                mirror_square(i, true),
            ),
            final(self).position.turn_ == old(self).position.turn_.other(),
            final(self).position.white_castle_rights == CastleRights::NoRights,
            final(self).position.black_castle_rights == CastleRights::NoRights,
            final(self).position.ep == match old(self).position.ep {
                Some(sq) => Some(square_at(mirror_square(sq.index(), true))),
                None => None,
            },
            final(self).position.halfmove_clock == old(self).position.halfmove_clock,
            final(self).position.fullmove_number == old(self).position.fullmove_number,
    {
        self.position.flip_vertical_and_flip_turn_unchecked();
        let ghost flipped = self.position;
        self.position.update_pin_and_checkers_info();
        assert forall|i: int| #[trigger] self.position.piece_at(i) == flipped.piece_at(i) by {
            assert(self.position.type_on(i) == flipped.type_on(i));
            assert(self.position.color_on(i) == flipped.color_on(i));
        }
    }

    pub fn occupied(&self) -> (r: BitBoard)
        ensures
            r == self.position.occupied_bb,
    {
        self.position.occupied()
    }

    /// The square of the lowest king of `color`.
    pub fn king_square(&self, color: Color) -> (r: Square)
        requires
            self.position.mask_of(PieceType::King) & self.position.color_mask(color) != 0,
        ensures
            bit(self.position.mask_of(PieceType::King) & self.position.color_mask(color), r.index()),
            forall|j: int| 0 <= j < r.index() ==> !bit(self.position.mask_of(PieceType::King) & self.position.color_mask(color), j),
    {
        self.position.get_king_square(color)
    }

    /// The side to move.
    pub fn side_to_move(&self) -> (r: Color)
        ensures
            r == self.position.turn_,
    {
        self.position.turn()
    }

    pub fn my_castle_rights(&self) -> (r: CastleRights)
        ensures
            r == self.position.castle_rights_of(self.position.turn_),
    {
        self.position.my_castle_rights()
    }

    pub fn their_castle_rights(&self) -> (r: CastleRights)
        ensures
            r == self.position.castle_rights_of(self.position.turn_.other()),
    {
        self.position.their_castle_rights()
    }

    /// The type of the piece on `square`, if any.
    pub fn piece_on(&self, square: Square) -> (r: Option<PieceType>)
        ensures
            r == self.position.type_on(square.index()),
    {
        self.position.get_piece_type_at(square)
    }

    /// The color of the piece on `square`, if any.
    pub fn color_on(&self, square: Square) -> (r: Option<Color>)
        ensures
            r == self.position.color_on(square.index()),
    {
        self.position.color_at(square)
    }

    /// The square a pawn may capture en passant onto, if any.
    pub fn en_passant(&self) -> (r: Option<Square>)
        ensures
            r == self.position.ep,
    {
        self.position.ep_square()
    }

    /// Pieces standing alone between the king of the side to move and an enemy slider, as
    /// last computed.
    pub fn pinned(&self) -> (r: BitBoard)
        ensures
            r == self.position.pinned_bb,
    {
        self.position.pinned()
    }

    /// Squares of the pieces giving check to the side to move, as last computed.
    pub fn checkers(&self) -> (r: BitBoard)
        ensures
            r == self.position.checkers_bb,
    {
        self.position.get_checkers()
    }

    /// Whether the game goes on, or ends in stalemate or checkmate.
    pub fn status(&self) -> (r: BoardStatus)
        requires
            self.position.wf(),
            popcount(self.position.color_mask(self.position.turn_)) <= 16,
        ensures
            r == self.position.status_spec(),
    {
        self.position.status()
    }

    /// Number of pieces on the board.
    pub fn get_num_pieces(&self) -> (r: u32)
        ensures
            r == popcount(self.position.occupied_bb.0),
    {
        self.position.get_num_pieces()
    }

    /// Squares of the pieces of `color`.
    pub fn occupied_co(&self, color: Color) -> (r: BitBoard)
        ensures
            r.0 == self.position.color_mask(color),
    {
        self.position.occupied_color(color)
    }

    pub fn get_black_occupied(&self) -> (r: BitBoard)
        ensures
            r == self.position.black,
    {
        self.position.get_black_occupied()
    }

    pub fn get_white_occupied(&self) -> (r: BitBoard)
        ensures
            r == self.position.white,
    {
        self.position.get_white_occupied()
    }

    /// The square of the lowest king of `color`.
    pub fn get_king_square(&self, color: Color) -> (r: Square)
        requires
            self.position.mask_of(PieceType::King) & self.position.color_mask(color) != 0,
        ensures
            bit(self.position.mask_of(PieceType::King) & self.position.color_mask(color), r.index()),
            forall|j: int| 0 <= j < r.index() ==> !bit(self.position.mask_of(PieceType::King) & self.position.color_mask(color), j),
    {
        self.position.get_king_square(color)
    }

    /// Squares of the pieces of type `piece_type`, of either color.
    pub fn get_piece_mask(&self, piece_type: PieceType) -> (r: BitBoard)
        ensures
            r.0 == self.position.mask_of(piece_type),
    {
        self.position.get_piece_mask(piece_type)
    }

    /// `color` alone cannot mate: a bare king, or a king and a single knight or bishop.
    pub fn has_insufficient_material(&self, color: Color) -> (r: bool)
        ensures
            r == (popcount(self.position.color_mask(color)) == 1 || (popcount(self.position.color_mask(color)) == 2
                && (self.position.rooks.0 ^ self.position.queens.0 ^ self.position.pawns.0) & self.position.color_mask(color) == 0)),
    {
        self.position.has_insufficient_material(color)
    }

    /// Is there a piece other than pawns and kings on the board?
    pub fn has_non_pawn_material(&self) -> (r: bool)
        ensures
            r == (self.position.pawns.0 ^ self.position.kings.0 != self.position.occupied_bb.0),
    {
        self.position.has_non_pawn_material()
    }

    /// Squares of all pieces but the kings.
    pub fn get_non_king_pieces_mask(&self) -> (r: BitBoard)
        ensures
            r.0 == self.position.occupied_bb.0 ^ self.position.kings.0,
    {
        self.position.get_non_king_pieces_mask()
    }

    /// Are all pieces but the kings bishops standing on squares of one color?
    pub fn has_only_same_colored_bishop(&self) -> (r: bool)
        ensures
            r == {
                let non_king = self.position.occupied_bb.0 ^ self.position.kings.0;
                popcount(non_king) <= 32 && non_king == self.position.bishops.0 && (non_king
                    & LIGHT_SQUARES_MASK == self.position.bishops.0 || non_king & DARK_SQUARES_MASK
                    == self.position.bishops.0)
            },
    {
        self.position.has_only_same_colored_bishop()
    }

    /// Can neither side mate: bare kings, a single minor piece, or only bishops on squares of
    /// one color besides the kings.
    pub fn is_insufficient_material(&self) -> (r: bool)
        ensures
            r == {
                let n = popcount(self.position.occupied_bb.0);
                if n == 2 {
                    true
                } else if n == 3 {
                    self.position.pawns.0 == 0 && self.position.rooks.0 == 0 && self.position.queens.0 == 0
                } else {
                    let non_king = self.position.occupied_bb.0 ^ self.position.kings.0;
                    popcount(non_king) <= 32 && non_king == self.position.bishops.0 && (non_king
                        & LIGHT_SQUARES_MASK == self.position.bishops.0 || non_king & DARK_SQUARES_MASK
                        == self.position.bishops.0)
                }
            },
    {
        self.position.is_insufficient_material()
    }

    pub fn castle_rights(&self, color: Color) -> (r: CastleRights)
        ensures
            r == self.position.castle_rights_of(color),
    {
        self.position.castle_rights(color)
    }

    /// The side to move.
    pub fn turn(&self) -> (r: Color)
        ensures
            r == self.position.turn_,
    {
        self.position.turn()
    }

    pub fn get_white_material_score(&self) -> (r: i32)
        requires
            self.position.wf(),
        ensures
            r == self.position.material(Color::White),
    {
        self.position.get_white_material_score()
    }

    pub fn get_black_material_score(&self) -> (r: i32)
        requires
            self.position.wf(),
        ensures
            r == self.position.material(Color::Black),
    {
        self.position.get_black_material_score()
    }

    /// Does `move_` leave the other side in check?
    pub fn gives_check(&self, move_: Move) -> (r: bool)
        requires
            self.position.wf(),
            self.position.move_ok(move_),
        ensures
            r == (self.position.after_move(move_).checkers_bb.0 != 0),
    {
        self.position.gives_check(move_)
    }

    /// Does `move_` checkmate the other side?
    pub fn gives_checkmate(&self, move_: Move) -> (r: bool)
        requires
            self.position.wf(),
            self.position.move_ok(move_),
            popcount(self.position.color_mask(self.position.turn_.other())) <= 16,
        ensures
            r == (self.position.after_move(move_).status_spec() == BoardStatus::Checkmate),
    {
        self.position.gives_checkmate(move_)
    }

    /// Could the position arise in a game (see `sane_spec`)?
    pub fn is_sane(&self) -> (r: bool)
        requires
            self.position.wf(),
        ensures
            r == self.position.sane_spec(),
    {
        self.position.is_sane()
    }

    /// The position hash: the keys of all pieces, of the en passant file, of both sides'
    /// castle rights and of the side to move.
    pub fn get_hash(&self) -> (r: u64)
        ensures
            r == self.position.hash_spec(),
    {
        self.position.get_hash()
    }

    /// The type of the piece on `square`, if any.
    pub fn piece_type_at(&self, square: Square) -> (r: Option<PieceType>)
        ensures
            r == self.position.type_on(square.index()),
    {
        self.position.get_piece_type_at(square)
    }

    /// The color of the piece on `square`, if any.
    pub fn color_at(&self, square: Square) -> (r: Option<Color>)
        ensures
            r == self.position.color_on(square.index()),
    {
        self.position.color_at(square)
    }

    /// The piece on `square`, if any.
    pub fn piece_at(&self, square: Square) -> (r: Option<Piece>)
        ensures
            r == self.position.piece_at(square.index()),
    {
        self.position.get_piece_at(square)
    }

    /// The square a pawn may capture en passant onto, if any.
    pub fn ep_square(&self) -> (r: Option<Square>)
        ensures
            r == self.position.ep,
    {
        self.position.ep_square()
    }

    pub fn get_halfmove_clock(&self) -> (r: u8)
        ensures
            r == self.position.halfmove_clock,
    {
        self.position.get_halfmove_clock()
    }

    pub fn get_fullmove_number(&self) -> (r: u16)
        ensures
            r == self.position.fullmove_number,
    {
        self.position.get_fullmove_number()
    }

    /// The FEN text of the position: that of its builder.
    pub fn get_fen(&self) -> (r: String)
        requires
            self.position.wf(),
        ensures
            r@ == crate::builder::fen_text(self.position.builder_model(), ep_rank_of(self.position.turn_)),
    {
        self.position.get_fen()
    }

    /// Does `move_` capture en passant: a pawn moving diagonally onto the empty en passant
    /// square?
    pub fn is_en_passant(&self, move_: Move) -> (r: bool)
        ensures
            r == (self.position.ep == Some(move_.dest) && bit(self.position.pawns.0, move_.source.index()) && (abs(
                move_.dest.index() - move_.source.index(),
            ) == 7 || abs(move_.dest.index() - move_.source.index()) == 9) && !bit(
                self.position.occupied_bb.0,
                move_.dest.index(),
            )),
    {
        self.position.is_en_passant(move_)
    }

    /// Is the pawn on `square` passed: no enemy pawn ahead of it on its own or an adjacent
    /// file?
    pub fn is_passed_pawn(&self, square: Square) -> (r: bool)
        requires
            self.position.wf(),
        ensures
            r == (self.position.piece_at(square.index()) matches Some(p) && p.type_ == PieceType::Pawn
                && forall|i: int| #![trigger bit(self.position.pawns.0, i)] 0 <= i < 64 && bit(self.position.pawns.0, i)
                    && bit(self.position.color_mask(p.color.other()), i) && abs(fl(i) - fl(square.index())) <= 1
                    ==> if p.color == Color::White { rk(i) <= rk(square.index()) } else { rk(i) >= rk(square.index()) }),
    {
        self.position.is_passed_pawn(square)
    }

    /// Does `move_` capture a piece of the side not to move, or capture en passant?
    pub fn is_capture(&self, move_: Move) -> (r: bool)
        ensures
            r == ((move_.source != move_.dest && (bit(self.position.color_mask(self.position.turn_.other()), move_.source.index()) || bit(
                self.position.color_mask(self.position.turn_.other()),
                move_.dest.index(),
            ))) || (self.position.ep == Some(move_.dest) && bit(self.position.pawns.0, move_.source.index()) && (abs(
                move_.dest.index() - move_.source.index(),
            ) == 7 || abs(move_.dest.index() - move_.source.index()) == 9) && !bit(
                self.position.occupied_bb.0,
                move_.dest.index(),
            ))),
    {
        self.position.is_capture(move_)
    }

    /// A generator of the legal moves of the position.
    pub fn generate_legal_moves(&self) -> (r: MoveGenerator)
        requires
            self.position.wf(),
            popcount(self.position.color_mask(self.position.turn_)) <= 16,
        ensures
            r.gen_wf(),
            r.items() == self.position.all_entries(),
            r.promotion_at() == 0,
            r.from_mask() == u64::MAX,
            r.to_mask() == u64::MAX,
            r.at() == 0,
            r.last_at() == usize::MAX,
    {
        self.position.generate_legal_moves()
    }

    /// The legal moves that capture: onto pieces of the other side or the en passant square.
    pub fn generate_legal_captures(&self) -> (r: MoveGenerator)
        requires
            self.position.wf(),
            popcount(self.position.color_mask(self.position.turn_)) <= 16,
        ensures
            r.gen_wf(),
            crate::move_generator::reorganized(self.position.all_entries(), r.items(), r.to_mask()),
            r.from_mask() == u64::MAX,
            r.to_mask() == match self.position.ep {
                Some(sq) => self.position.color_mask(self.position.turn_.other()) ^ (1u64 << (sq.index() as u64)),
                None => self.position.color_mask(self.position.turn_.other()),
            },
            r.promotion_at() == 0,
            r.at() == 0,
            r.last_at() == usize::MAX,
    {
        self.position.generate_legal_captures()
    }

    /// Is there a group of legal moves from the source of `move_`?
    pub fn is_legal(&self, move_: Move) -> (r: bool)
        requires
            self.position.wf(),
            popcount(self.position.color_mask(self.position.turn_)) <= 16,
        ensures
            r == exists|k: int| 0 <= k < self.position.all_entries().len() && (#[trigger] self.position.all_entries()[k]).square == move_.source,
    {
        self.position.is_legal(&move_)
    }

    /// The position after `move_`, with the checkers and pinned pieces of the new side to move.
    pub fn make_move_new(&self, move_: Move) -> (r: SubBoard)
        requires
            self.position.wf(),
            self.position.move_ok(move_),
        ensures
            r.position.wf(),
            r.position.info_ok(),
            forall|i: int| #[trigger] r.position.piece_at(i) == self.position.moved_piece_at(move_, i),
            self.position.after_move_state(move_, r.position),
            r.position == self.position.after_move(move_),
    {
        SubBoard { position: self.position.make_move_new(move_) }
    }

    /// Is `move_` a king move of more than one file, or a king moving onto a rook of its own
    /// side?
    pub fn is_castling(&self, move_: Move) -> (r: bool)
        ensures
            r == (bit(self.position.kings.0, move_.source.index()) && (abs(fl(move_.source.index()) - fl(
                move_.dest.index(),
            )) > 1 || bit(self.position.rooks.0 & self.position.color_mask(self.position.turn_), move_.dest.index()))),
    {
        self.position.is_castling(move_)
    }

    /// Does `move_` reset the fifty-move counter: a pawn move or a capture?
    pub fn is_zeroing(&self, move_: Move) -> (r: bool)
        ensures
            r == (move_.source != move_.dest && (bit(self.position.pawns.0, move_.source.index()) || bit(self.position.pawns.0, move_.dest.index())
                || bit(self.position.color_mask(self.position.turn_.other()), move_.source.index()) || bit(
                self.position.color_mask(self.position.turn_.other()),
                move_.dest.index(),
            ))),
    {
        self.position.is_zeroing(move_)
    }

    /// Squares of the pieces giving check to the side to move, as last computed.
    pub fn get_checkers(&self) -> (r: BitBoard)
        ensures
            r == self.position.checkers_bb,
    {
        self.position.get_checkers()
    }

    /// Is the side to move in check (as last computed)?
    pub fn is_check(&self) -> (r: bool)
        ensures
            r == (self.position.checkers_bb.0 != 0),
    {
        self.position.is_check()
    }

    /// Is the side to move checkmated?
    pub fn is_checkmate(&self) -> (r: bool)
        requires
            self.position.wf(),
            popcount(self.position.color_mask(self.position.turn_)) <= 16,
        ensures
            r == (self.position.status_spec() == BoardStatus::Checkmate),
    {
        self.position.is_checkmate()
    }

    /// `score` from the side to move's point of view.
    pub fn score_flipped(&self, score: i32) -> (r: i32)
        requires
            score > i32::MIN,
        ensures
            r == if self.position.turn_ == Color::White { score as int } else { -score },
    {
        self.position.score_flipped(score)
    }

    /// White's material minus Black's.
    pub fn get_material_score(&self) -> (r: i32)
        requires
            self.position.wf(),
        ensures
            r == self.position.material(Color::White) - self.position.material(Color::Black),
    {
        self.position.get_material_score()
    }

    /// The side with more material, if any.
    pub fn get_winning_side(&self) -> (r: Option<Color>)
        requires
            self.position.wf(),
        ensures
            r == if self.position.material(Color::White) > self.position.material(Color::Black) {
                Some(Color::White)
            } else if self.position.material(Color::White) < self.position.material(Color::Black) {
                Some(Color::Black)
            } else {
                None
            },
    {
        self.position.get_winning_side()
    }

    /// Material difference from the side to move's point of view.
    pub fn get_material_score_flipped(&self) -> (r: i32)
        requires
            self.position.wf(),
        ensures
            r == if self.position.turn_ == Color::White {
                self.position.material(Color::White) - self.position.material(Color::Black)
            } else {
                self.position.material(Color::Black) - self.position.material(Color::White)
            },
    {
        self.position.get_material_score_flipped()
    }

    /// Value of the pawns, knights, bishops, rooks and queens of either color within `mask`.
    pub fn get_masked_material_score_abs(&self, mask: BitBoard) -> (r: i32)
        ensures
            r == self.position.masked_material(mask.0),
    {
        self.position.get_masked_material_score_abs(mask)
    }

    /// Material of both sides together.
    pub fn get_material_score_abs(&self) -> (r: i32)
        requires
            self.position.wf(),
        ensures
            r == self.position.material(Color::White) + self.position.material(Color::Black),
    {
        self.position.get_material_score_abs()
    }

    /// White's material minus Black's, less the value of all pawns on the board.
    pub fn get_non_pawn_material_score_abs(&self) -> (r: i32)
        requires
            self.position.wf(),
        ensures
            r == self.position.material(Color::White) - self.position.material(Color::Black) - 100 * popcount(self.position.pawns.0),
    {
        self.position.get_non_pawn_material_score_abs()
    }

}

} // verus!
