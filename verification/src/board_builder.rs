//! A board described square by square, under the names of the older board interface: the
//! en passant square is given on the rank of the pawn that moved two squares.
use vstd::prelude::*;
use crate::builder::{ep_rank_of, fen_model, fen_text, with_pieces, MiniBoardBuilder};
use crate::castle::CastleRights;
use crate::error::TimecatError;
use crate::piece::Piece;
use crate::types::{group_square_facts, square_at, Color, File, Square};

verus! {

broadcast use group_square_facts;

/// A position described square by square, none of it checked.
#[derive(Clone, Debug)]
pub struct BoardBuilder {
    pub builder: MiniBoardBuilder,
}

impl BoardBuilder {
    /// An empty board with white to move, no castle rights, no en passant file, and move
    /// clocks zero and one.
    pub fn new() -> (r: BoardBuilder)
        ensures
            r.builder.wf(),
            r.builder.model() == (crate::fen::empty_pieces(), Color::White, CastleRights::NoRights, CastleRights::NoRights, None::<int>, 0u8, 1u16),
    {
        BoardBuilder { builder: MiniBoardBuilder::new() }
    }

    /// A builder with the pieces of `pieces` (later ones replacing earlier ones on the same
    /// square) and the rest as given.
    pub fn setup(
        pieces: &Vec<(Square, Piece)>,
        turn: Color,
        white_castle_rights: CastleRights,
        black_castle_rights: CastleRights,
        en_passant: Option<File>,
        halfmove_clock: u8,
        fullmove_number: u16,
    ) -> (r: BoardBuilder)
        ensures
            r.builder.wf(),
            r.builder.model() == (with_pieces(crate::fen::empty_pieces(), pieces@), turn, white_castle_rights, black_castle_rights, match en_passant {
                Some(f) => Some(f.index()),
                None => None,
            }, halfmove_clock, fullmove_number),
    {
        BoardBuilder {
            builder: MiniBoardBuilder::setup(
                pieces,
                turn,
                white_castle_rights,
                black_castle_rights,
                en_passant,
                halfmove_clock,
                fullmove_number,
            ),
        }
    }

    /// Read the FEN text `value` (see `fen_model`); text that does not read is a bad FEN.
    pub fn from_str(value: &str) -> (r: Result<BoardBuilder, TimecatError>)
        ensures
            match fen_model(value@) {
                Some(m) => r matches Ok(b) && b.builder.wf() && b.builder.model() == m,
                None => r matches Err(e) && e matches TimecatError::BadFen { fen } && fen@ == value@,
            },
    {
        match MiniBoardBuilder::from_str(value) {
            Ok(b) => Ok(BoardBuilder { builder: b }),
            Err(e) => Err(e),
        }
    }

    /// The square of the pawn that may be taken en passant: on the en passant file, on the
    /// fourth rank of the side that just moved.
    pub fn get_en_passant(&self) -> (r: Option<Square>)
        requires
            self.builder.wf(),
        ensures
            r == match self.builder.model().4 {
                Some(f) => Some(square_at((if self.builder.model().1 == Color::White { 4int } else { 3int }) * 8 + f)),
                None => None,
            },
    {
        match self.builder.get_en_passant() {
            Some(sq) => {
                let r = Square::from_rank_and_file(self.builder.get_turn().flip().to_fourth_rank(), sq.get_file());
                assert(sq.file() == self.builder.model().4->0);
                Some(r)
            },
            None => None,
        }
    }

    pub fn get_turn(&self) -> (r: Color)
        ensures
            r == self.builder.model().1,
    {
        self.builder.get_turn()
    }

    pub fn get_side_to_move(&self) -> (r: Color)
        ensures
            r == self.builder.model().1,
    {
        self.builder.get_turn()
    }

    pub fn get_castle_rights(&self, color: Color) -> (r: CastleRights)
        ensures
            r == if color == Color::White { self.builder.model().2 } else { self.builder.model().3 },
    {
        self.builder.get_castle_rights(color)
    }

    pub fn get_halfmove_clock(&self) -> (r: u8)
        ensures
            r == self.builder.model().5,
    {
        self.builder.get_halfmove_clock()
    }

    pub fn get_fullmove_number(&self) -> (r: u16)
        ensures
            r == self.builder.model().6,
    {
        self.builder.get_fullmove_number()
    }

    /// The piece on `square`, if any.
    pub fn get_piece(&self, square: Square) -> (r: Option<Piece>)
        requires
            self.builder.wf(),
        ensures
            r == self.builder.model().0[square.index()],
    {
        self.builder.get_piece(square)
    }

    pub fn turn(&mut self, color: Color)
        ensures
            final(self).builder.model() == (old(self).builder.model().0, color, old(self).builder.model().2, old(self).builder.model().3, old(self).builder.model().4, old(self).builder.model().5, old(self).builder.model().6),
    {
        self.builder.turn(color)
    }

    pub fn side_to_move(&mut self, color: Color)
        ensures
            final(self).builder.model() == (old(self).builder.model().0, color, old(self).builder.model().2, old(self).builder.model().3, old(self).builder.model().4, old(self).builder.model().5, old(self).builder.model().6),
    {
        self.builder.turn(color)
    }

    pub fn castle_rights(&mut self, color: Color, castle_rights: CastleRights)
        ensures
            final(self).builder.model() == if color == Color::White {
                (old(self).builder.model().0, old(self).builder.model().1, castle_rights, old(self).builder.model().3, old(self).builder.model().4, old(self).builder.model().5, old(self).builder.model().6)
            } else {
                (old(self).builder.model().0, old(self).builder.model().1, old(self).builder.model().2, castle_rights, old(self).builder.model().4, old(self).builder.model().5, old(self).builder.model().6)
            },
    {
        self.builder.castle_rights(color, castle_rights)
    }

    /// Put `piece` on `square`, replacing what was there.
    pub fn piece(&mut self, square: Square, piece: Piece)
        requires
            old(self).builder.wf(),
        ensures
            final(self).builder.model() == (old(self).builder.model().0.update(square.index(), Some(piece)), old(self).builder.model().1, old(self).builder.model().2, old(self).builder.model().3, old(self).builder.model().4, old(self).builder.model().5, old(self).builder.model().6),
    {
        self.builder.add_piece(square, piece)
    }

    /// Empty `square`.
    pub fn clear_square(&mut self, square: Square)
        requires
            old(self).builder.wf(),
        ensures
            final(self).builder.model() == (old(self).builder.model().0.update(square.index(), None), old(self).builder.model().1, old(self).builder.model().2, old(self).builder.model().3, old(self).builder.model().4, old(self).builder.model().5, old(self).builder.model().6),
    {
        self.builder.clear_square(square)
    }

    pub fn en_passant(&mut self, file: Option<File>)
        ensures
            final(self).builder.model() == (old(self).builder.model().0, old(self).builder.model().1, old(self).builder.model().2, old(self).builder.model().3, match file {
                Some(f) => Some(f.index()),
                None => None,
            }, old(self).builder.model().5, old(self).builder.model().6),
    {
        self.builder.ep_file(file)
    }

    pub fn halfmove_clock(&mut self, halfmove_clock: u8)
        ensures
            final(self).builder.model() == (old(self).builder.model().0, old(self).builder.model().1, old(self).builder.model().2, old(self).builder.model().3, old(self).builder.model().4, halfmove_clock, old(self).builder.model().6),
    {
        self.builder.halfmove_clock(halfmove_clock)
    }

    pub fn fullmove_number(&mut self, fullmove_number: u16)
        ensures
            final(self).builder.model() == (old(self).builder.model().0, old(self).builder.model().1, old(self).builder.model().2, old(self).builder.model().3, old(self).builder.model().4, old(self).builder.model().5, fullmove_number),
    {
        self.builder.fullmove_number(fullmove_number)
    }

    /// The FEN text of the builder, with the en passant square on the third rank of the side
    /// that just moved.
    pub fn to_string(&self) -> (r: String)
        requires
            self.builder.wf(),
        ensures
            r@ == fen_text(self.builder.model(), ep_rank_of(self.builder.model().1)),
    {
        self.builder.to_string()
    }

}

} // verus!
