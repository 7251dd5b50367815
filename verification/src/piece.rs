//! Piece types and colored pieces.
use vstd::prelude::*;
use crate::text::chars_to_string;
use crate::types::Color;

verus! {

/// The six kinds of chess pieces.
#[derive(PartialEq, Eq, PartialOrd, Ord, Clone, Copy, Debug, Hash, Structural)]
pub enum PieceType {
    Pawn,
    Knight,
    Bishop,
    Rook,
    Queen,
    King,
}

pub const NUM_PIECE_TYPES: usize = 6;

pub const NUM_PROMOTION_PIECES: usize = 4;

/// Value of a pawn in centipawns.
pub const PAWN_VALUE: i16 = 100;

/// The piece type of index `i` (0 = pawn, ..., 5 = king).
pub open spec fn piece_type_at(i: int) -> PieceType {
    if i <= 0 {
        PieceType::Pawn
    } else if i == 1 {
        PieceType::Knight
    } else if i == 2 {
        PieceType::Bishop
    } else if i == 3 {
        PieceType::Rook
    } else if i == 4 {
        PieceType::Queen
    } else {
        PieceType::King
    }
}

/// The lower-case letter of a piece type in FEN and SAN.
pub open spec fn piece_type_char(p: PieceType) -> char {
    match p {
        PieceType::Pawn => 'p',
        PieceType::Knight => 'n',
        PieceType::Bishop => 'b',
        PieceType::Rook => 'r',
        PieceType::Queen => 'q',
        PieceType::King => 'k',
    }
}

/// The letter of a piece in FEN: upper case for White, lower case for Black.
pub open spec fn piece_char(p: PieceType, color: Color) -> char {
    match color {
        Color::White => match p {
            PieceType::Pawn => 'P',
            PieceType::Knight => 'N',
            PieceType::Bishop => 'B',
            PieceType::Rook => 'R',
            PieceType::Queen => 'Q',
            PieceType::King => 'K',
        },
        Color::Black => piece_type_char(p),
    }
}

/// Material value in centipawns.
pub open spec fn piece_value(p: PieceType) -> int {
    match p {
        PieceType::Pawn => 100,
        PieceType::Knight => 320,
        PieceType::Bishop => 330,
        PieceType::Rook => 500,
        PieceType::Queen => 900,
        PieceType::King => 2000,
    }
}

impl PieceType {
    pub open spec fn index(self) -> int {
        match self {
            PieceType::Pawn => 0,
            PieceType::Knight => 1,
            PieceType::Bishop => 2,
            PieceType::Rook => 3,
            PieceType::Queen => 4,
            PieceType::King => 5,
        }
    }

    pub broadcast proof fn lemma_piece_type_at_index(self)
        ensures
            #[trigger] piece_type_at(self.index()) == self,
            0 <= self.index() < 6,
    {
    }

    pub fn to_int(self) -> (r: u8)
        ensures
            r == self.index(),
    {
        self as u8
    }

    pub fn to_index(self) -> (r: usize)
        ensures
            r == self.index(),
    {
        self as usize
    }

    /// The piece type of index `i`.
    pub fn from_index(i: usize) -> (r: PieceType)
        requires
            i < 6,
        ensures
            r == piece_type_at(i as int),
            r.index() == i,
    {
        match i {
            0 => PieceType::Pawn,
            1 => PieceType::Knight,
            2 => PieceType::Bishop,
            3 => PieceType::Rook,
            4 => PieceType::Queen,
            _ => PieceType::King,
        }
    }

    /// The piece letter, upper case for White and lower case for Black.
    pub fn to_char(self, color: Color) -> (r: char)
        ensures
            r == piece_char(self, color),
    {
        match color {
            Color::White => match self {
                PieceType::Pawn => 'P',
                PieceType::Knight => 'N',
                PieceType::Bishop => 'B',
                PieceType::Rook => 'R',
                PieceType::Queen => 'Q',
                PieceType::King => 'K',
            },
            Color::Black => match self {
                PieceType::Pawn => 'p',
                PieceType::Knight => 'n',
                PieceType::Bishop => 'b',
                PieceType::Rook => 'r',
                PieceType::Queen => 'q',
                PieceType::King => 'k',
            },
        }
    }

    /// The piece letter as a string, upper case for White and lower case for Black.
    pub fn to_string(self, color: Color) -> (r: String)
        ensures
            r@ == seq![piece_char(self, color)],
    {
        let mut v: Vec<char> = Vec::new();
        v.push(self.to_char(color));
        chars_to_string(&v)
    }

    /// Material value in centipawns.
    pub fn evaluate(self) -> (r: i16)
        ensures
            r == piece_value(self),
    {
        match self {
            PieceType::Pawn => 100,
            PieceType::Knight => 320,
            PieceType::Bishop => 330,
            PieceType::Rook => 500,
            PieceType::Queen => 900,
            PieceType::King => 2000,
        }
    }
}

/// A piece type together with its color.
#[derive(PartialEq, Eq, PartialOrd, Ord, Clone, Copy, Debug, Hash, Structural)]
pub struct Piece {
    pub type_: PieceType,
    pub color: Color,
}

impl Piece {
    pub fn new(type_: PieceType, color: Color) -> (r: Piece)
        ensures
            r.type_ == type_,
            r.color == color,
    {
        Piece { type_, color }
    }

    pub fn get_piece_type(self) -> (r: PieceType)
        ensures
            r == self.type_,
    {
        self.type_
    }

    pub fn get_color(self) -> (r: Color)
        ensures
            r == self.color,
    {
        self.color
    }

    /// The FEN letter of the piece.
    pub fn to_char(self) -> (r: char)
        ensures
            r == piece_char(self.type_, self.color),
    {
        self.type_.to_char(self.color)
    }

    /// The FEN letter of the piece as a string.
    pub fn to_string(self) -> (r: String)
        ensures
            r@ == seq![piece_char(self.type_, self.color)],
    {
        self.type_.to_string(self.color)
    }
}

/// All the piece types, in order.
pub fn all_piece_types() -> (r: Vec<PieceType>)
    ensures
        r@ == seq![PieceType::Pawn, PieceType::Knight, PieceType::Bishop, PieceType::Rook, PieceType::Queen, PieceType::King],
{
    let mut v = Vec::new();
    v.push(PieceType::Pawn);
    v.push(PieceType::Knight);
    v.push(PieceType::Bishop);
    v.push(PieceType::Rook);
    v.push(PieceType::Queen);
    v.push(PieceType::King);
    proof {
        assert(v@ =~= seq![PieceType::Pawn, PieceType::Knight, PieceType::Bishop, PieceType::Rook, PieceType::Queen, PieceType::King]);
    }
    v
}

} // verus!
