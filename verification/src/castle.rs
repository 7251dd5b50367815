//! Castling rights of one side.
use vstd::prelude::*;
use crate::bitboard::BitBoard;
use crate::bits::group_bit_facts;
use crate::text::chars_to_string;
use crate::types::{Color, File, Square};

verus! {

broadcast use group_bit_facts;

/// Which castling moves one side may still make.
#[derive(PartialEq, Eq, Clone, Copy, Debug, Hash, Structural)]
pub enum CastleRights {
    NoRights,
    KingSide,
    QueenSide,
    Both,
}

/// The castling rights with index `i` (bit 0: king side, bit 1: queen side).
pub open spec fn castle_rights_at(i: int) -> CastleRights {
    if i == 0 {
        CastleRights::NoRights
    } else if i == 1 {
        CastleRights::KingSide
    } else if i == 2 {
        CastleRights::QueenSide
    } else {
        CastleRights::Both
    }
}

/// The FEN letters of castling rights, upper case for White.
pub open spec fn castle_rights_chars(c: CastleRights, color: Color) -> Seq<char> {
    match (c, color) {
        (CastleRights::NoRights, _) => seq![],
        (CastleRights::KingSide, Color::White) => seq!['K'],
        (CastleRights::QueenSide, Color::White) => seq!['Q'],
        (CastleRights::Both, Color::White) => seq!['K', 'Q'],
        (CastleRights::KingSide, Color::Black) => seq!['k'],
        (CastleRights::QueenSide, Color::Black) => seq!['q'],
        (CastleRights::Both, Color::Black) => seq!['k', 'q'],
    }
}

/// The rights that moving a piece from or to square `sq` of `color`'s back rank touches:
/// the rook corners and the king's starting square.
pub open spec fn square_castle_rights(color: Color, sq: int) -> CastleRights {
    let base = if color == Color::White { 0int } else { 56int };
    if sq == base {
        CastleRights::QueenSide
    } else if sq == base + 4 {
        CastleRights::Both
    } else if sq == base + 7 {
        CastleRights::KingSide
    } else {
        CastleRights::NoRights
    }
}

impl CastleRights {
    pub open spec fn index(self) -> int {
        match self {
            CastleRights::NoRights => 0,
            CastleRights::KingSide => 1,
            CastleRights::QueenSide => 2,
            CastleRights::Both => 3,
        }
    }

    pub open spec fn kingside(self) -> bool {
        self == CastleRights::KingSide || self == CastleRights::Both
    }

    pub open spec fn queenside(self) -> bool {
        self == CastleRights::QueenSide || self == CastleRights::Both
    }

    pub open spec fn union(self, other: CastleRights) -> CastleRights {
        castle_rights_at(
            (if self.kingside() || other.kingside() { 1int } else { 0 }) + (if self.queenside()
                || other.queenside() { 2int } else { 0 }),
        )
    }

    pub open spec fn minus(self, other: CastleRights) -> CastleRights {
        castle_rights_at(
            (if self.kingside() && !other.kingside() { 1int } else { 0 }) + (if self.queenside()
                && !other.queenside() { 2int } else { 0 }),
        )
    }

    /// Can I castle kingside?
    pub fn has_kingside(self) -> (r: bool)
        ensures
            r == self.kingside(),
    {
        match self {
            CastleRights::KingSide | CastleRights::Both => true,
            _ => false,
        }
    }

    /// Can I castle queenside?
    pub fn has_queenside(self) -> (r: bool)
        ensures
            r == self.queenside(),
    {
        match self {
            CastleRights::QueenSide | CastleRights::Both => true,
            _ => false,
        }
    }

    /// The rights lost when a piece of `color` leaves or enters `square`.
    pub fn square_to_castle_rights(color: Color, square: Square) -> (r: CastleRights)
        ensures
            r == square_castle_rights(color, square.index()),
    {
        let base: usize = match color {
            Color::White => 0,
            Color::Black => 56,
        };
        let i = square.to_index();
        if i == base {
            CastleRights::QueenSide
        } else if i == base + 4 {
            CastleRights::Both
        } else if i == base + 7 {
            CastleRights::KingSide
        } else {
            CastleRights::NoRights
        }
    }

    /// What squares need to be empty to castle kingside (f and g on the back rank)?
    pub fn kingside_squares(self, color: Color) -> (r: BitBoard)
        ensures
            forall|i: int| #[trigger] r.has(i) == (i == if color == Color::White { 5int } else {
                61int
            } || i == if color == Color::White { 6int } else { 62int }),
    {
        match color {
            Color::White => BitBoard((1u64 << 5u64) | (1u64 << 6u64)),
            Color::Black => BitBoard((1u64 << 61u64) | (1u64 << 62u64)),
        }
    }

    /// What squares need to be empty to castle queenside (b, c and d on the back rank)?
    pub fn queenside_squares(self, color: Color) -> (r: BitBoard)
        ensures
            forall|i: int| #[trigger] r.has(i) == (i == if color == Color::White { 1int } else {
                57int
            } || i == if color == Color::White { 2int } else { 58int } || i == if color
                == Color::White { 3int } else { 59int }),
    {
        match color {
            Color::White => BitBoard((1u64 << 1u64) | (1u64 << 2u64) | (1u64 << 3u64)),
            Color::Black => BitBoard((1u64 << 57u64) | (1u64 << 58u64) | (1u64 << 59u64)),
        }
    }

    /// Remove the rights `remove` from `self`.
    pub fn remove(self, remove: CastleRights) -> (r: CastleRights)
        ensures
            r == self.minus(remove),
    {
        CastleRights::from_flags(
            self.has_kingside() && !remove.has_kingside(),
            self.has_queenside() && !remove.has_queenside(),
        )
    }

    /// Add the rights `add` to `self`.
    pub fn add(self, add: CastleRights) -> (r: CastleRights)
        ensures
            r == self.union(add),
    {
        CastleRights::from_flags(
            self.has_kingside() || add.has_kingside(),
            self.has_queenside() || add.has_queenside(),
        )
    }

    /// The rights holding king side exactly when `kingside` and queen side exactly when
    /// `queenside`.
    pub fn from_flags(kingside: bool, queenside: bool) -> (r: CastleRights)
        ensures
            r == castle_rights_at((if kingside { 1int } else { 0 }) + (if queenside { 2int } else { 0 })),
            r.kingside() == kingside,
            r.queenside() == queenside,
    {
        if kingside {
            if queenside {
                CastleRights::Both
            } else {
                CastleRights::KingSide
            }
        } else if queenside {
            CastleRights::QueenSide
        } else {
            CastleRights::NoRights
        }
    }

    pub fn to_int(self) -> (r: u8)
        ensures
            r == self.index(),
    {
        self as u8
    }

    pub fn to_index(self) -> (r: usize)
        ensures
            r == self.index(),
    {
        self as usize
    }

    /// The rights of index `i`.
    pub fn from_index(i: usize) -> (r: CastleRights)
        requires
            i < 4,
        ensures
            r == castle_rights_at(i as int),
            r.index() == i,
    {
        match i {
            0 => CastleRights::NoRights,
            1 => CastleRights::KingSide,
            2 => CastleRights::QueenSide,
            _ => CastleRights::Both,
        }
    }

    /// Which rooks can we "guarantee" we haven't moved yet?
    pub fn unmoved_rooks(self, color: Color) -> (r: BitBoard)
        ensures
            forall|i: int| #[trigger] r.has(i) == ((self.kingside() && i == if color
                == Color::White { 7int } else { 63int }) || (self.queenside() && i == if color
                == Color::White { 0int } else { 56int })),
    {
        let backrank = color.to_my_backrank();
        match self {
            CastleRights::NoRights => BitBoard(0),
            CastleRights::KingSide => BitBoard::from_rank_and_file(backrank, File::H),
            CastleRights::QueenSide => BitBoard::from_rank_and_file(backrank, File::A),
            CastleRights::Both => BitBoard::from_rank_and_file(backrank, File::A).xor(
                BitBoard::from_rank_and_file(backrank, File::H),
            ),
        }
    }

    /// The FEN letters of these rights, upper case for White.
    pub fn to_chars(self, color: Color) -> (r: Vec<char>)
        ensures
            r@ == castle_rights_chars(self, color),
    {
        let mut v: Vec<char> = Vec::new();
        let white = match color {
            Color::White => true,
            Color::Black => false,
        };
        if self.has_kingside() {
            v.push(if white { 'K' } else { 'k' });
        }
        if self.has_queenside() {
            v.push(if white { 'Q' } else { 'q' });
        }
        v
    }

    /// The FEN letters of these rights, upper case for White.
    pub fn to_string(self, color: Color) -> (r: String)
        ensures
            r@ == castle_rights_chars(self, color),
    {
        chars_to_string(&self.to_chars(color))
    }
}

} // verus!
