//! Colors, files, ranks and squares of the board.
use vstd::prelude::*;

verus! {

/// The two sides.
#[derive(PartialEq, Eq, Clone, Copy, Debug, Hash, PartialOrd, Ord, Structural)]
pub enum Color {
    White,
    Black,
}

impl Color {
    pub open spec fn index(self) -> int {
        match self {
            Color::White => 0,
            Color::Black => 1,
        }
    }

    pub open spec fn other(self) -> Color {
        match self {
            Color::White => Color::Black,
            Color::Black => Color::White,
        }
    }

    /// Index used for table lookups: 0 for White, 1 for Black.
    pub fn to_index(self) -> (r: usize)
        ensures
            r == self.index(),
    {
        self as usize
    }

    /// The opposite color.
    pub fn flip(self) -> (r: Color)
        ensures
            r == self.other(),
    {
        match self {
            Color::White => Color::Black,
            Color::Black => Color::White,
        }
    }

    /// The rank on which this side's pieces start.
    pub fn to_my_backrank(self) -> (r: Rank)
        ensures
            r.index() == if self == Color::White { 0int } else { 7int },
    {
        match self {
            Color::White => Rank::First,
            Color::Black => Rank::Eighth,
        }
    }

    /// The rank on which the opponent's pieces start.
    pub fn to_their_backrank(self) -> (r: Rank)
        ensures
            r.index() == if self == Color::White { 7int } else { 0int },
    {
        match self {
            Color::White => Rank::Eighth,
            Color::Black => Rank::First,
        }
    }

    /// The rank on which this side's pawns start.
    pub fn to_second_rank(self) -> (r: Rank)
        ensures
            r.index() == if self == Color::White { 1int } else { 6int },
    {
        match self {
            Color::White => Rank::Second,
            Color::Black => Rank::Seventh,
        }
    }

    /// The rank a pawn of this side crosses when it advances two squares.
    pub fn to_third_rank(self) -> (r: Rank)
        ensures
            r.index() == if self == Color::White { 2int } else { 5int },
    {
        match self {
            Color::White => Rank::Third,
            Color::Black => Rank::Sixth,
        }
    }

    /// The rank a pawn of this side reaches when it advances two squares.
    pub fn to_fourth_rank(self) -> (r: Rank)
        ensures
            r.index() == if self == Color::White { 3int } else { 4int },
    {
        match self {
            Color::White => Rank::Fourth,
            Color::Black => Rank::Fifth,
        }
    }

    /// The rank from which a pawn of this side promotes.
    pub fn to_seventh_rank(self) -> (r: Rank)
        ensures
            r.index() == if self == Color::White { 6int } else { 1int },
    {
        match self {
            Color::White => Rank::Seventh,
            Color::Black => Rank::Second,
        }
    }
}

pub const NUM_COLORS: usize = 2;
/// The files `a` to `h`, left to right from White's side.
#[derive(PartialEq, Eq, PartialOrd, Ord, Clone, Copy, Debug, Hash, Structural)]
pub enum File {
    A,
    B,
    C,
    D,
    E,
    F,
    G,
    H,
}

impl File {
    pub open spec fn index(self) -> int {
        match self {
            File::A => 0,
            File::B => 1,
            File::C => 2,
            File::D => 3,
            File::E => 4,
            File::F => 5,
            File::G => 6,
            File::H => 7,
        }
    }

    /// The file whose index is `i` modulo 8.
    pub fn from_index(i: usize) -> (r: File)
        ensures
            r.index() == i % 8,
    {
        match i % 8 {
            0 => File::A,
            1 => File::B,
            2 => File::C,
            3 => File::D,
            4 => File::E,
            5 => File::F,
            6 => File::G,
            _ => File::H,
        }
    }

    pub fn to_index(self) -> (r: usize)
        ensures
            r == self.index(),
    {
        self as usize
    }

    pub fn to_int(self) -> (r: u8)
        ensures
            r == self.index(),
    {
        self as u8
    }

    /// The file to the left, wrapping from `a` to `h`.
    pub fn left(self) -> (r: File)
        ensures
            r.index() == (self.index() + 7) % 8,
    {
        File::from_index(self.to_index() + 7)
    }

    /// The file to the right, wrapping from `h` to `a`.
    pub fn right(self) -> (r: File)
        ensures
            r.index() == (self.index() + 1) % 8,
    {
        File::from_index(self.to_index() + 1)
    }

    pub fn wrapping_left(self) -> (r: File)
        ensures
            r.index() == (self.index() + 7) % 8,
    {
        self.left()
    }

    pub fn wrapping_right(self) -> (r: File)
        ensures
            r.index() == (self.index() + 1) % 8,
    {
        self.right()
    }
}

pub const NUM_FILES: usize = 8;

/// The ranks `1` to `8`, bottom to top from White's side.
#[derive(PartialEq, Eq, PartialOrd, Ord, Clone, Copy, Debug, Hash, Structural)]
pub enum Rank {
    First,
    Second,
    Third,
    Fourth,
    Fifth,
    Sixth,
    Seventh,
    Eighth,
}

impl Rank {
    pub open spec fn index(self) -> int {
        match self {
            Rank::First => 0,
            Rank::Second => 1,
            Rank::Third => 2,
            Rank::Fourth => 3,
            Rank::Fifth => 4,
            Rank::Sixth => 5,
            Rank::Seventh => 6,
            Rank::Eighth => 7,
        }
    }

    /// The rank whose index is `i` modulo 8.
    pub fn from_index(i: usize) -> (r: Rank)
        ensures
            r.index() == i % 8,
    {
        match i % 8 {
            0 => Rank::First,
            1 => Rank::Second,
            2 => Rank::Third,
            3 => Rank::Fourth,
            4 => Rank::Fifth,
            5 => Rank::Sixth,
            6 => Rank::Seventh,
            _ => Rank::Eighth,
        }
    }

    pub fn to_index(self) -> (r: usize)
        ensures
            r == self.index(),
    {
        self as usize
    }

    pub fn to_int(self) -> (r: u8)
        ensures
            r == self.index(),
    {
        self as u8
    }

    /// The rank above, wrapping from 8 to 1.
    pub fn up(self) -> (r: Rank)
        ensures
            r.index() == (self.index() + 1) % 8,
    {
        Rank::from_index(self.to_index() + 1)
    }

    /// The rank below, wrapping from 1 to 8.
    pub fn down(self) -> (r: Rank)
        ensures
            r.index() == (self.index() + 7) % 8,
    {
        Rank::from_index(self.to_index() + 7)
    }

    pub fn wrapping_up(self) -> (r: Rank)
        ensures
            r.index() == (self.index() + 1) % 8,
    {
        self.up()
    }

    pub fn wrapping_down(self) -> (r: Rank)
        ensures
            r.index() == (self.index() + 7) % 8,
    {
        self.down()
    }
}

pub const NUM_RANKS: usize = 8;

/// The 64 squares, numbered `8 * rank + file` from a1.
#[derive(PartialEq, Eq, Clone, Copy, Debug, Hash, Structural)]
pub enum Square {
    A1, B1, C1, D1, E1, F1, G1, H1,
    A2, B2, C2, D2, E2, F2, G2, H2,
    A3, B3, C3, D3, E3, F3, G3, H3,
    A4, B4, C4, D4, E4, F4, G4, H4,
    A5, B5, C5, D5, E5, F5, G5, H5,
    A6, B6, C6, D6, E6, F6, G6, H6,
    A7, B7, C7, D7, E7, F7, G7, H7,
    A8, B8, C8, D8, E8, F8, G8, H8,
}

pub const NUM_SQUARES: usize = 64;

/// The square with index `i`; meaningful for `0 <= i < 64`.
pub open spec fn square_at(i: int) -> Square {
    if i <= 0 { Square::A1 }
    else if i == 1 { Square::B1 }
    else if i == 2 { Square::C1 }
    else if i == 3 { Square::D1 }
    else if i == 4 { Square::E1 }
    else if i == 5 { Square::F1 }
    else if i == 6 { Square::G1 }
    else if i == 7 { Square::H1 }
    else if i == 8 { Square::A2 }
    else if i == 9 { Square::B2 }
    else if i == 10 { Square::C2 }
    else if i == 11 { Square::D2 }
    else if i == 12 { Square::E2 }
    else if i == 13 { Square::F2 }
    else if i == 14 { Square::G2 }
    else if i == 15 { Square::H2 }
    else if i == 16 { Square::A3 }
    else if i == 17 { Square::B3 }
    else if i == 18 { Square::C3 }
    else if i == 19 { Square::D3 }
    else if i == 20 { Square::E3 }
    else if i == 21 { Square::F3 }
    else if i == 22 { Square::G3 }
    else if i == 23 { Square::H3 }
    else if i == 24 { Square::A4 }
    else if i == 25 { Square::B4 }
    else if i == 26 { Square::C4 }
    else if i == 27 { Square::D4 }
    else if i == 28 { Square::E4 }
    else if i == 29 { Square::F4 }
    else if i == 30 { Square::G4 }
    else if i == 31 { Square::H4 }
    else if i == 32 { Square::A5 }
    else if i == 33 { Square::B5 }
    else if i == 34 { Square::C5 }
    else if i == 35 { Square::D5 }
    else if i == 36 { Square::E5 }
    else if i == 37 { Square::F5 }
    else if i == 38 { Square::G5 }
    else if i == 39 { Square::H5 }
    else if i == 40 { Square::A6 }
    else if i == 41 { Square::B6 }
    else if i == 42 { Square::C6 }
    else if i == 43 { Square::D6 }
    else if i == 44 { Square::E6 }
    else if i == 45 { Square::F6 }
    else if i == 46 { Square::G6 }
    else if i == 47 { Square::H6 }
    else if i == 48 { Square::A7 }
    else if i == 49 { Square::B7 }
    else if i == 50 { Square::C7 }
    else if i == 51 { Square::D7 }
    else if i == 52 { Square::E7 }
    else if i == 53 { Square::F7 }
    else if i == 54 { Square::G7 }
    else if i == 55 { Square::H7 }
    else if i == 56 { Square::A8 }
    else if i == 57 { Square::B8 }
    else if i == 58 { Square::C8 }
    else if i == 59 { Square::D8 }
    else if i == 60 { Square::E8 }
    else if i == 61 { Square::F8 }
    else if i == 62 { Square::G8 }
    else { Square::H8 }
}

impl Square {
    pub open spec fn index(self) -> int {
        match self {
            Square::A1 => 0,
            Square::B1 => 1,
            Square::C1 => 2,
            Square::D1 => 3,
            Square::E1 => 4,
            Square::F1 => 5,
            Square::G1 => 6,
            Square::H1 => 7,
            Square::A2 => 8,
            Square::B2 => 9,
            Square::C2 => 10,
            Square::D2 => 11,
            Square::E2 => 12,
            Square::F2 => 13,
            Square::G2 => 14,
            Square::H2 => 15,
            Square::A3 => 16,
            Square::B3 => 17,
            Square::C3 => 18,
            Square::D3 => 19,
            Square::E3 => 20,
            Square::F3 => 21,
            Square::G3 => 22,
            Square::H3 => 23,
            Square::A4 => 24,
            Square::B4 => 25,
            Square::C4 => 26,
            Square::D4 => 27,
            Square::E4 => 28,
            Square::F4 => 29,
            Square::G4 => 30,
            Square::H4 => 31,
            Square::A5 => 32,
            Square::B5 => 33,
            Square::C5 => 34,
            Square::D5 => 35,
            Square::E5 => 36,
            Square::F5 => 37,
            Square::G5 => 38,
            Square::H5 => 39,
            Square::A6 => 40,
            Square::B6 => 41,
            Square::C6 => 42,
            Square::D6 => 43,
            Square::E6 => 44,
            Square::F6 => 45,
            Square::G6 => 46,
            Square::H6 => 47,
            Square::A7 => 48,
            Square::B7 => 49,
            Square::C7 => 50,
            Square::D7 => 51,
            Square::E7 => 52,
            Square::F7 => 53,
            Square::G7 => 54,
            Square::H7 => 55,
            Square::A8 => 56,
            Square::B8 => 57,
            Square::C8 => 58,
            Square::D8 => 59,
            Square::E8 => 60,
            Square::F8 => 61,
            Square::G8 => 62,
            Square::H8 => 63,
        }
    }

    pub open spec fn rank(self) -> int {
        self.index() / 8
    }

    pub open spec fn file(self) -> int {
        self.index() % 8
    }

    pub broadcast proof fn lemma_index_range(self)
        ensures
            0 <= #[trigger] self.index() < 64,
    {
    }

    pub broadcast proof fn lemma_square_at_index(self)
        ensures
            #[trigger] square_at(self.index()) == self,
    {
    }

    /// The square with index `i`.
    pub fn from_index(i: usize) -> (r: Square)
        requires
            i < 64,
        ensures
            r.index() == i,
            r == square_at(i as int),
    {
        match i {
            0 => Square::A1,
            1 => Square::B1,
            2 => Square::C1,
            3 => Square::D1,
            4 => Square::E1,
            5 => Square::F1,
            6 => Square::G1,
            7 => Square::H1,
            8 => Square::A2,
            9 => Square::B2,
            10 => Square::C2,
            11 => Square::D2,
            12 => Square::E2,
            13 => Square::F2,
            14 => Square::G2,
            15 => Square::H2,
            16 => Square::A3,
            17 => Square::B3,
            18 => Square::C3,
            19 => Square::D3,
            20 => Square::E3,
            21 => Square::F3,
            22 => Square::G3,
            23 => Square::H3,
            24 => Square::A4,
            25 => Square::B4,
            26 => Square::C4,
            27 => Square::D4,
            28 => Square::E4,
            29 => Square::F4,
            30 => Square::G4,
            31 => Square::H4,
            32 => Square::A5,
            33 => Square::B5,
            34 => Square::C5,
            35 => Square::D5,
            36 => Square::E5,
            37 => Square::F5,
            38 => Square::G5,
            39 => Square::H5,
            40 => Square::A6,
            41 => Square::B6,
            42 => Square::C6,
            43 => Square::D6,
            44 => Square::E6,
            45 => Square::F6,
            46 => Square::G6,
            47 => Square::H6,
            48 => Square::A7,
            49 => Square::B7,
            50 => Square::C7,
            51 => Square::D7,
            52 => Square::E7,
            53 => Square::F7,
            54 => Square::G7,
            55 => Square::H7,
            56 => Square::A8,
            57 => Square::B8,
            58 => Square::C8,
            59 => Square::D8,
            60 => Square::E8,
            61 => Square::F8,
            62 => Square::G8,
            _ => Square::H8,
        }
    }

    pub fn to_int(self) -> (r: u8)
        ensures
            r == self.index(),
    {
        self as u8
    }

    pub fn to_index(self) -> (r: usize)
        ensures
            r == self.index(),
    {
        self as usize
    }
}

pub proof fn lemma_square_at_range(i: int)
    requires
        0 <= i < 64,
    ensures
        square_at(i).index() == i,
{
}

pub broadcast group group_square_facts {
    Square::lemma_index_range,
    Square::lemma_square_at_index,
}

/// Both colors, white first.
pub fn all_colors() -> (r: Vec<Color>)
    ensures
        r@ == seq![Color::White, Color::Black],
{
    let mut v = Vec::new();
    v.push(Color::White);
    v.push(Color::Black);
    proof {
        assert(v@ =~= seq![Color::White, Color::Black]);
    }
    v
}

} // verus!
