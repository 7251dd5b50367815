//! Sets of squares packed into 64-bit masks.
use vstd::prelude::*;
use crate::bits::{bit, count_bits, group_bit_facts, lemma_count_bits_bound, popcount};
use crate::types::{group_square_facts, square_at, File, Rank, Square};

verus! {

broadcast use group_bit_facts, group_square_facts;

/// A set of squares: bit `i` is set when the square of index `i` belongs to the set.
#[derive(PartialEq, Eq, Clone, Copy, Debug, Hash, Structural)]
pub struct BitBoard(pub u64);

/// Mask of the light squares (b1, d1, ..., a2, ...).
pub const LIGHT_SQUARES_MASK: u64 = 0x55aa_55aa_55aa_55aa;

/// Mask of the dark squares (a1, c1, ..., b2, ...).
pub const DARK_SQUARES_MASK: u64 = 0xaa55_aa55_aa55_aa55;

impl BitBoard {
    /// Does the set hold the square of index `i`?
    pub open spec fn has(self, i: int) -> bool {
        bit(self.0, i)
    }

    pub open spec fn count(self) -> nat {
        popcount(self.0)
    }

    pub fn new(mask: u64) -> (r: BitBoard)
        ensures
            r.0 == mask,
    {
        BitBoard(mask)
    }

    pub fn into_inner(self) -> (r: u64)
        ensures
            r == self.0,
    {
        self.0
    }

    pub fn get_mask(&self) -> (r: u64)
        ensures
            r == self.0,
    {
        self.0
    }

    pub fn is_empty(&self) -> (r: bool)
        ensures
            r == (self.0 == 0),
            r == (forall|i: int| !#[trigger] self.has(i)),
    {
        proof {
            crate::bits::lemma_zero_iff_no_bits(self.0);
            if self.0 == 0 {
                assert forall|i: int| !#[trigger] self.has(i) by {
                    assert(!bit(self.0, i));
                }
            } else {
                let i = choose|i: int| bit(self.0, i);
                assert(self.has(i));
            }
        }
        self.0 == 0
    }

    pub fn is_not_empty(&self) -> (r: bool)
        ensures
            r == (self.0 != 0),
            r == (exists|i: int| #[trigger] self.has(i)),
    {
        !self.is_empty()
    }

    /// The set holding exactly `square`.
    pub fn from_square(square: Square) -> (r: BitBoard)
        ensures
            r.0 == 1u64 << (square.index() as u64),
            forall|i: int| #[trigger] r.has(i) == (i == square.index()),
    {
        BitBoard(1u64 << square.to_int())
    }

    /// The set holding exactly the square on `rank` and `file`.
    pub fn from_rank_and_file(rank: Rank, file: File) -> (r: BitBoard)
        ensures
            forall|i: int| #[trigger] r.has(i) == (i == 8 * rank.index() + file.index()),
    {
        BitBoard::from_square(Square::from_rank_and_file(rank, file))
    }

    pub fn contains(&self, square: Square) -> (r: bool)
        ensures
            r == self.has(square.index()),
    {
        (self.0 >> square.to_int() as u64) & 1 == 1
    }

    pub fn and(self, other: BitBoard) -> (r: BitBoard)
        ensures
            r.0 == self.0 & other.0,
            forall|i: int| #[trigger] r.has(i) == (self.has(i) && other.has(i)),
    {
        BitBoard(self.0 & other.0)
    }

    pub fn or(self, other: BitBoard) -> (r: BitBoard)
        ensures
            r.0 == self.0 | other.0,
            forall|i: int| #[trigger] r.has(i) == (self.has(i) || other.has(i)),
    {
        BitBoard(self.0 | other.0)
    }

    pub fn xor(self, other: BitBoard) -> (r: BitBoard)
        ensures
            r.0 == self.0 ^ other.0,
            forall|i: int| #[trigger] r.has(i) == (self.has(i) != other.has(i)),
    {
        BitBoard(self.0 ^ other.0)
    }

    /// The complement within the 64 squares.
    pub fn not(self) -> (r: BitBoard)
        ensures
            r.0 == !self.0,
            forall|i: int| #[trigger] r.has(i) == (0 <= i < 64 && !self.has(i)),
    {
        BitBoard(!self.0)
    }

    /// The squares of `self` that are not in `other`.
    pub fn and_not(self, other: BitBoard) -> (r: BitBoard)
        ensures
            r.0 == self.0 & !other.0,
            forall|i: int| #[trigger] r.has(i) == (self.has(i) && !other.has(i)),
    {
        BitBoard(self.0 & !other.0)
    }

    /// Number of squares in the set.
    pub fn popcnt(&self) -> (r: u32)
        ensures
            r == self.count(),
            r <= 64,
    {
        let mut n: u32 = 0;
        let mut i: u64 = 0;
        while i < 64
            invariant
                i <= 64,
                n == count_bits(self.0, i as int),
                n <= i,
            decreases 64 - i,
        {
            proof {
                lemma_count_bits_bound(self.0, i as int);
            }
            if (self.0 >> i) & 1 == 1 {
                n = n + 1;
            }
            i = i + 1;
        }
        n
    }

    /// The lowest square of the set, if any.
    pub fn to_square(&self) -> (r: Option<Square>)
        ensures
            self.0 == 0 <==> r is None,
            r matches Some(s) ==> self.has(s.index()) && forall|j: int|
                0 <= j < s.index() ==> !#[trigger] self.has(j),
    {
        if self.0 == 0 {
            proof {
                crate::bits::lemma_zero_iff_no_bits(self.0);
            }
            None
        } else {
            Some(self.to_square_unchecked())
        }
    }

    /// The lowest square of a non-empty set.
    pub fn to_square_unchecked(&self) -> (r: Square)
        requires
            self.0 != 0,
        ensures
            self.has(r.index()),
            forall|j: int| 0 <= j < r.index() ==> !#[trigger] self.has(j),
    {
        proof {
            vstd::std_specs::bits::axiom_u64_trailing_zeros(self.0);
        }
        let t = self.0.trailing_zeros();
        let r = Square::from_index(t as usize);
        proof {
            assert forall|j: int| 0 <= j < r.index() implies !#[trigger] self.has(j) by {
                assert((self.0 >> (j as u64)) & 1u64 == 0u64);
            }
        }
        r
    }

    /// The squares of the set in increasing order.
    pub fn squares(&self) -> (r: Vec<Square>)
        ensures
            forall|k: int| 0 <= k < r.len() ==> self.has(#[trigger] r@[k].index()),
            forall|k: int, l: int| 0 <= k < l < r.len() ==> r@[k].index() < r@[l].index(),
            forall|i: int| #[trigger] self.has(i) ==> exists|k: int| 0 <= k < r.len() && r@[k].index() == i,
    {
        let mut r: Vec<Square> = Vec::new();
        let mut i: usize = 0;
        while i < 64
            invariant
                i <= 64,
                forall|k: int| 0 <= k < r.len() ==> self.has(#[trigger] r@[k].index()) && r@[k].index() < i,
                forall|k: int, l: int| 0 <= k < l < r.len() ==> r@[k].index() < r@[l].index(),
                forall|j: int| 0 <= j < i && #[trigger] self.has(j) ==> exists|k: int| 0 <= k < r.len() && r@[k].index() == j,
            decreases 64 - i,
        {
            let ghost old_r = r@;
            if (self.0 >> i as u64) & 1 == 1 {
                let s = Square::from_index(i);
                r.push(s);
                proof {
                    assert(r@[r.len() - 1].index() == i);
                }
            }
            proof {
                assert forall|j: int| 0 <= j < i + 1 && #[trigger] self.has(j) implies exists|k: int|
                    0 <= k < r.len() && r@[k].index() == j by {
                    if j < i {
                        let k = choose|k: int| 0 <= k < old_r.len() && old_r[k].index() == j;
                        assert(r@[k] == old_r[k]);
                    } else {
                        assert(r@[r.len() - 1].index() == j);
                    }
                }
            }
            i = i + 1;
        }
        r
    }

    /// The set with every square's rank mirrored (a1 <-> a8).
    pub fn flip_vertical(self) -> (r: BitBoard)
        ensures
            forall|i: int| 0 <= i < 64 ==> #[trigger] r.has(i) == self.has(8 * (7 - i / 8) + i % 8),
    {
        self.mirror(true)
    }

    /// The set with every square's file mirrored (a1 <-> h1).
    pub fn flip_horizontal(self) -> (r: BitBoard)
        ensures
            forall|i: int| 0 <= i < 64 ==> #[trigger] r.has(i) == self.has(8 * (i / 8) + 7 - i % 8),
    {
        self.mirror(false)
    }

    fn mirror(self, ranks: bool) -> (r: BitBoard)
        ensures
            forall|i: int| 0 <= i < 64 ==> #[trigger] r.has(i) == self.has(
                if ranks { 8 * (7 - i / 8) + i % 8 } else { 8 * (i / 8) + 7 - i % 8 },
            ),
    {
        let mut m: u64 = 0;
        let mut i: u64 = 0;
        while i < 64
            invariant
                i <= 64,
                forall|j: int| #[trigger] bit(m, j) == (0 <= j < i && bit(self.0,
                    if ranks { 8 * (7 - j / 8) + j % 8 } else { 8 * (j / 8) + 7 - j % 8 })),
            decreases 64 - i,
        {
            let src: u64 = if ranks { 8 * (7 - i / 8) + i % 8 } else { 8 * (i / 8) + 7 - i % 8 };
            if (self.0 >> src) & 1 == 1 {
                m = m | (1u64 << i);
            }
            i = i + 1;
        }
        BitBoard(m)
    }
}

impl Square {
    /// The set holding exactly this square.
    pub fn to_bitboard(self) -> (r: BitBoard)
        ensures
            r.0 == 1u64 << (self.index() as u64),
            forall|i: int| #[trigger] r.has(i) == (i == self.index()),
    {
        BitBoard::from_square(self)
    }
}

impl File {
    /// All squares of this file.
    pub fn to_bitboard(self) -> (r: BitBoard)
        ensures
            forall|i: int| #[trigger] r.has(i) == (0 <= i < 64 && i % 8 == self.index()),
    {
        file_mask(self.to_index() as u64)
    }

    /// All squares of the files next to this one.
    pub fn get_adjacent_files_bb(self) -> (r: BitBoard)
        ensures
            forall|i: int| #[trigger] r.has(i) == (0 <= i < 64 && (i % 8 == self.index() - 1 || i
                % 8 == self.index() + 1)),
    {
        let f = self.to_index() as u64;
        let mut r = BitBoard(0);
        if f > 0 {
            r = r.or(file_mask(f - 1));
        }
        if f < 7 {
            r = r.or(file_mask(f + 1));
        }
        r
    }
}

impl Rank {
    /// All squares of this rank.
    pub fn to_bitboard(self) -> (r: BitBoard)
        ensures
            forall|i: int| #[trigger] r.has(i) == (0 <= i < 64 && i / 8 == self.index()),
    {
        rank_mask(self.to_index() as u64)
    }

    /// The squares strictly beyond this rank, seen from `color`'s side.
    pub fn get_upper_board_mask(self, color: crate::types::Color) -> (r: BitBoard)
        ensures
            forall|i: int| #[trigger] r.has(i) == (0 <= i < 64 && if color == crate::types::Color::White {
                i / 8 > self.index()
            } else {
                i / 8 < self.index()
            }),
    {
        let rank = self.to_index() as u64;
        let mut m: u64 = 0;
        let mut i: u64 = 0;
        while i < 64
            invariant
                i <= 64,
                rank == self.index(),
                forall|j: int| #[trigger] bit(m, j) == (0 <= j < i && if color == crate::types::Color::White {
                    j / 8 > rank
                } else {
                    j / 8 < rank
                }),
            decreases 64 - i,
        {
            let above = match color {
                crate::types::Color::White => i / 8 > rank,
                crate::types::Color::Black => i / 8 < rank,
            };
            if above {
                m = m | (1u64 << i);
            }
            i = i + 1;
        }
        BitBoard(m)
    }
}

/// The squares of file `f`.
pub fn file_mask(f: u64) -> (r: BitBoard)
    requires
        f < 8,
    ensures
        forall|i: int| #[trigger] r.has(i) == (0 <= i < 64 && i % 8 == f),
{
    let mut m: u64 = 0;
    let mut i: u64 = 0;
    while i < 64
        invariant
            i <= 64,
            forall|j: int| #[trigger] bit(m, j) == (0 <= j < i && j % 8 == f),
        decreases 64 - i,
    {
        if i % 8 == f {
            m = m | (1u64 << i);
        }
        i = i + 1;
    }
    BitBoard(m)
}

/// The squares of rank `k`.
pub fn rank_mask(k: u64) -> (r: BitBoard)
    requires
        k < 8,
    ensures
        forall|i: int| #[trigger] r.has(i) == (0 <= i < 64 && i / 8 == k),
{
    let mut m: u64 = 0;
    let mut i: u64 = 0;
    while i < 64
        invariant
            i <= 64,
            forall|j: int| #[trigger] bit(m, j) == (0 <= j < i && j / 8 == k),
        decreases 64 - i,
    {
        if i / 8 == k {
            m = m | (1u64 << i);
        }
        i = i + 1;
    }
    BitBoard(m)
}

} // verus!
