//! Geometry of single squares: coordinates, neighbours and mirrors.
use vstd::prelude::*;
use crate::types::{group_square_facts, square_at, Color, File, Rank, Square};

verus! {

broadcast use group_square_facts;

impl Square {
    /// The square on `rank` and `file`.
    pub fn from_rank_and_file(rank: Rank, file: File) -> (r: Square)
        ensures
            r.index() == 8 * rank.index() + file.index(),
            r.rank() == rank.index(),
            r.file() == file.index(),
    {
        Square::from_index(8 * rank.to_index() + file.to_index())
    }

    pub fn get_rank(&self) -> (r: Rank)
        ensures
            r.index() == self.rank(),
    {
        Rank::from_index(self.to_index() / 8)
    }

    pub fn get_file(&self) -> (r: File)
        ensures
            r.index() == self.file(),
    {
        File::from_index(self.to_index() % 8)
    }

    /// The square above, if any.
    pub fn up(&self) -> (r: Option<Square>)
        ensures
            self.rank() == 7 ==> r is None,
            self.rank() < 7 ==> r == Some(square_at(self.index() + 8)),
    {
        if self.to_index() >= 56 {
            None
        } else {
            Some(Square::from_index(self.to_index() + 8))
        }
    }

    /// The square below, if any.
    pub fn down(&self) -> (r: Option<Square>)
        ensures
            self.rank() == 0 ==> r is None,
            self.rank() > 0 ==> r == Some(square_at(self.index() - 8)),
    {
        if self.to_index() < 8 {
            None
        } else {
            Some(Square::from_index(self.to_index() - 8))
        }
    }

    /// The square to the left, if any.
    pub fn left(&self) -> (r: Option<Square>)
        ensures
            self.file() == 0 ==> r is None,
            self.file() > 0 ==> r == Some(square_at(self.index() - 1)),
    {
        if self.to_index() % 8 == 0 {
            None
        } else {
            Some(Square::from_index(self.to_index() - 1))
        }
    }

    /// The square to the right, if any.
    pub fn right(&self) -> (r: Option<Square>)
        ensures
            self.file() == 7 ==> r is None,
            self.file() < 7 ==> r == Some(square_at(self.index() + 1)),
    {
        if self.to_index() % 8 == 7 {
            None
        } else {
            Some(Square::from_index(self.to_index() + 1))
        }
    }

    /// The square one step towards the opponent of `color`, if any.
    pub fn forward(&self, color: Color) -> (r: Option<Square>)
        ensures
            color == Color::White ==> (self.rank() == 7 ==> r is None) && (self.rank() < 7 ==> r
                == Some(square_at(self.index() + 8))),
            color == Color::Black ==> (self.rank() == 0 ==> r is None) && (self.rank() > 0 ==> r
                == Some(square_at(self.index() - 8))),
    {
        match color {
            Color::White => self.up(),
            Color::Black => self.down(),
        }
    }

    /// The square one step towards `color`'s own side, if any.
    pub fn backward(&self, color: Color) -> (r: Option<Square>)
        ensures
            color == Color::Black ==> (self.rank() == 7 ==> r is None) && (self.rank() < 7 ==> r
                == Some(square_at(self.index() + 8))),
            color == Color::White ==> (self.rank() == 0 ==> r is None) && (self.rank() > 0 ==> r
                == Some(square_at(self.index() - 8))),
    {
        match color {
            Color::White => self.down(),
            Color::Black => self.up(),
        }
    }

    /// The square above on the same file, wrapping from rank 8 to rank 1.
    pub fn wrapping_up(&self) -> (r: Square)
        ensures
            r.file() == self.file(),
            r.rank() == (self.rank() + 1) % 8,
    {
        Square::from_rank_and_file(self.get_rank().up(), self.get_file())
    }

    /// The square below on the same file, wrapping from rank 1 to rank 8.
    pub fn wrapping_down(&self) -> (r: Square)
        ensures
            r.file() == self.file(),
            r.rank() == (self.rank() + 7) % 8,
    {
        Square::from_rank_and_file(self.get_rank().down(), self.get_file())
    }

    /// The square to the left on the same rank, wrapping from file a to file h.
    pub fn wrapping_left(&self) -> (r: Square)
        ensures
            r.rank() == self.rank(),
            r.file() == (self.file() + 7) % 8,
    {
        Square::from_rank_and_file(self.get_rank(), self.get_file().left())
    }

    /// The square to the right on the same rank, wrapping from file h to file a.
    pub fn wrapping_right(&self) -> (r: Square)
        ensures
            r.rank() == self.rank(),
            r.file() == (self.file() + 1) % 8,
    {
        Square::from_rank_and_file(self.get_rank(), self.get_file().right())
    }

    /// `wrapping_up` for White, `wrapping_down` for Black.
    pub fn wrapping_forward(&self, color: Color) -> (r: Square)
        ensures
            r.file() == self.file(),
            r.rank() == if color == Color::White {
                (self.rank() + 1) % 8
            } else {
                (self.rank() + 7) % 8
            },
    {
        match color {
            Color::White => self.wrapping_up(),
            Color::Black => self.wrapping_down(),
        }
    }

    /// `wrapping_down` for White, `wrapping_up` for Black.
    pub fn wrapping_backward(&self, color: Color) -> (r: Square)
        ensures
            r.file() == self.file(),
            r.rank() == if color == Color::White {
                (self.rank() + 7) % 8
            } else {
                (self.rank() + 1) % 8
            },
    {
        match color {
            Color::White => self.wrapping_down(),
            Color::Black => self.wrapping_up(),
        }
    }

    /// The square on the same file with the rank mirrored (a1 <-> a8).
    pub fn horizontal_mirror(self) -> (r: Square)
        ensures
            r.file() == self.file(),
            r.rank() == 7 - self.rank(),
    {
        Square::from_index(8 * (7 - self.to_index() / 8) + self.to_index() % 8)
    }

    /// The square on the same rank with the file mirrored (a1 <-> h1).
    pub fn vertical_mirror(self) -> (r: Square)
        ensures
            r.rank() == self.rank(),
            r.file() == 7 - self.file(),
    {
        Square::from_index(8 * (self.to_index() / 8) + 7 - self.to_index() % 8)
    }

    /// Mirror the rank, keeping the file (the index with its upper three bits flipped).
    pub fn flip(self) -> (r: Square)
        ensures
            r.file() == self.file(),
            r.rank() == 7 - self.rank(),
    {
        self.horizontal_mirror()
    }

    /// Mirror both rank and file (the index with all six bits flipped).
    pub fn rotate(self) -> (r: Square)
        ensures
            r.index() == 63 - self.index(),
    {
        Square::from_index(63 - self.to_index())
    }

    /// The square's index as a 16-bit integer, as used in book move encodings.
    pub fn compress(self) -> (r: u16)
        ensures
            r == self.index(),
    {
        self.to_int() as u16
    }

    /// The square of index `i`; only the low six bits of `i` are used.
    pub fn decompress(i: u16) -> (r: Square)
        ensures
            r.index() == i % 64,
    {
        Square::from_index((i % 64) as usize)
    }
}

} // verus!
