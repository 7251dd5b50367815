//! Moves: a source square, a destination square and an optional promotion.
use vstd::prelude::*;
use crate::piece::PieceType;
use crate::types::Square;

verus! {

/// A move from `source` to `dest`, promoting to `promotion` when it is a pawn reaching the last
/// rank.
#[derive(PartialEq, Eq, Clone, Copy, Debug, Hash, Structural)]
pub struct Move {
    pub source: Square,
    pub dest: Square,
    pub promotion: Option<PieceType>,
}

/// The two sides of the board a king may castle to.
#[derive(PartialEq, Eq, Clone, Copy, Debug, Hash, Structural)]
pub enum CastleMoveType {
    KingSide,
    QueenSide,
}

/// What a move does, as far as move ordering is concerned.
#[derive(PartialEq, Eq, Clone, Copy, Debug, Hash, Structural)]
pub enum MoveType {
    Capture,
    Castle(CastleMoveType),
    DoublePawnPush,
    Other,
}

impl Move {
    pub fn new(source: Square, dest: Square, promotion: Option<PieceType>) -> (r: Move)
        ensures
            r.source == source,
            r.dest == dest,
            r.promotion == promotion,
    {
        Move { source, dest, promotion }
    }

    pub fn new_unchecked(source: Square, dest: Square, promotion: Option<PieceType>) -> (r: Move)
        ensures
            r.source == source,
            r.dest == dest,
            r.promotion == promotion,
    {
        Move { source, dest, promotion }
    }

    pub fn get_source(&self) -> (r: Square)
        ensures
            r == self.source,
    {
        self.source
    }

    pub fn get_dest(&self) -> (r: Square)
        ensures
            r == self.dest,
    {
        self.dest
    }

    pub fn get_promotion(&self) -> (r: Option<PieceType>)
        ensures
            r == self.promotion,
    {
        self.promotion
    }
}

/// A move together with what kind of move it is and whether it gives check.
#[derive(PartialEq, Eq, Clone, Copy, Debug)]
pub struct MoveWithInfo {
    pub move_: Move,
    pub type_: MoveType,
    pub is_check: bool,
}

} // verus!
