//! The bounded list of move groups a move generator holds, kept in an `ArrayVec`.
use vstd::prelude::*;
use arrayvec::ArrayVec;
use crate::bitboard::BitBoard;
use crate::types::Square;

verus! {

#[verifier::external_type_specification]
#[verifier::external_body]
#[verifier::reject_recursive_types(T)]
pub struct ExArrayVec<T, const CAP: usize>(ArrayVec<T, CAP>);

/// A source square with the destinations its piece may go to, and whether each move there
/// comes in the four promotion flavours.
#[derive(Clone, Copy, PartialEq, Eq, Debug, Structural)]
pub struct SquareAndBitBoard {
    pub square: Square,
    pub bitboard: BitBoard,
    pub promotion: bool,
}

impl SquareAndBitBoard {
    pub fn new(square: Square, bb: BitBoard, promotion: bool) -> (r: SquareAndBitBoard)
        ensures
            r == (SquareAndBitBoard { square, bitboard: bb, promotion }),
    {
        SquareAndBitBoard { square, bitboard: bb, promotion }
    }
}

/// The groups a move list holds, in order.
pub uninterp spec fn move_list_items(list: ArrayVec<SquareAndBitBoard, 18>) -> Seq<SquareAndBitBoard>;

/// `ArrayVec::new`: an empty list.
#[verifier::external_body]
pub(crate) fn list_new() -> (r: ArrayVec<SquareAndBitBoard, 18>)
    ensures
        move_list_items(r) == Seq::<SquareAndBitBoard>::empty(),
{
    ArrayVec::new()
}

/// `ArrayVec::push`: appends `item`; the list must not be full, else the call panics.
#[verifier::external_body]
pub(crate) fn list_push(list: &mut ArrayVec<SquareAndBitBoard, 18>, item: SquareAndBitBoard)
    requires
        move_list_items(*old(list)).len() < 18,
    ensures
        move_list_items(*final(list)) == move_list_items(*old(list)).push(item),
{
    list.push(item)
}

/// `ArrayVec::len`: the number of items.
#[verifier::external_body]
pub(crate) fn list_len(list: &ArrayVec<SquareAndBitBoard, 18>) -> (r: usize)
    ensures
        r == move_list_items(*list).len(),
{
    list.len()
}

/// Reading item `i` through the slice the list dereferences to.
#[verifier::external_body]
pub(crate) fn list_get(list: &ArrayVec<SquareAndBitBoard, 18>, i: usize) -> (r: SquareAndBitBoard)
    requires
        i < move_list_items(*list).len(),
    ensures
        r == move_list_items(*list)[i as int],
{
    list[i]
}

/// Writing item `i` through the mutable slice the list dereferences to.
#[verifier::external_body]
pub(crate) fn list_set(list: &mut ArrayVec<SquareAndBitBoard, 18>, i: usize, item: SquareAndBitBoard)
    requires
        i < move_list_items(*old(list)).len(),
    ensures
        move_list_items(*final(list)) == move_list_items(*old(list)).update(i as int, item),
{
    list[i] = item;
}

/// Swapping items `i` and `j` through the mutable slice the list dereferences to.
#[verifier::external_body]
pub(crate) fn list_swap(list: &mut ArrayVec<SquareAndBitBoard, 18>, i: usize, j: usize)
    requires
        i < move_list_items(*old(list)).len(),
        j < move_list_items(*old(list)).len(),
    ensures
        move_list_items(*final(list)) == move_list_items(*old(list)).update(i as int, move_list_items(*old(list))[j as int]).update(
            j as int,
            move_list_items(*old(list))[i as int],
        ),
{
    list.swap(i, j)
}

} // verus!
