//! The 16-bit move encoding of polyglot opening books: promotion in bits 12 to 14, source
//! square in bits 6 to 11, destination square in bits 0 to 5.
use vstd::prelude::*;
use crate::error::TimecatError;
use crate::moves::Move;
use crate::piece::PieceType;
use crate::types::{square_at, Square};

verus! {

/// The promotion a polyglot promotion code stands for: none, knight, bishop, rook, queen.
pub open spec fn polyglot_promotion(code: int) -> Option<PieceType> {
    if code == 1 {
        Some(PieceType::Knight)
    } else if code == 2 {
        Some(PieceType::Bishop)
    } else if code == 3 {
        Some(PieceType::Rook)
    } else if code == 4 {
        Some(PieceType::Queen)
    } else {
        None
    }
}

/// The polyglot code of a promotion, if it has one.
pub open spec fn polyglot_code(promotion: Option<PieceType>) -> Option<int> {
    match promotion {
        None => Some(0),
        Some(PieceType::Knight) => Some(1),
        Some(PieceType::Bishop) => Some(2),
        Some(PieceType::Rook) => Some(3),
        Some(PieceType::Queen) => Some(4),
        _ => None,
    }
}

/// The move a polyglot move code stands for; a promotion code above four is a bad book.
pub fn polyglot_move_int_to_move(move_int: u16) -> (r: Result<Move, TimecatError>)
    ensures
        move_int / 4096 <= 4 ==> r == Ok::<Move, TimecatError>(
            Move {
                source: square_at(((move_int / 64) % 64) as int),
                dest: square_at((move_int % 64) as int),
                promotion: polyglot_promotion((move_int / 4096) as int),
            },
        ),
        move_int / 4096 > 4 ==> r matches Err(TimecatError::BadPolyglotFile),
{
    let code = move_int >> 12;
    let from = (move_int >> 6) & 0x3f;
    let to = move_int & 0x3f;
    assert((move_int >> 12) == move_int / 4096) by (bit_vector);
    assert(((move_int >> 6) & 0x3f) == (move_int / 64) % 64) by (bit_vector);
    assert((move_int & 0x3f) == move_int % 64) by (bit_vector);
    let promotion = if code == 0 {
        None
    } else if code == 1 {
        Some(PieceType::Knight)
    } else if code == 2 {
        Some(PieceType::Bishop)
    } else if code == 3 {
        Some(PieceType::Rook)
    } else if code == 4 {
        Some(PieceType::Queen)
    } else {
        return Err(TimecatError::BadPolyglotFile);
    };
    Ok(Move::new(Square::decompress(from), Square::decompress(to), promotion))
}

/// The polyglot code of a move; a move promoting to a pawn or a king has none.
pub fn move_to_polyglot_move_int(move_: Move) -> (r: Result<u16, TimecatError>)
    ensures
        match polyglot_code(move_.promotion) {
            Some(c) => r == Ok::<u16, TimecatError>((c * 4096 + move_.source.index() * 64 + move_.dest.index()) as u16),
            None => r matches Err(TimecatError::PolyglotTableParseError),
        },
{
    let code: u16 = match move_.get_promotion() {
        None => 0,
        Some(PieceType::Knight) => 1,
        Some(PieceType::Bishop) => 2,
        Some(PieceType::Rook) => 3,
        Some(PieceType::Queen) => 4,
        _ => return Err(TimecatError::PolyglotTableParseError),
    };
    let source = move_.get_source().compress();
    let dest = move_.get_dest().compress();
    assert(source < 64 && dest < 64 && code <= 4);
    let with_source = (code << 6) ^ source;
    assert(((code << 6) ^ source) == code * 64 + source) by (bit_vector)
        requires
            source < 64,
            code <= 4,
    ;
    let r = (with_source << 6) ^ dest;
    assert(((with_source << 6) ^ dest) == with_source * 64 + dest) by (bit_vector)
        requires
            dest < 64,
            with_source < 320,
    ;
    Ok(r)
}

proof fn lemma_code_parts(c: int, s: int, d: int, x: int)
    requires
        0 <= c <= 4,
        0 <= s < 64,
        0 <= d < 64,
        x == c * 4096 + s * 64 + d,
    ensures
        x / 4096 == c,
        (x / 64) % 64 == s,
        x % 64 == d,
{
    vstd::arithmetic::div_mod::lemma_fundamental_div_mod_converse(x, 64, c * 64 + s, d);
    vstd::arithmetic::div_mod::lemma_fundamental_div_mod_converse(c * 64 + s, 64, c, s);
    vstd::arithmetic::div_mod::lemma_fundamental_div_mod_converse(x, 4096, c, s * 64 + d);
}

/// Decoding the polyglot code of a move gives the move back.
pub proof fn law_polyglot_round_trip(move_: Move, x: u16)
    requires
        polyglot_code(move_.promotion) matches Some(c) && x == c * 4096 + move_.source.index() * 64 + move_.dest.index(),
    ensures
        x / 4096 <= 4,
        square_at(((x / 64) % 64) as int) == move_.source,
        square_at((x % 64) as int) == move_.dest,
        polyglot_promotion((x / 4096) as int) == move_.promotion,
{
    move_.source.lemma_index_range();
    move_.dest.lemma_index_range();
    move_.source.lemma_square_at_index();
    move_.dest.lemma_square_at_index();
    let c = polyglot_code(move_.promotion)->0;
    let s = move_.source.index();
    let d = move_.dest.index();
    lemma_code_parts(c, s, d, x as int);
}

} // verus!
