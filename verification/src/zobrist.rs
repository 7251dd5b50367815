//! Zobrist keys for hashing positions: the library's own keys, drawn from the splitmix64
//! sequence. They are not the keys of the polyglot book format.
use vstd::prelude::*;
use crate::castle::CastleRights;
use crate::piece::PieceType;
use crate::types::{Color, File, Square};

verus! {

/// The splitmix64 output for `seed`.
pub open spec fn mix(seed: u64) -> u64 {
    let z0 = vstd::wrapping::u64_specs::wrapping_mul(
        vstd::wrapping::u64_specs::wrapping_add(seed, 1),
        0x9E37_79B9_7F4A_7C15u64,
    );
    let z1 = vstd::wrapping::u64_specs::wrapping_mul(z0 ^ (z0 >> 30u64), 0xBF58_476D_1CE4_E5B9u64);
    let z2 = vstd::wrapping::u64_specs::wrapping_mul(z1 ^ (z1 >> 27u64), 0x94D0_49BB_1331_11EBu64);
    z2 ^ (z2 >> 31u64)
}

/// Index of the key of a piece: `64 * (2 * type + color) + square`.
pub open spec fn piece_key_index(piece: PieceType, square: int, color: Color) -> int {
    64 * (2 * piece.index() + color.index()) + square
}

/// Key of a piece of `color` and type `piece` on `square`.
pub open spec fn piece_key(piece: PieceType, square: int, color: Color) -> u64 {
    mix(piece_key_index(piece, square, color) as u64)
}

/// Key of the castle rights `rights` of `color`; having no rights contributes nothing.
pub open spec fn castles_key(rights: CastleRights, color: Color) -> u64 {
    if rights == CastleRights::NoRights {
        0
    } else {
        mix((768 + 4 * color.index() + rights.index()) as u64)
    }
}

/// Key of an en passant square on `file`, by the color of the side that may not capture.
pub open spec fn en_passant_key(file: int, color: Color) -> u64 {
    mix((776 + 8 * color.index() + file) as u64)
}

/// Key xored in when Black is to move.
pub open spec fn turn_key() -> u64 {
    mix(792)
}

/// The splitmix64 output for `seed`.
pub fn mix_exec(seed: u64) -> (r: u64)
    ensures
        r == mix(seed),
{
    let z0 = seed.wrapping_add(1).wrapping_mul(0x9E37_79B9_7F4A_7C15u64);
    let z1 = (z0 ^ (z0 >> 30u64)).wrapping_mul(0xBF58_476D_1CE4_E5B9u64);
    let z2 = (z1 ^ (z1 >> 27u64)).wrapping_mul(0x94D0_49BB_1331_11EBu64);
    z2 ^ (z2 >> 31u64)
}

/// Source of the random keys used to hash positions.
pub struct Zobrist;

impl Zobrist {
    /// Get the value for a particular piece.
    pub fn piece(piece: PieceType, square: Square, color: Color) -> (r: u64)
        ensures
            r == piece_key(piece, square.index(), color),
    {
        mix_exec((64 * (2 * piece.to_index() + color.to_index()) + square.to_index()) as u64)
    }

    /// Get the value for the castle rights of one side.
    pub fn castles(castle_rights: CastleRights, color: Color) -> (r: u64)
        ensures
            r == castles_key(castle_rights, color),
    {
        match castle_rights {
            CastleRights::NoRights => 0,
            _ => mix_exec((768 + 4 * color.to_index() + castle_rights.to_index()) as u64),
        }
    }

    /// Get the value for an en passant square on `file`.
    pub fn en_passant(file: File, color: Color) -> (r: u64)
        ensures
            r == en_passant_key(file.index(), color),
    {
        mix_exec((776 + 8 * color.to_index() + file.to_index()) as u64)
    }

    /// Get the value xored in when Black is to move.
    pub fn color() -> (r: u64)
        ensures
            r == turn_key(),
    {
        mix_exec(792)
    }
}

} // verus!
