//! Properties that hold across the operations of the library: mirrors undo themselves, the
//! hash is a function of the position, null moves and flips compose as expected, and a legal
//! move never leaves the mover's king attacked.
use vstd::prelude::*;
use crate::bitboard::BitBoard;
use crate::castle::{castle_rights_at, CastleRights};
use crate::fold::{lemma_xor_ext, sum_upto};
use crate::attacks::{dist, fl, king_attack, on_board, on_ray, ray_attack, ray_square, rk, step};
use crate::bits::{bit, count_bits};
use crate::moves::Move;
use crate::piece::{Piece, PieceType};
use crate::position::{lemma_piece_at_facts, piece_attack, BoardPosition};
use crate::position_legal::lemma_occupied_after;
use crate::position_status::mirror_square;
use crate::types::{square_at, Color, Square};

verus! {

broadcast use crate::bits::group_bit_facts;

/// Mirroring a square index twice across the same axis gives the index back, and a mirrored
/// index stays on the board.
pub proof fn law_mirror_square_twice(i: int, ranks: bool)
    requires
        0 <= i < 64,
    ensures
        0 <= mirror_square(i, ranks) < 64,
        mirror_square(mirror_square(i, ranks), ranks) == i,
{
}

/// A square mirrored twice across the same axis (the squares `horizontal_mirror` or
/// `vertical_mirror` give) is the square itself.
pub proof fn law_square_mirror_twice(a: Square, b: Square, c: Square)
    requires
        (b.file() == a.file() && b.rank() == 7 - a.rank() && c.file() == b.file() && c.rank() == 7 - b.rank())
            || (b.rank() == a.rank() && b.file() == 7 - a.file() && c.rank() == b.rank() && c.file() == 7 - b.file()),
    ensures
        c == a,
{
    a.lemma_index_range();
    c.lemma_index_range();
    a.lemma_square_at_index();
    c.lemma_square_at_index();
}

/// Flipping a bitboard twice across the same axis (as `flip_vertical` or `flip_horizontal`
/// does) gives the bitboard back.
pub proof fn law_bitboard_flip_twice(a: BitBoard, b: BitBoard, c: BitBoard, ranks: bool)
    requires
        forall|i: int| 0 <= i < 64 ==> #[trigger] b.has(i) == a.has(mirror_square(i, ranks)),
        forall|i: int| 0 <= i < 64 ==> #[trigger] c.has(i) == b.has(mirror_square(i, ranks)),
    ensures
        c == a,
{
    assert forall|i: int| 0 <= i < 64 implies #[trigger] c.has(i) == a.has(i) by {
        law_mirror_square_twice(i, ranks);
        assert(b.has(mirror_square(i, ranks)) == a.has(mirror_square(mirror_square(i, ranks), ranks)));
    }
    assert forall|i: int| #[trigger] crate::bits::bit(c.0, i) == crate::bits::bit(a.0, i) by {
        if 0 <= i < 64 {
            assert(c.has(i) == a.has(i));
        }
    }
    crate::bits::lemma_eq_iff_bits(c.0, a.0);
}

/// The opposite of the opposite color is the color itself.
pub proof fn law_color_flip_twice(c: Color)
    ensures
        c.other().other() == c,
{
}

/// Castle rights read back from their index are the rights themselves.
pub proof fn law_castle_rights_index_round_trip(c: CastleRights)
    ensures
        castle_rights_at(c.index()) == c,
        0 <= c.index() < 4,
{
}

/// Adding rights and then removing the same rights leaves what removing them alone leaves;
/// removing rights keeps exactly those not removed.
pub proof fn law_castle_rights_add_remove(c: CastleRights, d: CastleRights)
    ensures
        c.union(d).minus(d) == c.minus(d),
        c.minus(d).kingside() == (c.kingside() && !d.kingside()),
        c.minus(d).queenside() == (c.queenside() && !d.queenside()),
        c.union(d).kingside() == (c.kingside() || d.kingside()),
        c.union(d).queenside() == (c.queenside() || d.queenside()),
        c.minus(c) == CastleRights::NoRights,
        c.union(CastleRights::NoRights) == c,
{
}

/// The hash is a function of the position: two well-formed positions with the same piece on
/// every square, the same side to move, castle rights and en passant square hash alike.
pub proof fn law_hash_depends_on_position(a: BoardPosition, b: BoardPosition)
    requires
        a.wf(),
        b.wf(),
        forall|i: int| #[trigger] a.piece_at(i) == b.piece_at(i),
        a.turn_ == b.turn_,
        a.white_castle_rights == b.white_castle_rights,
        a.black_castle_rights == b.black_castle_rights,
        a.ep == b.ep,
    ensures
        a.hash_spec() == b.hash_spec(),
        a.pawn_hash_spec() == b.pawn_hash_spec(),
        a.non_pawn_hash_spec() == b.non_pawn_hash_spec(),
{
    assert forall|i: int| 0 <= i < 64 implies #[trigger] a.square_pawn_key(i) == b.square_pawn_key(i) by {
        assert(a.piece_at(i) == b.piece_at(i));
    }
    assert forall|i: int| 0 <= i < 64 implies #[trigger] a.square_piece_key(i) == b.square_piece_key(i) by {
        assert(a.piece_at(i) == b.piece_at(i));
    }
    lemma_xor_ext(|i: int| a.square_pawn_key(i), |i: int| b.square_pawn_key(i), 64);
    lemma_xor_ext(|i: int| a.square_piece_key(i), |i: int| b.square_piece_key(i), 64);
}

/// Two null moves in a row hand the move back to the side that had it: the same pieces, the
/// same castle rights, no en passant square, and both move clocks two further on; from a
/// position without an en passant square the hash comes back too.
pub proof fn law_null_move_twice(a: BoardPosition, b: BoardPosition, c: BoardPosition)
    requires
        a.wf(),
        b.same_placement(a) && b.turn_ == a.turn_.other() && b.ep is None && b.white_castle_rights == a.white_castle_rights
            && b.black_castle_rights == a.black_castle_rights && b.halfmove_clock == a.halfmove_clock + 1
            && b.fullmove_number == a.fullmove_number + 1,
        c.same_placement(b) && c.turn_ == b.turn_.other() && c.ep is None && c.white_castle_rights == b.white_castle_rights
            && c.black_castle_rights == b.black_castle_rights && c.halfmove_clock == b.halfmove_clock + 1
            && c.fullmove_number == b.fullmove_number + 1,
    ensures
        c.wf(),
        c.same_placement(a),
        forall|i: int| #[trigger] c.piece_at(i) == a.piece_at(i),
        c.turn_ == a.turn_,
        c.ep is None,
        c.white_castle_rights == a.white_castle_rights,
        c.black_castle_rights == a.black_castle_rights,
        c.halfmove_clock == a.halfmove_clock + 2,
        c.fullmove_number == a.fullmove_number + 2,
        a.ep is None ==> c.hash_spec() == a.hash_spec(),
{
    crate::position_move::lemma_same_placement_wf(a, c);
}

/// Mirroring a position twice across the same axis (as `flip_vertical` or
/// `flip_horizontal` do) puts every piece and the en passant square back where they were;
/// the castle rights stay dropped.
pub proof fn law_position_flip_twice(a: BoardPosition, b: BoardPosition, c: BoardPosition, ranks: bool)
    requires
        forall|i: int| 0 <= i < 64 ==> #[trigger] b.piece_at(i) == a.piece_at(mirror_square(i, ranks)),
        forall|i: int| 0 <= i < 64 ==> #[trigger] c.piece_at(i) == b.piece_at(mirror_square(i, ranks)),
        b.ep == match a.ep {
            Some(sq) => Some(square_at(mirror_square(sq.index(), ranks))),
            None => None,
        },
        c.ep == match b.ep {
            Some(sq) => Some(square_at(mirror_square(sq.index(), ranks))),
            None => None,
        },
        b.turn_ == a.turn_,
        c.turn_ == b.turn_,
    ensures
        forall|i: int| 0 <= i < 64 ==> #[trigger] c.piece_at(i) == a.piece_at(i),
        c.ep == a.ep,
        c.turn_ == a.turn_,
{
    assert forall|i: int| 0 <= i < 64 implies #[trigger] c.piece_at(i) == a.piece_at(i) by {
        law_mirror_square_twice(i, ranks);
        assert(b.piece_at(mirror_square(i, ranks)) == a.piece_at(mirror_square(mirror_square(i, ranks), ranks)));
    }
    if let Some(sq) = a.ep {
        sq.lemma_index_range();
        sq.lemma_square_at_index();
        law_mirror_square_twice(sq.index(), ranks);
        let m = mirror_square(sq.index(), ranks);
        crate::types::lemma_square_at_range(m);
        square_at(m).lemma_square_at_index();
    }
}

/// Boards with the same key components (piece masks, color masks, side to move, castle
/// rights and en passant square) and the same move clocks are the same position, checkers,
/// pinned pieces, hash keys and material included.
pub proof fn law_key_components_determine_position(a: BoardPosition, b: BoardPosition)
    requires
        a.wf(),
        b.wf(),
        a.info_ok(),
        b.info_ok(),
        a.pawns == b.pawns && a.knights == b.knights && a.bishops == b.bishops && a.rooks == b.rooks && a.queens
            == b.queens && a.kings == b.kings,
        a.white == b.white && a.black == b.black,
        a.turn_ == b.turn_,
        a.white_castle_rights == b.white_castle_rights && a.black_castle_rights == b.black_castle_rights,
        a.ep == b.ep,
        a.halfmove_clock == b.halfmove_clock,
        a.fullmove_number == b.fullmove_number,
    ensures
        a == b,
{
    crate::position_move::lemma_position_ext(a, b);
}

/// After a legal move other than castling, no king of the side that moved is attacked in
/// the position the move makes.
pub proof fn law_legal_move_leaves_king_safe(p: BoardPosition, m: Move, r: BoardPosition, k: int)
    requires
        p.wf(),
        p.normal_legal(m) || p.ep_legal(m),
        p.made(m, r),
        r.king_at(p.turn_, k),
    ensures
        !r.attacked_by(k, r.turn_),
{
    lemma_occupied_after(p, r, m);
    lemma_piece_at_facts(r, k);
    assert(crate::bits::bit(r.mask_of(PieceType::King), k));
    assert(crate::bits::bit(r.color_mask(p.turn_), k));
    assert(r.piece_at(k) == p.moved_piece_at(m, k));
    assert(p.moved_piece_at(m, k) == Some(Piece { type_: PieceType::King, color: p.turn_ }));
    if r.attacked_by(k, r.turn_) {
        let s = choose|s: int| #[trigger] r.attacks_from(s, k, r.turn_);
        assert(r.piece_at(s) == p.moved_piece_at(m, s));
        assert(p.attacks_after(m, s, k, p.turn_.other()));
    }
}

/// A square strictly inside a ray lies on a file strictly between the two edge files, unless
/// the ray runs along a file, in which case it lies on the file of the ray's end.
proof fn lemma_inner_ray_file(a: int, dr: int, df: int, b: int, t: int)
    requires
        0 <= a < 64,
        on_ray(a, dr, df, b),
        1 <= t < dist(a, b),
    ensures
        df == 0 ==> fl(ray_square(a, dr, df, t)) == fl(b),
        df != 0 ==> 0 < fl(ray_square(a, dr, df, t)) < 7,
        ray_square(a, dr, df, t) != b,
{
    let r = rk(a) + step(dr, t);
    let f = fl(a) + step(df, t);
    assert(0 <= rk(b) < 8 && 0 <= fl(b) < 8);
    assert(on_board(r, f));
    assert(rk(8 * r + f) == r && fl(8 * r + f) == f);
    assert(dist(a, ray_square(a, dr, df, t)) == t);
}

/// With the castling rook gone from its corner and the king from its square, the squares
/// strictly between an enemy slider and the castled king's square are no fuller than when the
/// king's landing square was checked.
proof fn lemma_castle_ray(p: BoardPosition, m: Move, kingside: bool, s: int, dr: int, df: int)
    requires
        p.wf(),
        p.castle_legal(m, kingside),
        0 <= s < 64,
    ensures
        ray_attack(s, dr, df, m.dest.index(), p.occupied_after(m)) ==> ray_attack(s, dr, df, m.dest.index(),
            (p.occupied_bb.0 ^ (p.kings.0 & p.color_mask(p.turn_))) | (1u64 << (m.dest.index() as u64))),
{
    let d = m.dest.index();
    let k = m.source.index();
    let occ = (p.occupied_bb.0 ^ (p.kings.0 & p.color_mask(p.turn_))) | (1u64 << (d as u64));
    let rf = p.castle_rook_from(m);
    assert(fl(rf) == 0 || fl(rf) == 7);
    assert(fl(d) == 2 || fl(d) == 4 || fl(d) == 6);
    if ray_attack(s, dr, df, d, p.occupied_after(m)) {
        assert forall|t: int| 1 <= t < dist(s, d) implies !bit(occ, #[trigger] ray_square(s, dr, df, t)) by {
            let x = ray_square(s, dr, df, t);
            lemma_inner_ray_file(s, dr, df, d, t);
            assert(!bit(p.occupied_after(m), x));
            assert(x != rf);
            lemma_piece_at_facts(p, x);
            lemma_piece_at_facts(p, k);
            if x == k {
                assert(bit(p.kings.0 & p.color_mask(p.turn_), x));
            } else {
                assert(!bit(p.occupied_bb.0, x));
                if bit(p.kings.0 & p.color_mask(p.turn_), x) {
                    assert(bit(p.mask_of(PieceType::King), x));
                }
            }
        }
    }
}

/// After castling, the king that castled is not attacked in the position the move makes.
pub proof fn law_castling_leaves_king_safe(p: BoardPosition, m: Move, r: BoardPosition, kingside: bool)
    requires
        p.wf(),
        p.castle_legal(m, kingside),
        p.made(m, r),
    ensures
        !r.attacked_by(m.dest.index(), r.turn_),
{
    let d = m.dest.index();
    let occ = (p.occupied_bb.0 ^ (p.kings.0 & p.color_mask(p.turn_))) | (1u64 << (d as u64));
    lemma_occupied_after(p, r, m);
    if r.attacked_by(d, r.turn_) {
        let s = choose|s: int| #[trigger] r.attacks_from(s, d, r.turn_);
        assert(r.piece_at(s) == p.moved_piece_at(m, s));
        let q = r.piece_at(s)->0;
        lemma_piece_at_facts(r, s);
        assert(0 <= s < 64);
        assert(p.piece_at(s) == Some(q));
        assert(piece_attack(q.type_, q.color, s, d, p.occupied_after(m)));
        if q.type_ == PieceType::Rook || q.type_ == PieceType::Queen || q.type_ == PieceType::Bishop {
            lemma_castle_ray(p, m, kingside, s, 1, 0);
            lemma_castle_ray(p, m, kingside, s, -1, 0);
            lemma_castle_ray(p, m, kingside, s, 0, 1);
            lemma_castle_ray(p, m, kingside, s, 0, -1);
            lemma_castle_ray(p, m, kingside, s, 1, 1);
            lemma_castle_ray(p, m, kingside, s, 1, -1);
            lemma_castle_ray(p, m, kingside, s, -1, 1);
            lemma_castle_ray(p, m, kingside, s, -1, -1);
        }
        assert(p.attacks_with(s, d, p.turn_.other(), occ));
        assert(p.attacked_with(d, p.turn_.other(), occ));
    }
}

/// When the side to move has exactly one king, no legal move leaves that king attacked.
pub proof fn law_legal_move_never_exposes_king(p: BoardPosition, m: Move, r: BoardPosition, k: int)
    requires
        p.wf(),
        p.one_king(p.turn_),
        p.legal_spec(m),
        p.made(m, r),
        r.king_at(p.turn_, k),
    ensures
        !r.attacked_by(k, r.turn_),
{
    if p.normal_legal(m) || p.ep_legal(m) {
        law_legal_move_leaves_king_safe(p, m, r, k);
    } else {
        let kingside = p.castle_legal(m, true);
        law_castling_leaves_king_safe(p, m, r, kingside);
        if k != m.dest.index() {
            let own = p.kings.0 & p.color_mask(p.turn_);
            lemma_piece_at_facts(r, k);
            assert(bit(r.mask_of(PieceType::King), k) && bit(r.color_mask(p.turn_), k));
            assert(r.piece_at(k) == p.moved_piece_at(m, k));
            lemma_piece_at_facts(p, k);
            lemma_piece_at_facts(p, m.source.index());
            assert(bit(own, k));
            assert(bit(own, m.source.index()));
            let i = crate::bits::lemma_count_bits_one_witness(own, 64);
            assert(false);
        }
    }
}

/// The material of each color over the squares `0..n`, counted square by square, is the value
/// of its pieces there counted by piece mask; with both colors, the pieces of either color.
proof fn lemma_material_by_masks(p: BoardPosition, n: int)
    requires
        p.placement_ok(),
        0 <= n <= 64,
    ensures
        forall|c: Color| sum_upto(|i: int| p.square_material(c, i), n) == #[trigger] masked_count(p, p.color_mask(c), n),
        sum_upto(|i: int| p.square_material(Color::White, i), n) + sum_upto(|i: int| p.square_material(Color::Black, i), n)
            == masked_count(p, u64::MAX, n),
    decreases n,
{
    if n > 0 {
        lemma_material_by_masks(p, n - 1);
        assert(p.square_ok(n - 1));
        assert(bit(u64::MAX, n - 1));
        assert forall|c: Color| sum_upto(|i: int| p.square_material(c, i), n) == #[trigger] masked_count(p, p.color_mask(c), n) by {
            assert(sum_upto(|i: int| p.square_material(c, i), n - 1) == masked_count(p, p.color_mask(c), n - 1));
        }
    }
}

/// The value of the pawns, knights, bishops, rooks and queens among the squares `0..n` of `mask`.
pub open spec fn masked_count(p: BoardPosition, mask: u64, n: int) -> nat {
    100 * count_bits(p.pawns.0 & mask, n) + 320 * count_bits(p.knights.0 & mask, n) + 330 * count_bits(
        p.bishops.0 & mask,
        n,
    ) + 500 * count_bits(p.rooks.0 & mask, n) + 900 * count_bits(p.queens.0 & mask, n)
}

/// The masked material of a color's squares is that color's material, and of every square the
/// material of both colors: `get_masked_material_score_abs` agrees with the material scores.
pub proof fn law_masked_material(p: BoardPosition)
    requires
        p.wf(),
    ensures
        p.masked_material(p.color_mask(Color::White)) == p.material(Color::White),
        p.masked_material(p.color_mask(Color::Black)) == p.material(Color::Black),
        p.masked_material(u64::MAX) == p.material(Color::White) + p.material(Color::Black),
{
    lemma_material_by_masks(p, 64);
    assert(masked_count(p, p.color_mask(Color::White), 64) == p.material(Color::White));
    assert(masked_count(p, p.color_mask(Color::Black), 64) == p.material(Color::Black));
}

/// A legal move from a position that can be searched leaves one king on each side, the
/// mover's king unattacked, and the two kings apart.
pub proof fn law_legal_move_keeps_kings_safe(p: BoardPosition, m: Move, r: BoardPosition)
    requires
        p.perft_ok(1),
        p.legal_spec(m),
        p.made(m, r),
    ensures
        r.one_king(Color::White),
        r.one_king(Color::Black),
        !exists|k: int| #[trigger] r.king_at(r.turn_.other(), k) && r.attacked_by(k, r.turn_),
        forall|a: int, b: int| #[trigger] r.king_at(Color::White, a) && #[trigger] bit(r.kings.0, b) ==> !king_attack(a, b),
{
    let q = p.after_move(m);
    assert(p.made(m, q));
    assert forall|i: int| #[trigger] r.piece_at(i) == q.piece_at(i) by {
        assert(r.piece_at(i) == p.moved_piece_at(m, i));
        assert(q.piece_at(i) == p.moved_piece_at(m, i));
    }
    assert(r.white_castle_rights == q.white_castle_rights) by {
        assert(r.castle_rights_of(Color::White) == q.castle_rights_of(Color::White));
    }
    assert(r.black_castle_rights == q.black_castle_rights) by {
        assert(r.castle_rights_of(Color::Black) == q.castle_rights_of(Color::Black));
    }
    crate::position_move::lemma_position_ext(r, q);
    p.lemma_perft_ok_after(m, 1);
    assert forall|k: int| #[trigger] r.king_at(p.turn_, k) implies !r.attacked_by(k, r.turn_) by {
        law_legal_move_never_exposes_king(p, m, r, k);
    }
    assert(r.turn_.other() == p.turn_);
    assert forall|a: int, b: int| #[trigger] r.king_at(Color::White, a) && #[trigger] bit(r.kings.0, b) implies !king_attack(
        a,
        b,
    ) by {
        if king_attack(a, b) {
            lemma_piece_at_facts(r, a);
            lemma_piece_at_facts(r, b);
            assert(bit(r.mask_of(PieceType::King), b));
            let pb = r.piece_at(b)->0;
            assert(pb.type_ == PieceType::King);
            if pb.color == Color::White {
                assert(bit(r.color_mask(Color::White), b));
                assert(r.king_at(Color::White, b));
                let w = crate::bits::lemma_count_bits_one_witness(r.kings.0 & r.color_mask(Color::White), 64);
                assert(a == w && b == w);
            } else {
                assert(bit(r.mask_of(PieceType::King), a) && bit(r.color_mask(Color::White), a));
                let pa = r.piece_at(a)->0;
                assert(pa == Piece { type_: PieceType::King, color: Color::White });
                assert(bit(r.color_mask(Color::Black), b));
                assert(r.king_at(Color::Black, b));
                if p.turn_ == Color::White {
                    assert(r.attacks_from(b, a, Color::Black));
                    assert(r.attacked_by(a, r.turn_));
                } else {
                    assert(r.attacks_from(a, b, Color::White));
                    assert(r.attacked_by(b, r.turn_));
                }
            }
        }
    }
}

/// In a position with its placement in order, a king of `c` stands on `i` exactly when the
/// piece there is a king of `c`.
proof fn lemma_king_at_piece(p: BoardPosition, c: Color, i: int)
    requires
        p.placement_ok(),
    ensures
        p.king_at(c, i) == (p.piece_at(i) == Some(Piece { type_: PieceType::King, color: c })),
{
    lemma_piece_at_facts(p, i);
    if p.piece_at(i) == Some(Piece { type_: PieceType::King, color: c }) {
        assert(bit(p.mask_of(PieceType::King), i) && bit(p.color_mask(c), i));
    }
    if p.king_at(c, i) {
        assert(bit(p.mask_of(PieceType::King), i));
        assert(bit(p.color_mask(c), i));
    }
}

/// A legal move from a sane position keeps the castle rights of `c` in line with the
/// placement: the rooks they need stand in their corners and the king on its square.
proof fn lemma_castle_rights_after(p: BoardPosition, m: Move, r: BoardPosition, c: Color)
    requires
        p.wf(),
        p.sane_spec(),
        p.legal_spec(m),
        p.made(m, r),
    ensures
        r.castle_rights_consistent(c),
{
    let base = crate::position_move::back_rank_base(c);
    let us = p.turn_;
    let src = m.source.index();
    let dst = m.dest.index();
    assert(p.castle_rights_consistent(c));
    let pcr = p.castle_rights_of(c);
    let rcr = r.castle_rights_of(c);
    assert(p.move_fits(m));
    assert forall|i: int| #[trigger] r.piece_at(i) == p.moved_piece_at(m, i) by {}
    lemma_piece_at_facts(p, src);
    lemma_piece_at_facts(p, dst);
    lemma_king_at_piece(p, us, src);
    if rcr != CastleRights::NoRights {
        assert(pcr != CastleRights::NoRights);
        assert(p.king_at(c, base + 4));
        lemma_king_at_piece(p, c, base + 4);
    }
    if c == us {
        assert(rcr == pcr.minus(crate::castle::square_castle_rights(us, src)));
        if rcr != CastleRights::NoRights {
            assert(src != base + 4);
            assert(!p.castles_spec(m)) by {
                if p.castles_spec(m) {
                    assert(p.king_at(us, src));
                }
            }
            assert(m.promotion != Some(PieceType::King));
            assert(p.landing_type(m) != PieceType::King) by {
                if p.moved_type(m) == PieceType::King {
                    assert(p.piece_at(src) == Some(Piece { type_: PieceType::King, color: us }));
                }
            }
            assert forall|i: int| #[trigger] r.king_at(c, i) <==> i == base + 4 by {
                lemma_king_at_piece(r, c, i);
                lemma_king_at_piece(p, c, i);
                lemma_piece_at_facts(p, i);
                if p.ep_capture_spec(m) && i == p.ep_victim(m) {
                    lemma_piece_at_facts(p, p.ep_victim(m));
                }
                if i == src {
                    assert(!r.king_at(c, i));
                } else if i == dst {
                    assert(!r.king_at(c, i));
                    assert(i != base + 4);
                }
            }
        }
        if rcr.kingside() {
            lemma_piece_at_facts(p, base + 7);
            assert(p.piece_at(base + 7) == Some(Piece { type_: PieceType::Rook, color: c }));
            if p.ep_capture_spec(m) {
                lemma_piece_at_facts(p, p.ep_victim(m));
            }
            assert(r.piece_at(base + 7) == p.piece_at(base + 7));
        }
        if rcr.queenside() {
            lemma_piece_at_facts(p, base);
            assert(p.piece_at(base) == Some(Piece { type_: PieceType::Rook, color: c }));
            if p.ep_capture_spec(m) {
                lemma_piece_at_facts(p, p.ep_victim(m));
            }
            assert(r.piece_at(base) == p.piece_at(base));
        }
    } else {
        assert(c == us.other());
        assert(rcr == pcr.minus(crate::castle::square_castle_rights(c, dst)));
        if rcr != CastleRights::NoRights {
            assert forall|i: int| #[trigger] r.king_at(c, i) <==> i == base + 4 by {
                lemma_king_at_piece(r, c, i);
                lemma_king_at_piece(p, c, i);
                lemma_piece_at_facts(p, i);
                if p.ep_capture_spec(m) {
                    lemma_piece_at_facts(p, p.ep_victim(m));
                }
                if p.castles_spec(m) {
                    lemma_piece_at_facts(p, p.castle_rook_from(m));
                    lemma_piece_at_facts(p, p.castle_rook_to(m));
                }
                assert(p.king_at(c, i) <==> i == base + 4);
                if i == src {
                    assert(r.piece_at(i) is None);
                    assert(!r.king_at(c, i));
                    assert(p.piece_at(base + 4) == Some(Piece { type_: PieceType::King, color: c }));
                    assert(i != base + 4);
                } else if i == dst {
                    assert(r.piece_at(i) == Some(Piece { type_: p.landing_type(m), color: us }));
                    assert(!r.king_at(c, i));
                    assert(i != base + 4);
                } else {
                    assert(r.piece_at(i) == Some(Piece { type_: PieceType::King, color: c }) <==> p.piece_at(i) == Some(
                        Piece { type_: PieceType::King, color: c },
                    ));
                    assert(r.king_at(c, i) <==> i == base + 4);
                }
                assert(r.king_at(c, i) <==> i == base + 4);
            }
        }
        if rcr.kingside() {
            lemma_piece_at_facts(p, base + 7);
            assert(p.piece_at(base + 7) == Some(Piece { type_: PieceType::Rook, color: c }));
            if p.ep_capture_spec(m) {
                lemma_piece_at_facts(p, p.ep_victim(m));
            }
            assert(r.piece_at(base + 7) == p.piece_at(base + 7));
        }
        if rcr.queenside() {
            lemma_piece_at_facts(p, base);
            assert(p.piece_at(base) == Some(Piece { type_: PieceType::Rook, color: c }));
            if p.ep_capture_spec(m) {
                lemma_piece_at_facts(p, p.ep_victim(m));
            }
            assert(r.piece_at(base) == p.piece_at(base));
        }
    }
}

/// A move leaves an en passant square only behind a pawn that just moved two squares, so the
/// position it makes has its en passant square in line.
proof fn lemma_ep_after(p: BoardPosition, m: Move, r: BoardPosition)
    requires
        p.wf(),
        p.made(m, r),
    ensures
        r.ep_consistent(),
{
    if p.ep_after(m) is Some {
        let d = m.dest.index();
        let v = p.ep_victim(m);
        assert(0 <= d < 64);
        assert(d == rk(d) * 8 + fl(d));
        assert(rk(d) == 3 || rk(d) == 4);
        assert(0 <= fl(d) < 8);
        assert(0 <= v < 64);
        crate::types::lemma_square_at_range(v);
        let x = square_at(v);
        assert(r.ep == Some(x));
        if p.turn_ == Color::White {
            assert(v == (rk(d) - 1) * 8 + fl(d));
            assert(x.index() + 8 == d);
        } else {
            assert(v == (rk(d) + 1) * 8 + fl(d));
            assert(x.index() - 8 == d);
        }
        assert(r.piece_at(d) == p.moved_piece_at(m, d));
        assert(p.landing_type(m) == PieceType::Pawn);
    }
}

/// A legal move from a sane position that can be searched leads to a sane position.
pub proof fn law_legal_move_keeps_sanity(p: BoardPosition, m: Move, r: BoardPosition)
    requires
        p.perft_ok(1),
        p.sane_spec(),
        p.legal_spec(m),
        p.made(m, r),
    ensures
        r.sane_spec(),
{
    law_legal_move_keeps_kings_safe(p, m, r);
    lemma_ep_after(p, m, r);
    lemma_castle_rights_after(p, m, r, Color::White);
    lemma_castle_rights_after(p, m, r, Color::Black);
}

/// A legal double pawn push lands on the fourth rank of the side that makes it.
proof fn lemma_double_push_rank(p: BoardPosition, m: Move)
    requires
        p.wf(),
        p.legal_spec(m),
        p.double_push_spec(m),
    ensures
        rk(m.dest.index()) == if p.turn_ == Color::White { 3int } else { 4int },
{
    let s = m.source.index();
    lemma_piece_at_facts(p, s);
    if p.castle_legal(m, true) || p.castle_legal(m, false) {
        assert(p.moved_type(m) == PieceType::King);
    } else if p.normal_legal(m) {
        assert(p.piece_at(s) == Some(Piece { type_: PieceType::Pawn, color: p.turn_ }));
        assert(!p.promotes_from(s));
    }
}


/// The en passant square a legal move leaves is the one the FEN text of the position it
/// makes describes.
#[verifier::rlimit(40)]
proof fn lemma_ep_in_text(p: BoardPosition, m: Move, r: BoardPosition)
    requires
        p.wf(),
        p.legal_spec(m),
        p.made(m, r),
    ensures
        r.ep == r.ep_from_builder(r.builder_model()),
{
    if p.ep_after(m) is Some {
        let d = m.dest.index();
        let v = p.ep_victim(m);
        lemma_double_push_rank(p, m);
        assert(0 <= fl(d) < 8);
        crate::types::lemma_square_at_range(v);
        let j = choose|j: int| #[trigger] p.moved_piece_at(m, j) == Some(Piece { type_: PieceType::Pawn, color: p.turn_.other() })
            && 0 <= j < 64 && rk(j) == rk(d) && (fl(j) == fl(d) + 1 || fl(j) == fl(d) - 1);
        assert(r.piece_at(j) == p.moved_piece_at(m, j));
        let f = fl(d);
        assert(square_at(v).file() == f);
        assert(v == crate::builder::ep_rank_of(r.turn_) * 8 + f);
        assert(r.ep_from_builder(r.builder_model()) == r.ep);
    }
}

/// The FEN text of the position a legal move makes from a sane position reads back: the text
/// describes the position, and any well-formed position with its checkers and pinned pieces
/// that it describes is that position, so its hash keys, material, checkers and pinned pieces
/// are the same.
pub proof fn law_legal_move_fen_round_trip(p: BoardPosition, m: Move, r: BoardPosition, q: BoardPosition)
    requires
        p.perft_ok(1),
        p.sane_spec(),
        p.legal_spec(m),
        p.made(m, r),
        q.wf(),
        q.info_ok(),
        q.describes(r.builder_model()),
    ensures
        r.sane_spec(),
        crate::builder::fen_model(crate::builder::fen_text(r.builder_model(), crate::builder::ep_rank_of(r.turn_)))
            == Some(r.builder_model()),
        q == r,
{
    law_legal_move_keeps_sanity(p, m, r);
    lemma_ep_in_text(p, m, r);
    crate::fen_laws::law_position_fen_round_trip(r, q);
}

} // verus!
