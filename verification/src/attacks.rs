//! Which squares a piece on a given square attacks or may move to.
use vstd::prelude::*;
use crate::bitboard::BitBoard;
use crate::bits::{bit, group_bit_facts};
use crate::types::{group_square_facts, Color, Square};

verus! {

broadcast use group_bit_facts, group_square_facts;

pub open spec fn rk(a: int) -> int {
    a / 8
}

pub open spec fn fl(a: int) -> int {
    a % 8
}

pub open spec fn abs(x: int) -> int {
    if x < 0 {
        -x
    } else {
        x
    }
}

pub open spec fn sign(x: int) -> int {
    if x > 0 {
        1
    } else if x < 0 {
        -1
    } else {
        0
    }
}

/// Do the coordinates name a square of the board?
pub open spec fn on_board(r: int, f: int) -> bool {
    0 <= r < 8 && 0 <= f < 8
}

/// `t` steps of a unit move `d` in {-1, 0, 1}.
pub open spec fn step(d: int, t: int) -> int {
    if d > 0 {
        t
    } else if d < 0 {
        -t
    } else {
        0
    }
}

/// Chebyshev distance between two squares.
pub open spec fn dist(a: int, b: int) -> int {
    let dr = abs(rk(b) - rk(a));
    let df = abs(fl(b) - fl(a));
    if dr > df {
        dr
    } else {
        df
    }
}

/// The square `t` steps away from `a` in direction `(dr, df)`.
pub open spec fn ray_square(a: int, dr: int, df: int, t: int) -> int {
    8 * (rk(a) + step(dr, t)) + (fl(a) + step(df, t))
}

/// Is `(dr, df)` one of the eight unit directions?
pub open spec fn unit_dir(dr: int, df: int) -> bool {
    -1 <= dr <= 1 && -1 <= df <= 1 && (dr != 0 || df != 0)
}

/// Does `b` lie on the board, strictly away from `a`, in direction `(dr, df)`?
pub open spec fn on_ray(a: int, dr: int, df: int, b: int) -> bool {
    &&& 0 <= b < 64
    &&& dist(a, b) >= 1
    &&& rk(b) == rk(a) + step(dr, dist(a, b))
    &&& fl(b) == fl(a) + step(df, dist(a, b))
}

/// A piece sliding from `a` in direction `(dr, df)` reaches `b`: `b` is on that ray and no
/// square of `occupied` lies strictly between them.
pub open spec fn ray_attack(a: int, dr: int, df: int, b: int, occupied: u64) -> bool {
    &&& on_ray(a, dr, df, b)
    &&& forall|s: int| 1 <= s < dist(a, b) ==> !bit(occupied, #[trigger] ray_square(a, dr, df, s))
}

pub open spec fn rook_attack(a: int, b: int, occupied: u64) -> bool {
    ||| ray_attack(a, 1, 0, b, occupied)
    ||| ray_attack(a, -1, 0, b, occupied)
    ||| ray_attack(a, 0, 1, b, occupied)
    ||| ray_attack(a, 0, -1, b, occupied)
}

pub open spec fn bishop_attack(a: int, b: int, occupied: u64) -> bool {
    ||| ray_attack(a, 1, 1, b, occupied)
    ||| ray_attack(a, 1, -1, b, occupied)
    ||| ray_attack(a, -1, 1, b, occupied)
    ||| ray_attack(a, -1, -1, b, occupied)
}

pub open spec fn knight_attack(a: int, b: int) -> bool {
    let dr = abs(rk(b) - rk(a));
    let df = abs(fl(b) - fl(a));
    0 <= a < 64 && 0 <= b < 64 && ((dr == 1 && df == 2) || (dr == 2 && df == 1))
}

pub open spec fn king_attack(a: int, b: int) -> bool {
    0 <= a < 64 && 0 <= b < 64 && a != b && abs(rk(b) - rk(a)) <= 1 && abs(fl(b) - fl(a)) <= 1
}

/// Direction in which pawns of `color` advance.
pub open spec fn pawn_dir(color: Color) -> int {
    if color == Color::White {
        1
    } else {
        -1
    }
}

/// A pawn of `color` on `a` attacks `b` (diagonally forward).
pub open spec fn pawn_attack(color: Color, a: int, b: int) -> bool {
    0 <= a < 64 && 0 <= b < 64 && rk(b) == rk(a) + pawn_dir(color) && abs(fl(b) - fl(a)) == 1
}

/// A pawn of `color` on `a` may advance to the empty square `b` (one step, or two from its
/// starting rank over an empty square).
pub open spec fn pawn_push(color: Color, a: int, b: int, occupied: u64) -> bool {
    let start = if color == Color::White { 1int } else { 6int };
    0 <= a < 64 && 0 <= b < 64 && fl(b) == fl(a) && !bit(occupied, b) && (rk(b) == rk(a)
        + pawn_dir(color) || (rk(a) == start && rk(b) == rk(a) + 2 * pawn_dir(color) && !bit(
        occupied,
        a + 8 * pawn_dir(color),
    )))
}

/// `m` with the square at `(r, f)` added, when that square is on the board.
fn add_square(m: u64, r: i64, f: i64) -> (res: u64)
    requires
        -8 <= r <= 16,
        -8 <= f <= 16,
    ensures
        forall|b: int| #[trigger] bit(res, b) == (bit(m, b) || (on_board(r as int, f as int) && b == 8
            * r + f)),
{
    if 0 <= r && r < 8 && 0 <= f && f < 8 {
        let sq = (8 * r + f) as u64;
        m | (1u64 << sq)
    } else {
        m
    }
}

/// `m` with the square `(dr, df)` away from `a` added, when it is on the board.
fn add_offset(m: u64, a: u64, dr: i64, df: i64) -> (res: u64)
    requires
        a < 64,
        -2 <= dr <= 2,
        -2 <= df <= 2,
    ensures
        forall|b: int| #[trigger] bit(res, b) == (bit(m, b) || (on_board(rk(a as int) + dr, fl(a as int)
            + df) && b == 8 * (rk(a as int) + dr) + fl(a as int) + df)),
{
    add_square(m, (a / 8) as i64 + dr, (a % 8) as i64 + df)
}

proof fn lemma_coords(b: int)
    requires
        0 <= b < 64,
    ensures
        b == 8 * rk(b) + fl(b),
        0 <= rk(b) < 8,
        0 <= fl(b) < 8,
{
}

proof fn lemma_coords_of(r: int, f: int)
    requires
        on_board(r, f),
    ensures
        rk(8 * r + f) == r,
        fl(8 * r + f) == f,
        0 <= 8 * r + f < 64,
{
}

proof fn lemma_ray_square(a: int, dr: int, df: int, t: int)
    requires
        0 <= a < 64,
        unit_dir(dr, df),
        t >= 1,
        on_board(rk(a) + step(dr, t), fl(a) + step(df, t)),
    ensures
        on_ray(a, dr, df, ray_square(a, dr, df, t)),
        dist(a, ray_square(a, dr, df, t)) == t,
{
    lemma_coords_of(rk(a) + step(dr, t), fl(a) + step(df, t));
}

proof fn lemma_on_ray(a: int, dr: int, df: int, b: int)
    requires
        0 <= a < 64,
        on_ray(a, dr, df, b),
    ensures
        b == ray_square(a, dr, df, dist(a, b)),
{
    lemma_coords(b);
}

/// The squares a piece on `a` sliding in direction `(dr, df)` reaches.
fn ray_moves(a: u64, dr: i64, df: i64, occupied: u64) -> (res: u64)
    requires
        a < 64,
        unit_dir(dr as int, df as int),
    ensures
        forall|b: int| #[trigger] bit(res, b) == ray_attack(a as int, dr as int, df as int, b, occupied),
{
    let ghost ai = a as int;
    let ghost dri = dr as int;
    let ghost dfi = df as int;
    proof {
        lemma_coords(ai);
    }
    let ra = (a / 8) as i64;
    let fa = (a % 8) as i64;
    let mut r = ra + dr;
    let mut f = fa + df;
    let mut t: i64 = 1;
    let mut m: u64 = 0;
    let mut blocked = false;
    while !blocked && 0 <= r && r < 8 && 0 <= f && f < 8
        invariant
            0 <= ai < 64,
            ai == a,
            ra == rk(ai),
            fa == fl(ai),
            dri == dr,
            dfi == df,
            unit_dir(dri, dfi),
            1 <= t <= 9,
            r == ra + step(dri, t as int),
            f == fa + step(dfi, t as int),
            forall|b: int| #[trigger] bit(m, b) == (ray_attack(ai, dri, dfi, b, occupied) && dist(ai, b) < t),
            !blocked ==> forall|s: int| 1 <= s < t ==> !bit(occupied, #[trigger] ray_square(ai, dri, dfi, s)),
            blocked ==> t >= 2 && bit(occupied, ray_square(ai, dri, dfi, t - 1)),
        decreases 10 - t + (if blocked { 0int } else { 1 }),
    {
        let sq = (8 * r + f) as u64;
        proof {
            lemma_ray_square(ai, dri, dfi, t as int);
            assert(sq == ray_square(ai, dri, dfi, t as int));
        }
        let ghost old_m = m;
        m = m | (1u64 << sq);
        proof {
            assert forall|b: int| #[trigger] bit(m, b) == (ray_attack(ai, dri, dfi, b, occupied) && dist(ai, b) < t + 1) by {
                if b == sq {
                } else if bit(old_m, b) {
                } else if ray_attack(ai, dri, dfi, b, occupied) && dist(ai, b) < t + 1 {
                    lemma_on_ray(ai, dri, dfi, b);
                    assert(dist(ai, b) == t);
                }
            }
        }
        if (occupied >> sq) & 1 == 1 {
            blocked = true;
        }
        r = r + dr;
        f = f + df;
        t = t + 1;
    }
    proof {
        assert forall|b: int| #[trigger] bit(m, b) == ray_attack(ai, dri, dfi, b, occupied) by {
            if ray_attack(ai, dri, dfi, b, occupied) && dist(ai, b) >= t {
                lemma_on_ray(ai, dri, dfi, b);
                lemma_coords(b);
                if blocked {
                    assert(!bit(occupied, ray_square(ai, dri, dfi, t - 1)));
                } else {
                    assert(on_board(rk(b), fl(b)));
                }
            }
        }
    }
    m
}

/// Squares a rook on `square` attacks, given the `blockers`.
pub fn get_rook_moves(square: Square, blockers: BitBoard) -> (r: BitBoard)
    ensures
        forall|b: int| #[trigger] r.has(b) == rook_attack(square.index(), b, blockers.0),
{
    let a = square.to_index() as u64;
    let m = ray_moves(a, 1, 0, blockers.0) | ray_moves(a, -1, 0, blockers.0) | ray_moves(
        a,
        0,
        1,
        blockers.0,
    ) | ray_moves(a, 0, -1, blockers.0);
    BitBoard(m)
}

/// Squares a bishop on `square` attacks, given the `blockers`.
pub fn get_bishop_moves(square: Square, blockers: BitBoard) -> (r: BitBoard)
    ensures
        forall|b: int| #[trigger] r.has(b) == bishop_attack(square.index(), b, blockers.0),
{
    let a = square.to_index() as u64;
    let m = ray_moves(a, 1, 1, blockers.0) | ray_moves(a, 1, -1, blockers.0) | ray_moves(
        a,
        -1,
        1,
        blockers.0,
    ) | ray_moves(a, -1, -1, blockers.0);
    BitBoard(m)
}

/// Squares a queen on `square` attacks, given the `blockers`.
pub fn get_queen_moves(square: Square, blockers: BitBoard) -> (r: BitBoard)
    ensures
        forall|b: int| #[trigger] r.has(b) == (rook_attack(square.index(), b, blockers.0)
            || bishop_attack(square.index(), b, blockers.0)),
{
    get_rook_moves(square, blockers).or(get_bishop_moves(square, blockers))
}

/// `a` and `b` are distinct squares on a common rank, file or diagonal.
pub open spec fn aligned(a: int, b: int) -> bool {
    &&& 0 <= a < 64
    &&& 0 <= b < 64
    &&& a != b
    &&& (rk(a) == rk(b) || fl(a) == fl(b) || abs(rk(b) - rk(a)) == abs(fl(b) - fl(a)))
}

/// `c` lies strictly between the aligned squares `a` and `b`.
pub open spec fn between_spec(a: int, b: int, c: int) -> bool {
    &&& aligned(a, b)
    &&& on_ray(a, sign(rk(b) - rk(a)), sign(fl(b) - fl(a)), c)
    &&& dist(a, c) < dist(a, b)
}

/// `c` lies on the full line (rank, file or diagonal) through the aligned squares `a` and `b`.
pub open spec fn line_spec(a: int, b: int, c: int) -> bool {
    let dr = sign(rk(b) - rk(a));
    let df = sign(fl(b) - fl(a));
    aligned(a, b) && (c == a || on_ray(a, dr, df, c) || on_ray(a, -dr, -df, c))
}

proof fn lemma_aligned_dir(a: int, b: int)
    requires
        aligned(a, b),
    ensures
        unit_dir(sign(rk(b) - rk(a)), sign(fl(b) - fl(a))),
        on_ray(a, sign(rk(b) - rk(a)), sign(fl(b) - fl(a)), b),
{
    lemma_coords(a);
    lemma_coords(b);
}

/// Squares of the castle king destinations of both sides (c, e and g files of the back ranks).
pub fn get_castle_moves() -> (r: BitBoard)
    ensures
        forall|i: int| #[trigger] r.has(i) == (i == 2 || i == 4 || i == 6 || i == 58 || i == 60 || i == 62),
{
    BitBoard((1u64 << 2u64) | (1u64 << 4u64) | (1u64 << 6u64) | (1u64 << 58u64) | (1u64 << 60u64) | (1u64 << 62u64))
}

/// Squares from which a pawn may advance two squares (ranks 2 and 7).
pub fn get_pawn_source_double_moves() -> (r: BitBoard)
    ensures
        forall|i: int| #[trigger] r.has(i) == (0 <= i < 64 && (rk(i) == 1 || rk(i) == 6)),
{
    crate::bitboard::rank_mask(1).or(crate::bitboard::rank_mask(6))
}

/// Squares a pawn reaches when it advances two squares (ranks 4 and 5).
pub fn get_pawn_dest_double_moves() -> (r: BitBoard)
    ensures
        forall|i: int| #[trigger] r.has(i) == (0 <= i < 64 && (rk(i) == 3 || rk(i) == 4)),
{
    crate::bitboard::rank_mask(3).or(crate::bitboard::rank_mask(4))
}

impl Square {
    /// Squares a bishop on this square attacks on an empty board.
    pub fn get_bishop_rays_bb(self) -> (r: BitBoard)
        ensures
            forall|b: int| #[trigger] r.has(b) == bishop_attack(self.index(), b, 0),
    {
        get_bishop_moves(self, BitBoard(0))
    }

    /// Squares a rook on this square attacks on an empty board.
    pub fn get_rook_rays_bb(self) -> (r: BitBoard)
        ensures
            forall|b: int| #[trigger] r.has(b) == rook_attack(self.index(), b, 0),
    {
        get_rook_moves(self, BitBoard(0))
    }

    /// The squares strictly between this square and `other` when both lie on a common rank,
    /// file or diagonal; otherwise no square.
    pub fn between(self, other: Square) -> (r: BitBoard)
        ensures
            forall|c: int| #[trigger] r.has(c) == between_spec(self.index(), other.index(), c),
    {
        let a = self.to_index() as i64;
        let b = other.to_index() as i64;
        let (ra, fa, rb, fb) = (a / 8, a % 8, b / 8, b % 8);
        let dr: i64 = if rb > ra { 1 } else if rb < ra { -1 } else { 0 };
        let df: i64 = if fb > fa { 1 } else if fb < fa { -1 } else { 0 };
        let drr = if rb > ra { rb - ra } else { ra - rb };
        let dff = if fb > fa { fb - fa } else { fa - fb };
        let ghost ai = a as int;
        let ghost bi = b as int;
        if a == b || !(ra == rb || fa == fb || drr == dff) {
            return BitBoard(0);
        }
        proof {
            lemma_aligned_dir(ai, bi);
            lemma_coords(ai);
        }
        let n = if drr > dff { drr } else { dff };
        let mut m: u64 = 0;
        let mut t: i64 = 1;
        let mut r = ra + dr;
        let mut f = fa + df;
        while t < n
            invariant
                0 <= ai < 64,
                aligned(ai, bi),
                ra == rk(ai),
                fa == fl(ai),
                dr == sign(rk(bi) - rk(ai)),
                df == sign(fl(bi) - fl(ai)),
                unit_dir(dr as int, df as int),
                n == dist(ai, bi),
                1 <= t <= n,
                r == ra + step(dr as int, t as int),
                f == fa + step(df as int, t as int),
                forall|c: int| #[trigger] bit(m, c) == (on_ray(ai, dr as int, df as int, c) && dist(ai, c) < t),
            decreases n - t,
        {
            proof {
                lemma_on_ray(ai, dr as int, df as int, bi);
                assert(on_board(r as int, f as int));
                lemma_ray_square(ai, dr as int, df as int, t as int);
            }
            let sq = (8 * r + f) as u64;
            let ghost old_m = m;
            m = m | (1u64 << sq);
            proof {
                assert forall|c: int| #[trigger] bit(m, c) == (on_ray(ai, dr as int, df as int, c) && dist(ai, c) < t + 1) by {
                    if on_ray(ai, dr as int, df as int, c) && dist(ai, c) == t {
                        lemma_on_ray(ai, dr as int, df as int, c);
                    }
                }
            }
            r = r + dr;
            f = f + df;
            t = t + 1;
        }
        BitBoard(m)
    }

    /// The full rank, file or diagonal through this square and `other`, or no square when they
    /// are not aligned.
    pub fn line(self, other: Square) -> (r: BitBoard)
        ensures
            forall|c: int| #[trigger] r.has(c) == line_spec(self.index(), other.index(), c),
    {
        let a = self.to_index() as i64;
        let b = other.to_index() as i64;
        let (ra, fa, rb, fb) = (a / 8, a % 8, b / 8, b % 8);
        let dr: i64 = if rb > ra { 1 } else if rb < ra { -1 } else { 0 };
        let df: i64 = if fb > fa { 1 } else if fb < fa { -1 } else { 0 };
        let drr = if rb > ra { rb - ra } else { ra - rb };
        let dff = if fb > fa { fb - fa } else { fa - fb };
        if a == b || !(ra == rb || fa == fb || drr == dff) {
            return BitBoard(0);
        }
        proof {
            lemma_aligned_dir(a as int, b as int);
        }
        let m = ray_moves(a as u64, dr, df, 0) | ray_moves(a as u64, -dr, -df, 0) | (1u64 << (a as u64));
        BitBoard(m)
    }
}

impl Square {
    /// Squares a knight on this square attacks.
    pub fn get_knight_moves(self) -> (r: BitBoard)
        ensures
            forall|b: int| #[trigger] r.has(b) == knight_attack(self.index(), b),
    {
        let a = self.to_index() as u64;
        let mut m: u64 = 0;
        m = add_offset(m, a, 1, 2);
        m = add_offset(m, a, 1, -2);
        m = add_offset(m, a, -1, 2);
        m = add_offset(m, a, -1, -2);
        m = add_offset(m, a, 2, 1);
        m = add_offset(m, a, 2, -1);
        m = add_offset(m, a, -2, 1);
        m = add_offset(m, a, -2, -1);
        proof {
            assert forall|b: int| #[trigger] bit(m, b) == knight_attack(a as int, b) by {
                if 0 <= b < 64 {
                    lemma_coords(b);
                }
                let ai = a as int;
                assert(0 <= rk(ai) < 8 && 0 <= fl(ai) < 8);
                if on_board(rk(ai) + 1, fl(ai) + 2) { lemma_coords_of(rk(ai) + 1, fl(ai) + 2); }
                if on_board(rk(ai) + 1, fl(ai) - 2) { lemma_coords_of(rk(ai) + 1, fl(ai) - 2); }
                if on_board(rk(ai) - 1, fl(ai) + 2) { lemma_coords_of(rk(ai) - 1, fl(ai) + 2); }
                if on_board(rk(ai) - 1, fl(ai) - 2) { lemma_coords_of(rk(ai) - 1, fl(ai) - 2); }
                if on_board(rk(ai) + 2, fl(ai) + 1) { lemma_coords_of(rk(ai) + 2, fl(ai) + 1); }
                if on_board(rk(ai) + 2, fl(ai) - 1) { lemma_coords_of(rk(ai) + 2, fl(ai) - 1); }
                if on_board(rk(ai) - 2, fl(ai) + 1) { lemma_coords_of(rk(ai) - 2, fl(ai) + 1); }
                if on_board(rk(ai) - 2, fl(ai) - 1) { lemma_coords_of(rk(ai) - 2, fl(ai) - 1); }
            }
        }
        BitBoard(m)
    }

    /// Squares a king on this square attacks.
    pub fn get_king_moves(self) -> (r: BitBoard)
        ensures
            forall|b: int| #[trigger] r.has(b) == king_attack(self.index(), b),
    {
        let a = self.to_index() as u64;
        let mut m: u64 = 0;
        m = add_offset(m, a, 1, -1);
        m = add_offset(m, a, 1, 0);
        m = add_offset(m, a, 1, 1);
        m = add_offset(m, a, 0, -1);
        m = add_offset(m, a, 0, 1);
        m = add_offset(m, a, -1, -1);
        m = add_offset(m, a, -1, 0);
        m = add_offset(m, a, -1, 1);
        proof {
            assert forall|b: int| #[trigger] bit(m, b) == king_attack(a as int, b) by {
                if 0 <= b < 64 {
                    lemma_coords(b);
                }
                let ai = a as int;
                assert(0 <= rk(ai) < 8 && 0 <= fl(ai) < 8);
                if on_board(rk(ai) + 1, fl(ai) - 1) { lemma_coords_of(rk(ai) + 1, fl(ai) - 1); }
                if on_board(rk(ai) + 1, fl(ai)) { lemma_coords_of(rk(ai) + 1, fl(ai)); }
                if on_board(rk(ai) + 1, fl(ai) + 1) { lemma_coords_of(rk(ai) + 1, fl(ai) + 1); }
                if on_board(rk(ai), fl(ai) - 1) { lemma_coords_of(rk(ai), fl(ai) - 1); }
                if on_board(rk(ai), fl(ai) + 1) { lemma_coords_of(rk(ai), fl(ai) + 1); }
                if on_board(rk(ai) - 1, fl(ai) - 1) { lemma_coords_of(rk(ai) - 1, fl(ai) - 1); }
                if on_board(rk(ai) - 1, fl(ai)) { lemma_coords_of(rk(ai) - 1, fl(ai)); }
                if on_board(rk(ai) - 1, fl(ai) + 1) { lemma_coords_of(rk(ai) - 1, fl(ai) + 1); }
            }
        }
        BitBoard(m)
    }

    /// Squares of `targets` that a pawn of `color` on this square attacks.
    pub fn get_pawn_attacks(self, color: Color, targets: BitBoard) -> (r: BitBoard)
        ensures
            forall|b: int| #[trigger] r.has(b) == (pawn_attack(color, self.index(), b) && targets.has(b)),
    {
        let a = self.to_index() as u64;
        let d: i64 = match color {
            Color::White => 1,
            Color::Black => -1,
        };
        let mut m: u64 = 0;
        m = add_offset(m, a, d, -1);
        m = add_offset(m, a, d, 1);
        proof {
            assert forall|b: int| #[trigger] bit(m, b) == pawn_attack(color, a as int, b) by {
                if 0 <= b < 64 {
                    lemma_coords(b);
                }
                let ai = a as int;
                assert(0 <= rk(ai) < 8 && 0 <= fl(ai) < 8);
                if on_board(rk(ai) + d, fl(ai) - 1) { lemma_coords_of(rk(ai) + d, fl(ai) - 1); }
                if on_board(rk(ai) + d, fl(ai) + 1) { lemma_coords_of(rk(ai) + d, fl(ai) + 1); }
            }
        }
        BitBoard(m).and(targets)
    }

    /// Squares a pawn of `color` on this square may advance to, given the `occupied` squares.
    pub fn get_pawn_quiets(self, color: Color, occupied: BitBoard) -> (r: BitBoard)
        ensures
            forall|b: int| #[trigger] r.has(b) == pawn_push(color, self.index(), b, occupied.0),
    {
        let a = self.to_index() as u64;
        let (d, start): (i64, u64) = match color {
            Color::White => (1, 1),
            Color::Black => (-1, 6),
        };
        let r1 = (a / 8) as i64 + d;
        let f = (a % 8) as i64;
        let mut m: u64 = 0;
        proof {
            lemma_coords(a as int);
        }
        let ghost ai = a as int;
        let ghost dd = d as int;
        assert(dd == pawn_dir(color));
        assert(start == if color == Color::White { 1int } else { 6int });
        if 0 <= r1 && r1 < 8 {
            let one = (8 * r1 + f) as u64;
            proof {
                lemma_coords_of(r1 as int, f as int);
                assert(one == ai + 8 * dd);
            }
            if (occupied.0 >> one) & 1 != 1 {
                m = m | (1u64 << one);
                if a / 8 == start {
                    let two = (8 * (r1 + d) + f) as u64;
                    proof {
                        lemma_coords_of(r1 + d, f as int);
                    }
                    if (occupied.0 >> two) & 1 != 1 {
                        m = m | (1u64 << two);
                    }
                    proof {
                        assert forall|b: int| #[trigger] bit(m, b) == pawn_push(color, ai, b, occupied.0) by {
                            if 0 <= b < 64 {
                                lemma_coords(b);
                            }
                        }
                    }
                } else {
                    proof {
                        assert forall|b: int| #[trigger] bit(m, b) == pawn_push(color, ai, b, occupied.0) by {
                            if 0 <= b < 64 {
                                lemma_coords(b);
                            }
                        }
                    }
                }
            } else {
                proof {
                    assert forall|b: int| #[trigger] bit(m, b) == pawn_push(color, ai, b, occupied.0) by {
                        if 0 <= b < 64 {
                            lemma_coords(b);
                        }
                        if rk(ai) == start && rk(b) == rk(ai) + 2 * dd && fl(b) == fl(ai) {
                            assert(bit(occupied.0, ai + 8 * dd));
                        }
                    }
                }
            }
        } else {
            proof {
                assert forall|b: int| #[trigger] bit(m, b) == pawn_push(color, ai, b, occupied.0) by {
                    if 0 <= b < 64 {
                        lemma_coords(b);
                    }
                }
            }
        }
        BitBoard(m)
    }

    /// Squares a pawn of `color` on this square may move to: advances onto empty squares and
    /// captures onto `occupied` squares.
    pub fn get_pawn_moves(self, color: Color, occupied: BitBoard) -> (r: BitBoard)
        ensures
            forall|b: int| #[trigger] r.has(b) == (pawn_push(color, self.index(), b, occupied.0) || (
                pawn_attack(color, self.index(), b) && occupied.has(b))),
    {
        self.get_pawn_quiets(color, occupied).or(self.get_pawn_attacks(color, occupied))
    }
}

} // verus!
