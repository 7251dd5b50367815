//! Bit-level facts about 64-bit masks, shared by every bitboard proof.
use vstd::prelude::*;

verus! {

/// Is bit `i` of `x` set?  Only indices `0..64` can be set.
pub open spec fn bit(x: u64, i: int) -> bool {
    0 <= i < 64 && ((x >> (i as u64)) & 1u64) == 1u64
}

/// Number of set bits of `x` among the indices `0..n`.
pub open spec fn count_bits(x: u64, n: int) -> nat
    decreases n,
{
    if n <= 0 {
        0
    } else {
        count_bits(x, n - 1) + if bit(x, n - 1) { 1nat } else { 0nat }
    }
}

/// Number of set bits of `x`.
pub open spec fn popcount(x: u64) -> nat {
    count_bits(x, 64)
}

proof fn lemma_bit_ops_at(a: u64, b: u64, i: u64)
    by (bit_vector)
    requires
        i < 64,
    ensures
        ((a & b) >> i) & 1u64 == 1u64 <==> (((a >> i) & 1u64 == 1u64) && ((b >> i) & 1u64
            == 1u64)),
        ((a | b) >> i) & 1u64 == 1u64 <==> (((a >> i) & 1u64 == 1u64) || ((b >> i) & 1u64
            == 1u64)),
        ((a ^ b) >> i) & 1u64 == 1u64 <==> (((a >> i) & 1u64 == 1u64) != ((b >> i) & 1u64
            == 1u64)),
        ((!a) >> i) & 1u64 == 1u64 <==> !((a >> i) & 1u64 == 1u64),
{
}

proof fn lemma_single_bit_at(k: u64, i: u64)
    by (bit_vector)
    requires
        k < 64,
        i < 64,
    ensures
        ((1u64 << k) >> i) & 1u64 == 1u64 <==> i == k,
{
}

proof fn lemma_constants_at(i: u64)
    by (bit_vector)
    requires
        i < 64,
    ensures
        (0u64 >> i) & 1u64 != 1u64,
        (0xffff_ffff_ffff_ffffu64 >> i) & 1u64 == 1u64,
{
}

pub broadcast proof fn lemma_bit_and(a: u64, b: u64, i: int)
    ensures
        #[trigger] bit(a & b, i) == (bit(a, i) && bit(b, i)),
{
    if 0 <= i < 64 {
        lemma_bit_ops_at(a, b, i as u64);
    }
}

pub broadcast proof fn lemma_bit_or(a: u64, b: u64, i: int)
    ensures
        #[trigger] bit(a | b, i) == (bit(a, i) || bit(b, i)),
{
    if 0 <= i < 64 {
        lemma_bit_ops_at(a, b, i as u64);
    }
}

pub broadcast proof fn lemma_bit_xor(a: u64, b: u64, i: int)
    ensures
        #[trigger] bit(a ^ b, i) == (bit(a, i) != bit(b, i)),
{
    if 0 <= i < 64 {
        lemma_bit_ops_at(a, b, i as u64);
    }
}

pub broadcast proof fn lemma_bit_not(a: u64, i: int)
    ensures
        #[trigger] bit(!a, i) == (0 <= i < 64 && !bit(a, i)),
{
    if 0 <= i < 64 {
        lemma_bit_ops_at(a, a, i as u64);
    }
}

pub broadcast proof fn lemma_bit_single(k: u64, i: int)
    requires
        k < 64,
    ensures
        #[trigger] bit(1u64 << k, i) == (i == k),
{
    if 0 <= i < 64 {
        lemma_single_bit_at(k, i as u64);
    }
}

pub broadcast proof fn lemma_bit_zero(i: int)
    ensures
        !#[trigger] bit(0u64, i),
{
    if 0 <= i < 64 {
        lemma_constants_at(i as u64);
    }
}

pub broadcast proof fn lemma_bit_all(i: int)
    ensures
        #[trigger] bit(0xffff_ffff_ffff_ffffu64, i) == (0 <= i < 64),
{
    if 0 <= i < 64 {
        lemma_constants_at(i as u64);
    }
}

pub broadcast group group_bit_facts {
    lemma_bit_and,
    lemma_bit_or,
    lemma_bit_xor,
    lemma_bit_not,
    lemma_bit_single,
    lemma_bit_zero,
    lemma_bit_all,
}

proof fn lemma_xor_zero(a: u64, b: u64)
    by (bit_vector)
    ensures
        (a ^ b == 0u64) == (a == b),
{
}

/// A mask is zero exactly when none of its bits is set.
pub proof fn lemma_zero_iff_no_bits(x: u64)
    ensures
        (x == 0) == (forall|i: int| !#[trigger] bit(x, i)),
{
    broadcast use vstd::std_specs::bits::axiom_u64_trailing_zeros, lemma_bit_zero;

    if x != 0 {
        let t = vstd::std_specs::bits::u64_trailing_zeros(x);
        assert(bit(x, t as int));
    }
}

/// Two masks are equal exactly when they agree on every bit.
pub proof fn lemma_eq_iff_bits(a: u64, b: u64)
    ensures
        (a == b) == (forall|i: int| #[trigger] bit(a, i) == bit(b, i)),
{
    broadcast use lemma_bit_xor;

    lemma_zero_iff_no_bits(a ^ b);
    lemma_xor_zero(a, b);
    if forall|i: int| #[trigger] bit(a, i) == bit(b, i) {
        assert forall|i: int| !#[trigger] bit(a ^ b, i) by {
            assert(bit(a, i) == bit(b, i));
        }
    }
}

/// Counting the set bits of the prefix `0..n` of a mask.
pub proof fn lemma_count_bits_bound(x: u64, n: int)
    ensures
        count_bits(x, n) <= if n < 0 { 0 } else { n },
    decreases n,
{
    if n > 0 {
        lemma_count_bits_bound(x, n - 1);
    }
}

/// Masks that agree on the prefix `0..n` have the same number of bits there.
pub proof fn lemma_count_bits_ext(x: u64, y: u64, n: int)
    requires
        forall|i: int| 0 <= i < n ==> bit(x, i) == bit(y, i),
    ensures
        count_bits(x, n) == count_bits(y, n),
    decreases n,
{
    if n > 0 {
        lemma_count_bits_ext(x, y, n - 1);
    }
}

/// A mask without set bits in `0..n` counts zero there, and conversely.
pub proof fn lemma_count_bits_zero(x: u64, n: int)
    ensures
        (count_bits(x, n) == 0) == (forall|i: int| 0 <= i < n ==> !bit(x, i)),
    decreases n,
{
    if n > 0 {
        lemma_count_bits_zero(x, n - 1);
    }
}

/// `i` is the only set bit of `x` among `0..n`.
pub open spec fn only_bit(x: u64, n: int, i: int) -> bool {
    0 <= i < n && bit(x, i) && forall|j: int| 0 <= j < n && j != i ==> !#[trigger] bit(x, j)
}

/// A prefix counting one set bit holds exactly one, and it is returned.
pub proof fn lemma_count_bits_one_witness(x: u64, n: int) -> (i: int)
    requires
        count_bits(x, n) == 1,
    ensures
        only_bit(x, n, i),
    decreases n,
{
    lemma_count_bits_zero(x, n - 1);
    if bit(x, n - 1) {
        assert forall|j: int| 0 <= j < n && j != n - 1 implies !#[trigger] bit(x, j) by {}
        n - 1
    } else {
        let i = lemma_count_bits_one_witness(x, n - 1);
        assert forall|j: int| 0 <= j < n && j != i implies !#[trigger] bit(x, j) by {}
        i
    }
}

/// A prefix holding exactly one set bit counts one.
pub proof fn lemma_count_bits_one(x: u64, n: int, i: int)
    requires
        only_bit(x, n, i),
    ensures
        count_bits(x, n) == 1,
    decreases n,
{
    lemma_count_bits_zero(x, n - 1);
    if i == n - 1 {
        assert forall|j: int| 0 <= j < n - 1 implies !bit(x, j) by {}
    } else {
        assert(!bit(x, n - 1));
        assert forall|j: int| 0 <= j < n - 1 && j != i implies !#[trigger] bit(x, j) by {}
        lemma_count_bits_one(x, n - 1, i);
    }
}

/// Setting one more bit, below `n`, adds one to the count of `0..n`.
pub proof fn lemma_count_bits_add(x: u64, y: u64, s: int, n: int)
    requires
        0 <= s < n,
        !bit(x, s),
        bit(y, s),
        forall|i: int| 0 <= i < n && i != s ==> bit(x, i) == bit(y, i),
    ensures
        count_bits(y, n) == count_bits(x, n) + 1,
    decreases n,
{
    if n - 1 == s {
        lemma_count_bits_ext(x, y, n - 1);
    } else {
        lemma_count_bits_add(x, y, s, n - 1);
    }
}

/// A mask whose bits all belong to another counts no more bits.
pub proof fn lemma_count_bits_subset(x: u64, y: u64, n: int)
    requires
        forall|i: int| #[trigger] bit(x, i) ==> bit(y, i),
    ensures
        count_bits(x, n) <= count_bits(y, n),
    decreases n,
{
    if n > 0 {
        lemma_count_bits_subset(x, y, n - 1);
    }
}

/// The mask with the bits `d < n` for which `p(d)` holds.
pub open spec fn mask_of(p: spec_fn(int) -> bool, n: int) -> u64
    decreases n,
{
    if n <= 0 {
        0
    } else {
        mask_of(p, n - 1) | if p(n - 1) { 1u64 << ((n - 1) as u64) } else { 0u64 }
    }
}

/// The mask of `p` holds exactly the bits below `n` where `p` holds.
pub proof fn lemma_mask_of(p: spec_fn(int) -> bool, n: int)
    requires
        0 <= n <= 64,
    ensures
        forall|d: int| #[trigger] bit(mask_of(p, n), d) == (0 <= d < n && p(d)),
    decreases n,
{
    broadcast use group_bit_facts;
    if n > 0 {
        lemma_mask_of(p, n - 1);
        assert forall|d: int| #[trigger] bit(mask_of(p, n), d) == (0 <= d < n && p(d)) by {
            assert(bit(mask_of(p, n - 1), d) == (0 <= d < n - 1 && p(d)));
        }
    }
}

} // verus!
