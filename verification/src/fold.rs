//! Sums and exclusive-ors of per-square quantities over the board.
use vstd::prelude::*;

verus! {

/// `f(0) + ... + f(n - 1)`.
pub open spec fn sum_upto(f: spec_fn(int) -> int, n: int) -> int
    decreases n,
{
    if n <= 0 {
        0
    } else {
        sum_upto(f, n - 1) + f(n - 1)
    }
}

/// `f(0) ^ ... ^ f(n - 1)`.
pub open spec fn xor_upto(f: spec_fn(int) -> u64, n: int) -> u64
    decreases n,
{
    if n <= 0 {
        0
    } else {
        xor_upto(f, n - 1) ^ f(n - 1)
    }
}

/// Changing one term changes a sum by the difference of that term.
pub proof fn lemma_sum_update(f: spec_fn(int) -> int, g: spec_fn(int) -> int, s: int, n: int)
    requires
        forall|i: int| i != s ==> #[trigger] f(i) == g(i),
    ensures
        sum_upto(g, n) == sum_upto(f, n) + if 0 <= s < n { g(s) - f(s) } else { 0 },
    decreases n,
{
    if n > 0 {
        lemma_sum_update(f, g, s, n - 1);
    }
}

/// Functions that agree on `0..n` have the same sum there.
pub proof fn lemma_sum_ext(f: spec_fn(int) -> int, g: spec_fn(int) -> int, n: int)
    requires
        forall|i: int| 0 <= i < n ==> #[trigger] f(i) == g(i),
    ensures
        sum_upto(g, n) == sum_upto(f, n),
    decreases n,
{
    if n > 0 {
        lemma_sum_ext(f, g, n - 1);
    }
}

/// A sum of terms each within `0..=m` lies within `0..=n * m`.
pub proof fn lemma_sum_bounds(f: spec_fn(int) -> int, n: int, m: int)
    requires
        n >= 0,
        m >= 0,
        forall|i: int| 0 <= i < n ==> 0 <= #[trigger] f(i) <= m,
    ensures
        0 <= sum_upto(f, n) <= n * m,
    decreases n,
{
    if n > 0 {
        lemma_sum_bounds(f, n - 1, m);
        assert((n - 1) * m + m == n * m) by (nonlinear_arith);
    }
}

proof fn lemma_xor_facts(a: u64, x: u64, y: u64)
    by (bit_vector)
    ensures
        (a ^ x) ^ y == (a ^ y) ^ x,
        a ^ 0 == a,
        (a ^ x) ^ x == a,
        a ^ (x ^ y) == (a ^ x) ^ y,
        0 ^ a == a,
{
}

/// `0` is neutral for exclusive-or on either side.
pub proof fn lemma_xor_zero(a: u64)
    ensures
        a ^ 0 == a,
        0 ^ a == a,
{
    lemma_xor_facts(a, 0, 0);
}

/// Changing one term changes an exclusive-or by both values of that term.
pub proof fn lemma_xor_update(f: spec_fn(int) -> u64, g: spec_fn(int) -> u64, s: int, n: int)
    requires
        forall|i: int| i != s ==> #[trigger] f(i) == g(i),
    ensures
        xor_upto(g, n) == if 0 <= s < n { xor_upto(f, n) ^ (f(s) ^ g(s)) } else { xor_upto(f, n) },
    decreases n,
{
    if n > 0 {
        lemma_xor_update(f, g, s, n - 1);
        let a = xor_upto(f, n - 1);
        if 0 <= s < n - 1 {
            lemma_xor_facts(a, f(s) ^ g(s), f(n - 1));
            lemma_xor_facts(a, f(n - 1), f(s) ^ g(s));
        } else if s == n - 1 {
            lemma_xor_facts(a, f(s), g(s));
            lemma_xor_facts(a ^ f(s), f(s), g(s));
            lemma_xor_facts(a, f(s), f(s));
        }
    }
}

/// The exclusive-or of zero terms is zero.
pub proof fn lemma_xor_all_zero(f: spec_fn(int) -> u64, n: int)
    requires
        forall|i: int| 0 <= i < n ==> #[trigger] f(i) == 0,
    ensures
        xor_upto(f, n) == 0,
    decreases n,
{
    if n > 0 {
        lemma_xor_all_zero(f, n - 1);
        lemma_xor_zero(0);
    }
}

/// Functions that agree on `0..n` have the same exclusive-or there.
pub proof fn lemma_xor_ext(f: spec_fn(int) -> u64, g: spec_fn(int) -> u64, n: int)
    requires
        forall|i: int| 0 <= i < n ==> #[trigger] f(i) == g(i),
    ensures
        xor_upto(g, n) == xor_upto(f, n),
    decreases n,
{
    if n > 0 {
        lemma_xor_ext(f, g, n - 1);
    }
}

} // verus!
