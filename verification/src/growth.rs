//! Capacity arithmetic shared by the growable containers.

use vstd::prelude::*;
use vstd::arithmetic::power2::{
    lemma2_to64, lemma_pow2_pos, lemma_pow2_strictly_increases, lemma_pow2_unfold, pow2,
};

verus! {

/// The smallest member of the doubling chain `from, 2*from, 4*from, ..` that
/// is at least `n`.
pub open spec fn doubled_until(n: nat, from: nat) -> nat
    decreases (if from < n { n - from } else { 0 }),
{
    if from >= n || from == 0 {
        from
    } else {
        doubled_until(n, 2 * from)
    }
}

/// The smallest power of two that is at least `n` (1 for `n == 0`).
pub open spec fn next_pow2(n: nat) -> nat {
    doubled_until(n, 1)
}

/// Bounds of the doubling chain that starts at `from`.
pub proof fn lemma_doubled_until_bounds(n: nat, from: nat)
    requires
        from >= 1,
    ensures
        doubled_until(n, from) >= from,
        doubled_until(n, from) >= n,
        from < n ==> doubled_until(n, from) < 2 * n,
    decreases (if from < n { n - from } else { 0 }),
{
    if from < n {
        lemma_doubled_until_bounds(n, 2 * from);
    }
}

/// The exponent of [`next_pow2`]: `next_pow2(n)` is `2^k` for the least `k`
/// with `2^k >= n`. So it is at least `n`, and below `2 * n` unless `n`
/// is 0.
pub proof fn lemma_next_pow2_exponent(n: nat) -> (k: nat)
    ensures
        next_pow2(n) == pow2(k),
        pow2(k) >= n,
        k > 0 ==> pow2((k - 1) as nat) < n,
        n >= 1 ==> next_pow2(n) < 2 * n,
{
    lemma2_to64();
    lemma_doubled_until_bounds(n, 1);
    lemma_doubling_exponent(n, 0)
}

proof fn lemma_doubling_exponent(n: nat, e: nat) -> (k: nat)
    requires
        e > 0 ==> pow2((e - 1) as nat) < n,
    ensures
        k >= e,
        doubled_until(n, pow2(e)) == pow2(k),
        pow2(k) >= n,
        k > 0 ==> pow2((k - 1) as nat) < n,
    decreases (if pow2(e) < n { n - pow2(e) } else { 0 }),
{
    lemma_pow2_pos(e);
    if pow2(e) >= n {
        e
    } else {
        lemma_pow2_unfold(e + 1);
        lemma_doubling_exponent(n, e + 1)
    }
}

/// The power of two that reaches `n` while the one before it does not is
/// [`next_pow2`] of `n`.
pub proof fn lemma_next_pow2_unique(n: nat, j: nat)
    requires
        pow2(j) >= n,
        j > 0 ==> pow2((j - 1) as nat) < n,
    ensures
        next_pow2(n) == pow2(j),
{
    let k = lemma_next_pow2_exponent(n);
    if k < j {
        if k < j - 1 {
            lemma_pow2_strictly_increases(k, (j - 1) as nat);
        }
    } else if j < k {
        if j < k - 1 {
            lemma_pow2_strictly_increases(j, (k - 1) as nat);
        }
    }
}

/// A larger number has the larger, or the same, next power of two.
pub proof fn lemma_next_pow2_monotone(a: nat, b: nat)
    requires
        a <= b,
    ensures
        next_pow2(a) <= next_pow2(b),
{
    let ka = lemma_next_pow2_exponent(a);
    let kb = lemma_next_pow2_exponent(b);
    if ka > kb {
        if kb < ka - 1 {
            lemma_pow2_strictly_increases(kb, (ka - 1) as nat);
        }
    } else if ka < kb {
        lemma_pow2_strictly_increases(ka, kb);
    }
}

/// Computes the smallest power of two that is at least `n`.
pub fn next_power_of_two(n: usize) -> (r: usize)
    requires
        next_pow2(n as nat) <= usize::MAX,
    ensures
        r == next_pow2(n as nat),
{
    let mut p: usize = 1;
    while p < n
        invariant
            p >= 1,
            doubled_until(n as nat, p as nat) == next_pow2(n as nat),
            next_pow2(n as nat) <= usize::MAX,
        decreases (if p < n { n - p } else { 0 }),
    {
        proof {
            lemma_doubled_until_bounds(n as nat, 2 * (p as nat));
        }
        p = p * 2;
    }
    p
}

} // verus!
