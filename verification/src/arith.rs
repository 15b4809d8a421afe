//! Wrapping 64-bit arithmetic used by the running accumulators.
//!
//! The monitor's counters and totals are `u64` values that wrap on
//! overflow, exactly as the accumulators of a fixed-width register would.
//! The spec-level model is arithmetic modulo 2^64.

use vstd::prelude::*;

verus! {

/// 2^64, the modulus of the accumulators.
pub open spec fn u64_modulus() -> int {
    0x1_0000_0000_0000_0000
}

/// Addition modulo 2^64.
pub open spec fn wadd(a: u64, b: u64) -> u64 {
    vstd::wrapping::u64_specs::wrapping_add(a, b)
}

/// Subtraction modulo 2^64.
pub open spec fn wsub(a: u64, b: u64) -> u64 {
    vstd::wrapping::u64_specs::wrapping_sub(a, b)
}

/// A natural number reduced into a `u64` accumulator.
pub open spec fn wcount(n: nat) -> u64 {
    (n % (u64_modulus() as nat)) as u64
}

proof fn lemma_wadd_is_mod_sum(a: u64, b: u64)
    ensures
        wadd(a, b) == (a + b) % u64_modulus(),
{
}

/// Counting one more sample advances the wrapped counter by one.
pub proof fn lemma_wcount_succ(n: nat)
    ensures
        wcount(n + 1) == wadd(wcount(n), 1),
{
    let m = u64_modulus() as nat;
    assert((n + 1) % m == (n % m + 1) % m) by {
        vstd::arithmetic::div_mod::lemma_add_mod_noop(n as int, 1, m as int);
        vstd::arithmetic::div_mod::lemma_mod_twice(n as int + 1, m as int);
    }
    lemma_wadd_is_mod_sum(wcount(n), 1);
}

/// Sum of `f` over a sequence of samples, folded into a wrapping `u64`
/// accumulator from left to right.
pub open spec fn wsum<T>(h: Seq<T>, f: spec_fn(T) -> u64) -> u64
    decreases h.len(),
{
    if h.len() == 0 {
        0u64
    } else {
        wadd(wsum(h.drop_last(), f), f(h.last()))
    }
}

/// Appending one element adds its contribution to the wrapping sum.
pub proof fn lemma_wsum_push<T>(h: Seq<T>, f: spec_fn(T) -> u64, x: T)
    ensures
        wsum(h.push(x), f) == wadd(wsum(h, f), f(x)),
{
    assert(h.push(x).drop_last() =~= h);
    assert(h.push(x).last() == x);
}

/// Dropping a suffix of the sequence does not change the wrapping sum of
/// the rest; stated for a push so the accumulator update can use it.
pub proof fn lemma_wsum_skip_push<T>(h: Seq<T>, f: spec_fn(T) -> u64, x: T, j: int)
    requires
        0 <= j <= h.len(),
    ensures
        wsum(h.push(x).skip(j), f) == wadd(wsum(h.skip(j), f), f(x)),
{
    assert(h.push(x).skip(j) =~= h.skip(j).push(x));
    lemma_wsum_push(h.skip(j), f, x);
}

/// Two sequences whose elements agree pointwise under `f` and `g` have the
/// same wrapping sum.
pub proof fn lemma_wsum_pointwise<T>(h: Seq<T>, f: spec_fn(T) -> u64, g: spec_fn(T) -> u64)
    requires
        forall|i: int| 0 <= i < h.len() ==> f(h[i]) == g(h[i]),
    ensures
        wsum(h, f) == wsum(h, g),
    decreases h.len(),
{
    if h.len() > 0 {
        lemma_wsum_pointwise(h.drop_last(), f, g);
    }
}

/// A wrapping sum of unit contributions over at most `u64::MAX` of them
/// counts them exactly: no wrap occurs.
pub proof fn lemma_wsum_unit<T>(h: Seq<T>, f: spec_fn(T) -> u64)
    requires
        forall|i: int| 0 <= i < h.len() ==> f(#[trigger] h[i]) == 1,
        h.len() <= u64::MAX,
    ensures
        wsum(h, f) == h.len(),
    decreases h.len(),
{
    if h.len() > 0 {
        lemma_wsum_unit(h.drop_last(), f);
    }
}

} // verus!
