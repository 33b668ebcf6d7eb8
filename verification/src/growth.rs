//! What a run of appends does to a growable array: which elements it
//! holds, how its capacity develops, and how often it reallocates.
//!
//! The functions here speak of the same `cap_after_push` and slot sequences
//! as the contracts of `push`, so each statement is about what `push` does
//! when it is called over and over.

use crate::raw_buf::cap_after_push;
use vstd::arithmetic::power2::lemma2_to64;
use vstd::arithmetic::power2::lemma_pow2_pos;
use vstd::arithmetic::power2::lemma_pow2_strictly_increases;
use vstd::arithmetic::power2::lemma_pow2_unfold;
use vstd::arithmetic::power2::pow2;
use vstd::prelude::*;

verus! {

/// The slots after the elements of `xs` were appended to `start`, one by one.
pub open spec fn appended<T>(start: Seq<Option<T>>, xs: Seq<T>) -> Seq<Option<T>>
    decreases xs.len(),
{
    if xs.len() == 0 {
        start
    } else {
        appended(start, xs.drop_last()).push(Some(xs.last()))
    }
}

/// The capacity after `n` appends to an empty array whose first block has
/// capacity `cap`.
pub open spec fn cap_after_pushes(cap: nat, n: nat) -> nat
    decreases n,
{
    if n == 0 {
        cap
    } else {
        cap_after_push((n - 1) as nat, cap_after_pushes(cap, (n - 1) as nat))
    }
}

/// How many of the first `n` appends to an empty array, whose first block
/// has capacity `cap`, found the block full and reallocated.
pub open spec fn reallocations(cap: nat, n: nat) -> nat
    decreases n,
{
    if n == 0 {
        0
    } else if (n - 1) < cap_after_pushes(cap, (n - 1) as nat) {
        reallocations(cap, (n - 1) as nat)
    } else {
        reallocations(cap, (n - 1) as nat) + 1
    }
}

/// The least `k` with `2^k >= n`.
pub open spec fn ceil_log2(n: nat) -> nat
    decreases n,
{
    if n <= 1 {
        0
    } else {
        1 + ceil_log2((n + 1) / 2)
    }
}

/// Appending never loses or reorders anything: after the first `n`
/// elements of `xs` were appended to `start`, the array is `n` slots
/// longer, what was there before is untouched, and the `i`-th appended
/// element sits right where it was put, for every `i < n`.
pub proof fn lemma_appended_elements_stay<T>(start: Seq<Option<T>>, xs: Seq<T>, n: nat)
    requires
        n <= xs.len(),
    ensures
        appended(start, xs.take(n as int)).len() == start.len() + n,
        forall|j: int|
            0 <= j < start.len() ==> appended(start, xs.take(n as int))[j] == start[j],
        forall|i: int|
            0 <= i < n ==> appended(start, xs.take(n as int))[start.len() + i] == Some(xs[i]),
    decreases n,
{
    let prefix = xs.take(n as int);
    if n > 0 {
        let shorter = xs.take(n - 1);
        assert(prefix.drop_last() =~= shorter);
        lemma_appended_elements_stay(start, xs, (n - 1) as nat);
    }
}

/// `ceil_log2(n)` is an exponent whose power of two reaches `n`, and the
/// exponent below it does not.
pub proof fn lemma_ceil_log2_bounds(n: nat)
    requires
        n >= 1,
    ensures
        pow2(ceil_log2(n)) >= n,
        n > 1 ==> ceil_log2(n) > 0 && pow2((ceil_log2(n) - 1) as nat) < n,
    decreases n,
{
    lemma2_to64();
    if n > 1 {
        let m = (n + 1) / 2;
        lemma_ceil_log2_bounds(m);
        lemma_pow2_unfold(ceil_log2(n));
        if m > 1 {
            lemma_pow2_unfold(ceil_log2(m));
        }
    }
}

/// Only one exponent has a power of two that reaches `n` while the
/// exponent below it does not: `ceil_log2(n)`.
pub proof fn lemma_ceil_log2_unique(n: nat, k: nat)
    requires
        n >= 1,
        pow2(k) >= n,
        k > 0 ==> pow2((k - 1) as nat) < n,
    ensures
        k == ceil_log2(n),
{
    lemma2_to64();
    lemma_ceil_log2_bounds(n);
    let c = ceil_log2(n);
    if k < c {
        if k < c - 1 {
            lemma_pow2_strictly_increases(k, (c - 1) as nat);
        }
    } else if k > c {
        if c < k - 1 {
            lemma_pow2_strictly_increases(c, (k - 1) as nat);
        }
    }
}

/// Doubling growth. After `n` appends to an empty array whose first block
/// has capacity `cap`, with `r` reallocations on the way:
/// the capacity is `cap * 2^r`; it holds all `n` elements; and no smaller
/// power-of-two multiple of `cap` would have held them.
pub proof fn lemma_doubling_growth(cap: nat, n: nat)
    requires
        cap > 0,
    ensures
        cap_after_pushes(cap, n) == cap * pow2(reallocations(cap, n)),
        cap_after_pushes(cap, n) >= n,
        reallocations(cap, n) > 0 ==> cap * pow2((reallocations(cap, n) - 1) as nat) < n,
    decreases n,
{
    lemma2_to64();
    if n > 0 {
        let before = (n - 1) as nat;
        lemma_doubling_growth(cap, before);
        let r = reallocations(cap, n);
        let r_before = reallocations(cap, before);
        if before < cap_after_pushes(cap, before) {
            assert(r == r_before);
        } else {
            assert(r == r_before + 1);
            lemma_pow2_unfold(r);
            assert(cap * pow2(r) == 2 * (cap * pow2(r_before))) by (nonlinear_arith)
                requires
                    pow2(r) == 2 * pow2(r_before),
            ;
        }
    } else {
        assert(cap * pow2(0) == cap) by (nonlinear_arith)
            requires
                pow2(0) == 1,
        ;
    }
}

/// A block that is large enough from the start is never replaced: while
/// the appends fit into the first capacity, none of them reallocates.
pub proof fn lemma_roomy_block_is_kept(cap: nat, n: nat)
    requires
        n <= cap,
    ensures
        cap_after_pushes(cap, n) == cap,
        reallocations(cap, n) == 0,
    decreases n,
{
    if n > 0 {
        lemma_roomy_block_is_kept(cap, (n - 1) as nat);
    }
}

/// The capacity reached by doubling is the least one that suffices: every
/// power-of-two multiple of the first capacity that holds `n` elements is
/// at least as large.
pub proof fn lemma_doubling_is_tight(cap: nat, n: nat, k: nat)
    requires
        cap > 0,
        cap * pow2(k) >= n,
    ensures
        cap_after_pushes(cap, n) <= cap * pow2(k),
{
    lemma_doubling_growth(cap, n);
    let r = reallocations(cap, n);
    if k < r {
        if k < r - 1 {
            lemma_pow2_strictly_increases(k, (r - 1) as nat);
        }
        assert(cap * pow2(k) <= cap * pow2((r - 1) as nat)) by (nonlinear_arith)
            requires
                pow2(k) <= pow2((r - 1) as nat),
                cap > 0,
        ;
    } else if k > r {
        lemma_pow2_strictly_increases(r, k);
        assert(cap * pow2(r) <= cap * pow2(k)) by (nonlinear_arith)
            requires
                pow2(r) <= pow2(k),
                cap > 0,
        ;
    }
}

/// Starting from capacity 1, `n >= 1` appends reallocate `ceil_log2(n)`
/// times, and the capacity ends at `2^ceil_log2(n)`: the least power of
/// two that is at least `n`.
pub proof fn lemma_reallocations_from_one(n: nat)
    requires
        n >= 1,
    ensures
        reallocations(1, n) == ceil_log2(n),
        cap_after_pushes(1, n) == pow2(ceil_log2(n)),
{
    lemma_doubling_growth(1, n);
    let r = reallocations(1, n);
    assert(1 * pow2(r) == pow2(r)) by (nonlinear_arith);
    if r > 0 {
        assert(1 * pow2((r - 1) as nat) == pow2((r - 1) as nat)) by (nonlinear_arith);
    }
    lemma_ceil_log2_unique(n, r);
}

} // verus!
