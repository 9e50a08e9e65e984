//! Capacity growth and dispatch sizing shared by every GPU-side store.

use vstd::prelude::*;

verus! {

/// The capacity a buffer of `cap` elements has once it must hold `needed`:
/// unchanged when `needed` fits, else at least double (geometric growth) and
/// never less than `needed`, saturating at the machine limit `limit`.
pub open spec fn grown(cap: nat, needed: nat, limit: nat) -> nat {
    if needed <= cap {
        cap
    } else {
        let double: nat = if 2 * cap <= limit { 2 * cap } else { limit };
        if double >= needed { double } else { needed }
    }
}

/// `ceil(n / d)`.
pub open spec fn ceil_div(n: nat, d: nat) -> nat
    recommends
        d > 0,
{
    ((n + d - 1) / d as int) as nat
}

/// The number of workgroups of `size` invocations that covers `n` items, and
/// never none: a pre-recorded dispatch of zero groups is not a dispatch.
pub open spec fn groups(n: nat, size: nat) -> nat
    recommends
        size > 0,
{
    if ceil_div(n, size) >= 1 { ceil_div(n, size) } else { 1 }
}

/// The larger of the two.
pub fn max_u32(a: u32, b: u32) -> (r: u32)
    ensures
        r == if a >= b { a } else { b },
{
    if a >= b { a } else { b }
}

/// The larger of the two.
pub fn max_usize(a: usize, b: usize) -> (r: usize)
    ensures
        r == if a >= b { a } else { b },
{
    if a >= b { a } else { b }
}

/// The smaller of the two.
pub fn min_usize(a: usize, b: usize) -> (r: usize)
    ensures
        r == if a <= b { a } else { b },
{
    if a <= b { a } else { b }
}

/// [`grown`] on `u32` element counts.
pub fn grow_u32(cap: u32, needed: u32) -> (r: u32)
    ensures
        r == grown(cap as nat, needed as nat, u32::MAX as nat),
{
    if needed <= cap {
        cap
    } else {
        let double: u32 = if cap <= u32::MAX / 2 { cap * 2 } else { u32::MAX };
        max_u32(double, needed)
    }
}

/// [`grown`] on `usize` element counts.
pub fn grow_usize(cap: usize, needed: usize) -> (r: usize)
    ensures
        r == grown(cap as nat, needed as nat, usize::MAX as nat),
{
    if needed <= cap {
        cap
    } else {
        let double: usize = if cap <= usize::MAX / 2 { cap * 2 } else { usize::MAX };
        max_usize(double, needed)
    }
}

/// `ceil(n / d)` without the overflow that `n + d - 1` would have.
pub fn div_ceil_u32(n: u32, d: u32) -> (r: u32)
    requires
        d > 0,
    ensures
        r == ceil_div(n as nat, d as nat),
        r <= n,
{
    let q: u32 = n / d;
    let rem: u32 = n % d;
    proof {
        lemma_ceil_div(n as nat, d as nat);
    }
    if rem == 0 { q } else { q + 1 }
}

/// `ceil(n / d)` without the overflow that `n + d - 1` would have.
pub fn div_ceil_usize(n: usize, d: usize) -> (r: usize)
    requires
        d > 0,
    ensures
        r == ceil_div(n as nat, d as nat),
        r <= n,
{
    let q: usize = n / d;
    let rem: usize = n % d;
    proof {
        lemma_ceil_div(n as nat, d as nat);
    }
    if rem == 0 { q } else { q + 1 }
}

/// [`groups`] on a `u32` item count.
pub fn group_count(n: u32, size: u32) -> (r: u32)
    requires
        size > 0,
    ensures
        r == groups(n as nat, size as nat),
        r >= 1,
{
    max_u32(div_ceil_u32(n, size), 1)
}

/// The quotient-and-remainder form of [`ceil_div`].
pub proof fn lemma_ceil_div(n: nat, d: nat)
    requires
        d > 0,
    ensures
        ceil_div(n, d) == n / d + if n % d == 0 { 0int } else { 1int },
        ceil_div(n, d) <= n,
        n <= ceil_div(n, d) * d,
        ceil_div(n, d) * d < n + d,
{
    let q = n as int / d as int;
    let r = n as int % d as int;
    assert(n == q * d + r && 0 <= r < d) by {
        vstd::arithmetic::div_mod::lemma_fundamental_div_mod(n as int, d as int);
        assert(d * q == q * d) by (nonlinear_arith);
    }
    if r == 0 {
        assert(n + d - 1 == q * d + (d - 1));
        vstd::arithmetic::div_mod::lemma_fundamental_div_mod_converse(
            n + d - 1,
            d as int,
            q,
            d - 1,
        );
    } else {
        assert((q + 1) * d == q * d + d) by (nonlinear_arith);
        vstd::arithmetic::div_mod::lemma_fundamental_div_mod_converse(
            n + d - 1,
            d as int,
            q + 1,
            r - 1,
        );
        assert(q + 1 <= n) by (nonlinear_arith)
            requires
                n == q * d + r,
                0 < r < d,
                q >= 0,
        ;
    }
    assert(q <= n) by (nonlinear_arith)
        requires
            n == q * d + r,
            0 <= r,
            d > 0,
            q >= 0,
    ;
}

/// Growth never shrinks, always fits what was asked for, and at least doubles
/// whenever it happens at all and the machine limit leaves room.
pub proof fn growth_is_geometric(cap: nat, needed: nat, limit: nat)
    requires
        cap <= limit,
        needed <= limit,
    ensures
        grown(cap, needed, limit) >= cap,
        grown(cap, needed, limit) >= needed,
        grown(cap, needed, limit) <= limit,
        grown(cap, needed, limit) != cap ==> needed > cap,
        grown(cap, needed, limit) <= 2 * cap || grown(cap, needed, limit) == needed,
        needed > cap && 2 * cap <= limit ==> grown(cap, needed, limit) >= 2 * cap,
        needed > cap && 2 * cap > limit ==> grown(cap, needed, limit) == limit,
{
}

/// A workgroup dispatch covers every item and wastes less than one group.
pub proof fn dispatch_covers(n: nat, size: nat)
    requires
        size > 0,
    ensures
        groups(n, size) >= 1,
        n <= groups(n, size) * size,
        n > 0 ==> groups(n, size) * size < n + size,
        n == 0 ==> groups(n, size) == 1,
{
    lemma_ceil_div(n, size);
    if ceil_div(n, size) < 1 {
        assert(ceil_div(n, size) * size == 0) by (nonlinear_arith)
            requires
                ceil_div(n, size) == 0,
        ;
    }
}

} // verus!
