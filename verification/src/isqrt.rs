//! Whole square roots of unsigned integers.

use vstd::prelude::*;

verus! {

/// `r` is the whole part of the square root of `n`: the largest integer whose
/// square does not exceed `n`.
pub open spec fn is_floor_sqrt(n: nat, r: nat) -> bool {
    r * r <= n < (r + 1) * (r + 1)
}

/// The whole part of the square root of `n`.
pub open spec fn floor_sqrt(n: nat) -> nat {
    choose|r: nat| is_floor_sqrt(n, r)
}

/// Squaring keeps the order of non-negative integers.
pub proof fn lemma_square_monotonic(a: int, b: int)
    by (nonlinear_arith)
    requires
        0 <= a <= b,
    ensures
        a * a <= b * b,
{
}

/// At most one integer is the whole square root of `n`.
pub proof fn lemma_floor_sqrt_unique(n: nat, r1: nat, r2: nat)
    requires
        is_floor_sqrt(n, r1),
        is_floor_sqrt(n, r2),
    ensures
        r1 == r2,
{
    if r1 < r2 {
        lemma_square_monotonic(r1 as int + 1, r2 as int);
    } else if r2 < r1 {
        lemma_square_monotonic(r2 as int + 1, r1 as int);
    }
}

/// Every natural number has a whole square root.
pub proof fn lemma_floor_sqrt_exists(n: nat)
    ensures
        exists|r: nat| is_floor_sqrt(n, r),
    decreases n,
{
    if n == 0 {
        assert(is_floor_sqrt(0, 0)) by (nonlinear_arith);
    } else {
        let m: nat = (n - 1) as nat;
        lemma_floor_sqrt_exists(m);
        let r: nat = floor_sqrt(m);
        if (r + 1) * (r + 1) <= n {
            assert((r + 2) * (r + 2) > (r + 1) * (r + 1)) by (nonlinear_arith);
            assert(is_floor_sqrt(n, r + 1));
        } else {
            assert(is_floor_sqrt(n, r));
        }
    }
}

/// `floor_sqrt(n)` is the one integer `r` with `r * r <= n < (r + 1) * (r + 1)`.
pub proof fn lemma_floor_sqrt(n: nat, r: nat)
    ensures
        is_floor_sqrt(n, floor_sqrt(n)),
        is_floor_sqrt(n, r) <==> r == floor_sqrt(n),
{
    lemma_floor_sqrt_exists(n);
    if is_floor_sqrt(n, r) {
        lemma_floor_sqrt_unique(n, r, floor_sqrt(n));
    }
}

/// The whole part of the square root of `n`, found by bisection.
pub fn isqrt(n: u128) -> (r: u64)
    ensures
        r == floor_sqrt(n as nat),
        r * r <= n < (r + 1) * (r + 1),
{
    let mut lo: u128 = 0;
    let mut hi: u128 = 0x1_0000_0000_0000_0000;
    assert(hi * hi > n) by (nonlinear_arith)
        requires
            hi == 0x1_0000_0000_0000_0000u128,
            n <= u128::MAX,
    ;
    while hi - lo > 1
        invariant
            lo < hi <= 0x1_0000_0000_0000_0000u128,
            lo * lo <= n < hi * hi,
        decreases hi - lo,
    {
        let mid: u128 = lo + (hi - lo) / 2;
        assert(mid * mid <= u128::MAX) by (nonlinear_arith)
            requires
                mid <= 0xffff_ffff_ffff_ffffu128,
        ;
        if mid * mid <= n {
            lo = mid;
        } else {
            hi = mid;
        }
    }
    proof {
        lemma_floor_sqrt(n as nat, lo as nat);
    }
    lo as u64
}

} // verus!
