use vstd::prelude::*;

verus! {

/// A value bounded in magnitude has a bounded, non-negative square.
pub proof fn lemma_square_bounded(x: int, m: int)
    requires
        -m <= x <= m,
    ensures
        0 <= x * x <= m * m,
{
    if x >= 0 {
        assert(x * x <= m * m) by (nonlinear_arith)
            requires 0 <= x <= m;
    } else {
        assert(x * x <= m * m) by (nonlinear_arith)
            requires -m <= x < 0;
    }
    assert(0 <= x * x) by (nonlinear_arith);
}

/// The integer square root: the greatest `s` with `s * s <= n`.
pub open spec fn sqrt_floor(n: nat) -> nat
    decreases n,
{
    if n == 0 {
        0
    } else {
        let s = sqrt_floor((n - 1) as nat);
        if (s + 1) * (s + 1) <= n {
            s + 1
        } else {
            s
        }
    }
}

/// `sqrt_floor(n)` is characterized by `s * s <= n < (s + 1) * (s + 1)`.
pub proof fn lemma_sqrt_floor_bounds(n: nat)
    ensures
        sqrt_floor(n) * sqrt_floor(n) <= n,
        n < (sqrt_floor(n) + 1) * (sqrt_floor(n) + 1),
    decreases n,
{
    if n == 0 {
        assert(n < (sqrt_floor(n) + 1) * (sqrt_floor(n) + 1)) by (nonlinear_arith)
            requires
                n == 0,
                sqrt_floor(n) == 0;
    } else {
        let m = (n - 1) as nat;
        lemma_sqrt_floor_bounds(m);
        let s = sqrt_floor(m);
        if (s + 1) * (s + 1) <= n {
            assert(sqrt_floor(n) == s + 1);
            assert(n < (s + 2) * (s + 2)) by (nonlinear_arith)
                requires
                    n <= (s + 1) * (s + 1),
                    s >= 0;
        } else {
            assert(sqrt_floor(n) == s);
        }
    }
}

/// Any `s` in the characteristic window equals `sqrt_floor(n)`.
pub proof fn lemma_sqrt_floor_unique(n: nat, s: nat)
    requires
        s * s <= n,
        n < (s + 1) * (s + 1),
    ensures
        s == sqrt_floor(n),
{
    let t = sqrt_floor(n);
    lemma_sqrt_floor_bounds(n);
    assert(s == t) by (nonlinear_arith)
        requires
            s * s <= n < (s + 1) * (s + 1),
            t * t <= n < (t + 1) * (t + 1);
}

/// Computes the integer square root of `n` by binary search.
pub fn isqrt(n: u64) -> (s: u64)
    ensures
        s == sqrt_floor(n as nat),
        s < 0x1_0000_0000,
{
    let mut lo: u64 = 0;
    let mut hi: u64 = 0x1_0000_0000;
    proof {
        assert((hi as int) * (hi as int) > n as int) by (nonlinear_arith)
            requires hi == 0x1_0000_0000u64, n <= u64::MAX;
    }
    while hi - lo > 1
        invariant
            lo < hi <= 0x1_0000_0000,
            (lo as int) * (lo as int) <= n as int,
            (n as int) < (hi as int) * (hi as int),
        decreases hi - lo,
    {
        let mid: u64 = lo + (hi - lo) / 2;
        proof {
            assert((mid as int) * (mid as int) <= 0x1_0000_0000 * 0x1_0000_0000) by (nonlinear_arith)
                requires 0 <= mid <= 0x1_0000_0000;
        }
        if (mid as u128) * (mid as u128) <= n as u128 {
            lo = mid;
        } else {
            hi = mid;
        }
    }
    proof {
        lemma_sqrt_floor_unique(n as nat, lo as nat);
    }
    lo
}

} // verus!
