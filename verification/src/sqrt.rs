//! Integer square roots, rounded down.

use vstd::prelude::*;

verus! {

/// `r` is the square root of `n`, rounded down.
pub open spec fn is_floor_sqrt(n: int, r: int) -> bool {
    0 <= r && r * r <= n < (r + 1) * (r + 1)
}

/// The square root of `n`, rounded down (for `n >= 0`).
pub open spec fn floor_sqrt(n: int) -> int {
    choose|r: int| is_floor_sqrt(n, r)
}

/// Of two non-negative numbers, the one with the smaller square is the smaller.
pub proof fn lemma_square_lt_rev(a: int, b: int)
    by (nonlinear_arith)
    requires
        0 <= a,
        0 <= b,
        a * a < b * b,
    ensures
        a < b,
{
}

/// A number has at most one rounded-down square root.
pub proof fn lemma_floor_sqrt_unique(n: int, r1: int, r2: int)
    requires
        is_floor_sqrt(n, r1),
        is_floor_sqrt(n, r2),
    ensures
        r1 == r2,
{
    lemma_square_lt_rev(r1, r2 + 1);
    lemma_square_lt_rev(r2, r1 + 1);
}

/// Every non-negative number has a rounded-down square root.
pub proof fn lemma_floor_sqrt_exists(n: int) -> (r: int)
    requires
        0 <= n,
    ensures
        is_floor_sqrt(n, r),
    decreases n,
{
    if n == 0 {
        assert(is_floor_sqrt(0, 0)) by (nonlinear_arith);
        0
    } else {
        let p = lemma_floor_sqrt_exists(n - 1);
        if (p + 1) * (p + 1) <= n {
            assert(is_floor_sqrt(n, p + 1)) by (nonlinear_arith)
                requires
                    0 <= p,
                    (p + 1) * (p + 1) <= n,
                    n - 1 < (p + 1) * (p + 1),
            ;
            p + 1
        } else {
            assert(is_floor_sqrt(n, p)) by (nonlinear_arith)
                requires
                    0 <= p,
                    p * p <= n - 1,
                    n < (p + 1) * (p + 1),
            ;
            p
        }
    }
}

/// `floor_sqrt(n)` is the one number that `is_floor_sqrt` admits.
pub proof fn lemma_floor_sqrt(n: int, r: int)
    requires
        0 <= n,
    ensures
        is_floor_sqrt(n, floor_sqrt(n)),
        is_floor_sqrt(n, r) ==> r == floor_sqrt(n),
{
    let w = lemma_floor_sqrt_exists(n);
    assert(is_floor_sqrt(n, floor_sqrt(n)));
    if is_floor_sqrt(n, r) {
        lemma_floor_sqrt_unique(n, r, floor_sqrt(n));
    }
}

/// The rounded-down square root grows with its argument.
pub proof fn lemma_floor_sqrt_monotonic(a: int, b: int)
    requires
        0 <= a <= b,
    ensures
        floor_sqrt(a) <= floor_sqrt(b),
{
    lemma_floor_sqrt(a, 0);
    lemma_floor_sqrt(b, 0);
    lemma_square_lt_rev(floor_sqrt(a), floor_sqrt(b) + 1);
}

/// The square root of `n`, rounded down.
pub fn isqrt(n: u128) -> (r: u64)
    ensures
        r == floor_sqrt(n as int),
        is_floor_sqrt(n as int, r as int),
{
    let mut lo: u128 = 0;
    let mut hi: u128 = 0x1_0000_0000_0000_0000;
    assert(n < hi * hi) by (nonlinear_arith)
        requires
            hi == 0x1_0000_0000_0000_0000u128,
            n <= u128::MAX,
    ;
    while hi - lo > 1
        invariant
            lo < hi <= 0x1_0000_0000_0000_0000,
            lo * lo <= n < hi * hi,
        decreases hi - lo,
    {
        let mid: u128 = lo + (hi - lo) / 2;
        assert(mid * mid < 0x1_0000_0000_0000_0000 * 0x1_0000_0000_0000_0000) by (nonlinear_arith)
            requires
                mid < 0x1_0000_0000_0000_0000,
        ;
        if mid * mid <= n {
            lo = mid;
        } else {
            hi = mid;
        }
    }
    proof {
        lemma_floor_sqrt(n as int, lo as int);
    }
    lo as u64
}

} // verus!
