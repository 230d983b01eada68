//! Integer square root and truncating division, with exact contracts.
//!
//! The stroker offsets segment endpoints by `w * d / (2 * len)` where
//! `len` is the euclidean length of the segment rounded down to an
//! integer.  Both building blocks live here.

use vstd::prelude::*;

verus! {

/// `r` is the integer square root of `n`: the greatest integer whose
/// square does not exceed `n`.
pub open spec fn is_sqrt(n: int, r: int) -> bool {
    0 <= r && r * r <= n && n < (r + 1) * (r + 1)
}

/// The integer square root of `n` as a mathematical function.
pub open spec fn sqrt_of(n: int) -> int {
    choose|r: int| is_sqrt(n, r)
}

/// Two integer square roots of the same number are equal.
pub proof fn lemma_sqrt_unique(n: int, r1: int, r2: int)
    by (nonlinear_arith)
    requires
        is_sqrt(n, r1),
        is_sqrt(n, r2),
    ensures
        r1 == r2,
{
}

/// Any witness of `is_sqrt(n, _)` is `sqrt_of(n)`.
pub proof fn lemma_sqrt_of(n: int, r: int)
    requires
        is_sqrt(n, r),
    ensures
        sqrt_of(n) == r,
{
    assert(is_sqrt(n, sqrt_of(n))) by {
        assert(is_sqrt(n, r));
    }
    lemma_sqrt_unique(n, sqrt_of(n), r);
}

/// The square root of a sum of two squares is at least as large as the
/// magnitude of either term.
pub proof fn lemma_sqrt_ge_component(dx: int, dy: int, l: int)
    by (nonlinear_arith)
    requires
        is_sqrt(dx * dx + dy * dy, l),
    ensures
        l >= dx,
        l >= -dx,
        l >= dy,
        l >= -dy,
{
}

/// Integer square root by binary search.
pub fn isqrt(n: i64) -> (r: i64)
    requires
        0 <= n < 0x4000_0000_0000_0000,
    ensures
        is_sqrt(n as int, r as int),
        r as int == sqrt_of(n as int),
        0 <= r <= 0x8000_0000,
{
    let mut lo: i64 = 0;
    let mut hi: i64 = 0x8000_0000;
    assert((hi as int) * (hi as int) == 0x4000_0000_0000_0000) by (nonlinear_arith)
        requires
            hi == 0x8000_0000;
    while lo + 1 < hi
        invariant
            0 <= lo < hi <= 0x8000_0000,
            (lo as int) * (lo as int) <= n as int,
            (n as int) < (hi as int) * (hi as int),
        decreases hi - lo,
    {
        let mid: i64 = lo + (hi - lo) / 2;
        assert(lo < mid < hi);
        assert((mid as int) * (mid as int) <= 0x4000_0000_0000_0000) by (nonlinear_arith)
            requires
                0 <= mid <= 0x8000_0000;
        if mid * mid <= n {
            lo = mid;
        } else {
            hi = mid;
        }
    }
    assert(is_sqrt(n as int, lo as int));
    proof {
        lemma_sqrt_of(n as int, lo as int);
    }
    lo
}

/// Quotient of `n` by `d`, rounded toward zero.
pub open spec fn qdiv(n: int, d: int) -> int
    recommends
        0 < d,
{
    if n >= 0 {
        n / d
    } else {
        -((-n) / d)
    }
}

/// If `|n| <= c * d`, the truncated quotient of `n` by `d` has magnitude
/// at most `c`.
pub proof fn lemma_qdiv_bound(n: int, d: int, c: int)
    by (nonlinear_arith)
    requires
        0 < d,
        0 <= c,
        -(c * d) <= n <= c * d,
    ensures
        -c <= qdiv(n, d) <= c,
{
    if n >= 0 {
        vstd::arithmetic::div_mod::lemma_fundamental_div_mod(n, d);
    } else {
        vstd::arithmetic::div_mod::lemma_fundamental_div_mod(-n, d);
    }
}

/// Dividing an exact product `q * d` by `d` recovers `q`, for either sign
/// of `q`.
pub proof fn lemma_qdiv_exact(q: int, d: int)
    by (nonlinear_arith)
    requires
        0 < d,
    ensures
        qdiv(q * d, d) == q,
{
    if q >= 0 {
        vstd::arithmetic::div_mod::lemma_div_multiples_vanish(q, d);
    } else {
        vstd::arithmetic::div_mod::lemma_div_multiples_vanish(-q, d);
    }
}

/// Truncating division on machine integers, for a positive divisor.
pub fn div_trunc(n: i64, d: i64) -> (r: i64)
    requires
        0 < d,
        -0x4000_0000_0000_0000 <= n <= 0x4000_0000_0000_0000,
    ensures
        r as int == qdiv(n as int, d as int),
{
    if n >= 0 {
        let q: u64 = (n as u64) / (d as u64);
        proof {
            vstd::arithmetic::div_mod::lemma_div_is_ordered(0, n as int, d as int);
            vstd::arithmetic::div_mod::lemma_div_is_ordered_by_denominator(n as int, 1, d as int);
        }
        q as i64
    } else {
        let m: u64 = ((-n) as u64) / (d as u64);
        proof {
            vstd::arithmetic::div_mod::lemma_div_is_ordered(0, -n as int, d as int);
            vstd::arithmetic::div_mod::lemma_div_is_ordered_by_denominator(-n as int, 1, d as int);
        }
        -(m as i64)
    }
}

} // verus!
