//! Small verified numeric kernel: truncating division, clamping,
//! integer square root and elapsed-time arithmetic used everywhere else.

use vstd::prelude::*;

verus! {

/// Truncating (round-toward-zero) division for a positive divisor,
/// matching what hardware and Rust's `/` do on signed integers.
pub open spec fn tdiv(n: int, d: int) -> int
    recommends
        d > 0,
{
    if n >= 0 {
        n / d
    } else {
        -((-n) / d)
    }
}

/// Truncating division for any nonzero divisor.
pub open spec fn tdiv_any(n: int, d: int) -> int
    recommends
        d != 0,
{
    if d > 0 {
        tdiv(n, d)
    } else {
        -tdiv(n, -d)
    }
}

/// Clamp `v` into the closed interval `[lo, hi]`.
pub open spec fn clamp_s(v: int, lo: int, hi: int) -> int
    recommends
        lo <= hi,
{
    if v < lo {
        lo
    } else if v > hi {
        hi
    } else {
        v
    }
}

/// Elapsed milliseconds between two monotonic-clock readings; a reading
/// that runs backwards counts as no time having passed.
pub open spec fn elapsed_s(earlier: u64, now: u64) -> int {
    if now >= earlier {
        now - earlier
    } else {
        0
    }
}

/// Truncating division with a positive divisor.
pub fn div_trunc(n: i64, d: i64) -> (r: i64)
    requires
        d > 0,
        n > i64::MIN,
    ensures
        r == tdiv(n as int, d as int),
{
    if n >= 0 {
        n / d
    } else {
        -((-n) / d)
    }
}

pub fn clamp(v: i64, lo: i64, hi: i64) -> (r: i64)
    requires
        lo <= hi,
    ensures
        r == clamp_s(v as int, lo as int, hi as int),
{
    if v < lo {
        lo
    } else if v > hi {
        hi
    } else {
        v
    }
}

pub fn elapsed(earlier: u64, now: u64) -> (r: u64)
    ensures
        r == elapsed_s(earlier, now),
{
    if now >= earlier {
        now - earlier
    } else {
        0
    }
}

/// Bound on a product from bounds on its factors.
pub proof fn lemma_abs_mul_le(a: int, b: int, la: int, lb: int)
    by (nonlinear_arith)
    requires
        -la <= a <= la,
        -lb <= b <= lb,
        la >= 0,
        lb >= 0,
    ensures
        -(la * lb) <= a * b <= la * lb,
{
}

/// Truncating division by a positive divisor never grows a magnitude.
pub proof fn lemma_tdiv_abs_le(n: int, ln: int, d: int)
    requires
        -ln <= n <= ln,
        0 <= ln,
        d > 0,
    ensures
        -ln <= tdiv(n, d) <= ln,
{
    if n >= 0 {
        vstd::arithmetic::div_mod::lemma_div_pos_is_pos(n, d);
        vstd::arithmetic::div_mod::lemma_div_nonincreasing(n, d);
    } else {
        vstd::arithmetic::div_mod::lemma_div_pos_is_pos(-n, d);
        vstd::arithmetic::div_mod::lemma_div_nonincreasing(-n, d);
    }
}

/// Integer square root: the greatest `r` with `r * r <= n`.
pub open spec fn isqrt_s(n: nat) -> nat
    decreases n,
{
    if n == 0 {
        0
    } else {
        let r0 = isqrt_s((n - 1) as nat);
        if (r0 + 1) * (r0 + 1) <= n {
            r0 + 1
        } else {
            r0
        }
    }
}

pub proof fn lemma_isqrt_bounds(n: nat)
    ensures
        isqrt_s(n) * isqrt_s(n) <= n,
        (isqrt_s(n) + 1) * (isqrt_s(n) + 1) > n,
    decreases n,
{
    if n == 0 {
        assert(isqrt_s(n) == 0);
        assert((isqrt_s(n) + 1) * (isqrt_s(n) + 1) > n) by (nonlinear_arith)
            requires
                isqrt_s(n) == 0,
                n == 0,
        {
        }
    } else {
        lemma_isqrt_bounds((n - 1) as nat);
        let r0 = isqrt_s((n - 1) as nat);
        assert(r0 * r0 <= n - 1);
        assert((r0 + 1) * (r0 + 1) > n - 1);
        if (r0 + 1) * (r0 + 1) <= n {
            assert(isqrt_s(n) == r0 + 1);
            assert(((r0 + 1) + 1) * ((r0 + 1) + 1) > n) by (nonlinear_arith)
                requires
                    (r0 + 1) * (r0 + 1) >= n,
            {
            }
        } else {
            assert(isqrt_s(n) == r0);
        }
    }
}

/// Any `r` bracketing `n` between consecutive squares is the square root.
pub proof fn lemma_isqrt_unique(n: nat, r: nat)
    requires
        r * r <= n,
        (r + 1) * (r + 1) > n,
    ensures
        r == isqrt_s(n),
{
    lemma_isqrt_bounds(n);
    let s = isqrt_s(n);
    if r < s {
        assert((r + 1) * (r + 1) <= s * s) by (nonlinear_arith)
            requires
                r + 1 <= s,
        {
        }
    }
    if s < r {
        assert((s + 1) * (s + 1) <= r * r) by (nonlinear_arith)
            requires
                s + 1 <= r,
        {
        }
    }
}

/// Integer square root: the greatest `r` with `r * r <= n`.
pub fn isqrt(n: u64) -> (r: u64)
    ensures
        r * r <= n,
        (r + 1) * (r + 1) > n,
        r == isqrt_s(n as nat),
{
    let mut lo: u64 = 0;
    let mut hi: u64 = 4_294_967_296;
    // invariant: lo * lo <= n < hi * hi
    while lo + 1 < hi
        invariant
            lo < hi,
            hi <= 4_294_967_296,
            lo * lo <= n,
            hi * hi > n,
        decreases hi - lo,
    {
        let mid: u64 = lo + (hi - lo) / 2;
        assert(mid < hi);
        assert(mid * mid <= 0xffff_ffff_ffff_ffff) by (nonlinear_arith)
            requires
                mid < 4_294_967_296,
        {
        }
        if mid * mid <= n {
            lo = mid;
        } else {
            hi = mid;
        }
    }
    proof {
        lemma_isqrt_unique(n as nat, lo as nat);
    }
    lo
}

} // verus!
