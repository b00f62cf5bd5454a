use vstd::prelude::*;

verus! {

/// Number of bytes drawn into the cache when a decorator is built.
pub const CACHE_LEN: usize = 65536;

/// `s` is the integer square root of `n`, rounded down.
pub open spec fn is_floor_sqrt(n: int, s: int) -> bool {
    0 <= s && s * s <= n && n < (s + 1) * (s + 1)
}

/// The integer square root of `n`, rounded down.
pub open spec fn sqrt_down(n: int) -> int {
    choose|s: int| is_floor_sqrt(n, s)
}

/// How many leading cache bytes a fill of `n` bytes takes:
/// `min(n - floor(sqrt(n)), CACHE_LEN)`.
pub open spec fn pull_len(n: int) -> int {
    let p = n - sqrt_down(n);
    if p < CACHE_LEN as int { p } else { CACHE_LEN as int }
}

proof fn lemma_floor_sqrt_unique(n: int, a: int, b: int)
    requires
        is_floor_sqrt(n, a),
        is_floor_sqrt(n, b),
    ensures
        a == b,
{
    if a < b {
        assert((a + 1) * (a + 1) <= b * b) by (nonlinear_arith)
            requires 0 <= a, a + 1 <= b;
    } else if b < a {
        assert((b + 1) * (b + 1) <= a * a) by (nonlinear_arith)
            requires 0 <= b, b + 1 <= a;
    }
}

/// Any root found pins down `sqrt_down`.
proof fn lemma_sqrt_down(n: int, s: int)
    requires
        is_floor_sqrt(n, s),
    ensures
        sqrt_down(n) == s,
{
    let t = sqrt_down(n);
    assert(is_floor_sqrt(n, t));
    lemma_floor_sqrt_unique(n, s, t);
}

/// The integer square root of `n`, rounded down, found by bisection.
pub fn floor_sqrt(n: usize) -> (r: usize)
    ensures
        is_floor_sqrt(n as int, r as int),
        r as int == sqrt_down(n as int),
        r <= n,
{
    let m: u64 = n as u64;
    let mut lo: u64 = 0;
    let mut hi: u64 = 0x1_0000_0000;
    assert(m < hi * hi) by (nonlinear_arith)
        requires m <= u64::MAX, hi == 0x1_0000_0000;
    while hi - lo > 1
        invariant
            lo < hi <= 0x1_0000_0000,
            lo * lo <= m,
            m < hi * hi,
        decreases hi - lo,
    {
        let mid: u64 = lo + (hi - lo) / 2;
        assert(mid * mid < 0x1_0000_0000_0000_0000) by (nonlinear_arith)
            requires mid < 0x1_0000_0000;
        if mid * mid <= m {
            lo = mid;
        } else {
            hi = mid;
        }
    }
    assert(lo <= m) by (nonlinear_arith)
        requires lo * lo <= m;
    proof {
        lemma_sqrt_down(n as int, lo as int);
    }
    lo as usize
}

/// `pull_len(n)` lies between zero and `n`, for every length `n`.
pub proof fn lemma_pull_len_bounds(n: int)
    requires
        0 <= n,
    ensures
        0 <= pull_len(n) <= n,
        pull_len(n) <= CACHE_LEN,
{
    assert(is_floor_sqrt(n, sqrt_down(n)) && sqrt_down(n) <= n) by {
        lemma_floor_sqrt_exists(n);
    }
}

/// Every non-negative integer has a rounded-down square root, and it is at
/// most the integer itself.
proof fn lemma_floor_sqrt_exists(n: int)
    requires
        0 <= n,
    ensures
        is_floor_sqrt(n, sqrt_down(n)),
        sqrt_down(n) <= n,
    decreases n,
{
    if n == 0 {
        lemma_sqrt_down(0, 0);
    } else {
        lemma_floor_sqrt_exists(n - 1);
        let r = sqrt_down(n - 1);
        if (r + 1) * (r + 1) <= n {
            assert(n < (r + 2) * (r + 2)) by (nonlinear_arith)
                requires n - 1 < (r + 1) * (r + 1), 0 <= r;
            lemma_sqrt_down(n, r + 1);
            assert(r + 1 <= n) by (nonlinear_arith)
                requires (r + 1) * (r + 1) <= n, 0 <= r;
        } else {
            lemma_sqrt_down(n, r);
        }
    }
}

/// The number of leading cache bytes that a fill of `n` bytes takes. It never
/// exceeds `n` nor the cache's length.
pub fn cache_pull(n: usize) -> (r: usize)
    ensures
        r as int == pull_len(n as int),
        r <= n,
        r <= CACHE_LEN,
{
    let s = floor_sqrt(n);
    let p = n - s;
    if p < CACHE_LEN {
        p
    } else {
        CACHE_LEN
    }
}

} // verus!
