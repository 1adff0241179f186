//! Fixed-point scalars.
//!
//! Every quantity of the simulation (a coordinate, a speed, an angle in
//! radians, a duration in seconds) is an `i64` counting millionths: the
//! stored value `v` stands for `v / ONE`. Stored values stay within
//! `[-LIMIT, LIMIT]`; results that would leave that range saturate at its
//! edge.
use vstd::prelude::*;

verus! {

/// The stored value that stands for `1.0`.
pub const ONE: i64 = 1_000_000;

/// The largest magnitude of a stored value (a million units).
pub const LIMIT: i64 = 1_000_000_000_000;

/// `v` is a value that the library stores.
pub open spec fn in_range(v: int) -> bool {
    -LIMIT <= v <= LIMIT
}

/// `v` pulled into `[-LIMIT, LIMIT]`.
pub open spec fn clamp_range(v: int) -> int {
    if v > LIMIT {
        LIMIT as int
    } else if v < -LIMIT {
        -LIMIT
    } else {
        v
    }
}

/// `v` pulled into `[lo, hi]`.
pub open spec fn clamp_int(v: int, lo: int, hi: int) -> int {
    if v < lo {
        lo
    } else if v > hi {
        hi
    } else {
        v
    }
}

/// The product of two fixed-point values, rounded down.
pub open spec fn fx_mul(a: int, b: int) -> int {
    (a * b) / (ONE as int)
}

/// Saturates a wide intermediate into the stored range.
pub fn saturate(v: i128) -> (r: i64)
    ensures
        r == clamp_range(v as int),
        in_range(r as int),
{
    if v > LIMIT as i128 {
        LIMIT
    } else if v < -(LIMIT as i128) {
        -LIMIT
    } else {
        v as i64
    }
}

/// Division rounded down (towards negative infinity), for a positive divisor.
pub fn div_floor(a: i128, b: i128) -> (r: i128)
    requires
        b > 0,
    ensures
        r as int == a as int / b as int,
{
    match a.checked_div_euclid(b) {
        Some(q) => q,
        None => {
            proof {
                lemma_div_bounded(a as int, b as int);
            }
            0
        },
    }
}

proof fn lemma_div_bounded(a: int, b: int)
    requires
        b > 0,
        i128::MIN <= a <= i128::MAX,
    ensures
        i128::MIN <= a / b <= i128::MAX,
{
    let q = a / b;
    let r = a % b;
    vstd::arithmetic::div_mod::lemma_fundamental_div_mod(a, b);
    vstd::arithmetic::div_mod::lemma_mod_bound(a, b);
    assert(a >= 0 ==> 0 <= q <= a) by (nonlinear_arith)
        requires
            a == b * q + r,
            0 <= r < b,
    ;
    assert(a < 0 ==> a <= q < 0) by (nonlinear_arith)
        requires
            a == b * q + r,
            0 <= r < b,
    ;
}

/// A quotient by a positive divisor keeps the bound `l` that the dividend
/// had per unit of the divisor.
pub proof fn lemma_div_range(a: int, b: int, l: int)
    requires
        b > 0,
        l >= 0,
        -(b * l) <= a <= b * l,
    ensures
        -l <= a / b <= l,
{
    let q = a / b;
    let r = a % b;
    vstd::arithmetic::div_mod::lemma_fundamental_div_mod(a, b);
    vstd::arithmetic::div_mod::lemma_mod_bound(a, b);
    assert(q <= l) by (nonlinear_arith)
        requires
            a == b * q + r,
            0 <= r < b,
            a <= b * l,
    ;
    assert(-l <= q) by (nonlinear_arith)
        requires
            a == b * q + r,
            0 <= r < b,
            -(b * l) <= a,
    ;
}

/// The product of two fixed-point values, rounded towards zero, so that
/// `fx_mul_t(-a, b) == -fx_mul_t(a, b)`.
pub open spec fn fx_mul_t(a: int, b: int) -> int {
    if a * b >= 0 {
        (a * b) / (ONE as int)
    } else {
        -((-(a * b)) / (ONE as int))
    }
}

/// The fixed-point product `a * b / ONE`, rounded towards zero, of factors
/// bounded by `la` and `lb` whose product is at most `ONE * lr`; the result
/// is then bounded by `lr`.
pub fn mul_fx_t(a: i128, b: i128, Ghost(la): Ghost<int>, Ghost(lb): Ghost<int>, Ghost(lr): Ghost<int>) -> (r: i128)
    requires
        -la <= a <= la,
        -lb <= b <= lb,
        la * lb <= ONE * lr,
        lr <= 100_000_000_000_000_000_000_000_000_000_000,
    ensures
        r as int == fx_mul_t(a as int, b as int),
        -lr <= r <= lr,
{
    proof {
        assert(-(la * lb) <= a * b <= la * lb) by (nonlinear_arith)
            requires
                -la <= a <= la,
                -lb <= b <= lb,
        ;
        lemma_div_range(a * b, ONE as int, lr);
        lemma_div_range(-(a * b), ONE as int, lr);
    }
    let p = a * b;
    if p >= 0 {
        div_floor(p, ONE as i128)
    } else {
        -div_floor(-p, ONE as i128)
    }
}

/// The fixed-point product `a * b / ONE`, rounded down, of factors bounded
/// by `la` and `lb` whose product is at most `ONE * lr`; the result is then
/// bounded by `lr`.
pub fn mul_fx(a: i128, b: i128, Ghost(la): Ghost<int>, Ghost(lb): Ghost<int>, Ghost(lr): Ghost<int>) -> (r: i128)
    requires
        -la <= a <= la,
        -lb <= b <= lb,
        la * lb <= ONE * lr,
        lr <= 100_000_000_000_000_000_000_000_000_000_000,
    ensures
        r as int == fx_mul(a as int, b as int),
        -lr <= r <= lr,
{
    proof {
        assert(-(la * lb) <= a * b <= la * lb) by (nonlinear_arith)
            requires
                -la <= a <= la,
                -lb <= b <= lb,
        ;
        lemma_div_range(a * b, ONE as int, lr);
    }
    div_floor(a * b, ONE as i128)
}

/// `r` is the square root of `n`, rounded down.
pub open spec fn is_floor_sqrt(n: int, r: int) -> bool {
    0 <= r && r * r <= n < (r + 1) * (r + 1)
}

/// The square root of `n >= 0`, rounded down.
pub open spec fn floor_sqrt(n: int) -> int {
    choose|r: int| is_floor_sqrt(n, r)
}

/// A rounded-down square root is unique, so it is `floor_sqrt`.
pub proof fn lemma_floor_sqrt_unique(n: int, r: int)
    requires
        is_floor_sqrt(n, r),
    ensures
        floor_sqrt(n) == r,
{
    let q = floor_sqrt(n);
    assert(is_floor_sqrt(n, q));
    assert(q == r) by (nonlinear_arith)
        requires
            0 <= q,
            q * q <= n < (q + 1) * (q + 1),
            0 <= r,
            r * r <= n < (r + 1) * (r + 1),
    {
        if q < r {
            assert((q + 1) * (q + 1) <= r * r);
        } else if r < q {
            assert((r + 1) * (r + 1) <= q * q);
        }
    }
}

/// The square root of `n`, rounded down.
pub fn isqrt(n: u128) -> (r: u64)
    ensures
        is_floor_sqrt(n as int, r as int),
{
    let mut lo: u128 = 0;
    let mut hi: u128 = 0x1_0000_0000_0000_0000;
    assert(hi * hi == 0x1_0000_0000_0000_0000_0000_0000_0000_0000) by (nonlinear_arith)
        requires
            hi == 0x1_0000_0000_0000_0000,
    ;
    while hi - lo > 1
        invariant
            lo < hi <= 0x1_0000_0000_0000_0000,
            lo * lo <= n,
            n < hi * hi,
        decreases hi - lo,
    {
        let mid = lo + (hi - lo) / 2;
        assert(mid * mid < 0x1_0000_0000_0000_0000_0000_0000_0000_0000) by (nonlinear_arith)
            requires
                mid < 0x1_0000_0000_0000_0000,
        ;
        if mid * mid <= n {
            lo = mid;
        } else {
            hi = mid;
        }
    }
    assert(hi == lo + 1);
    lo as u64
}

} // verus!
