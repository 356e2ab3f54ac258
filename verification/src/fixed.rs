//! Fixed-point arithmetic on which the movement core computes.
//!
//! A scalar is an integer count of millionths of a world unit (or of a unit
//! per second); a duration is an integer count of microseconds. Quotients are
//! rounded toward zero, so that a value and its negation are treated alike.

use vstd::prelude::*;

verus! {

/// The fixed-point representation of 1.0.
pub const UNIT: i64 = 1_000_000;

/// The number of microseconds in one second.
pub const SECOND: u64 = 1_000_000;

/// Largest magnitude a scalar may have and still count as sane: 1000 units.
pub const MAX_SPEED: i64 = 1_000_000_000;

/// Largest magnitude a coordinate may have and still count as sane: 10000
/// units.
pub const WORLD_LIMIT: i64 = 10_000_000_000;

/// Exclusive upper bound on the argument of `sqrt_ceil`.
pub const SQRT_DOMAIN: u128 = 0x4000_0000_0000_0000_0000_0000_0000_0000;

/// The absolute value of an integer.
pub open spec fn magnitude(a: int) -> int {
    if a >= 0 {
        a
    } else {
        -a
    }
}

/// The quotient of `a` by a positive `d`, rounded toward zero.
pub open spec fn div_toward_zero(a: int, d: int) -> int
    recommends
        d > 0,
{
    if a >= 0 {
        a / d
    } else {
        -((-a) / d)
    }
}

/// `r` is the least natural number whose square reaches `n`.
pub open spec fn is_sqrt_ceil(n: int, r: int) -> bool {
    &&& r >= 0
    &&& r * r >= n
    &&& (r > 0 ==> (r - 1) * (r - 1) < n)
}

/// The least natural number whose square reaches `n`.
pub open spec fn ceil_sqrt(n: int) -> int {
    choose|r: int| is_sqrt_ceil(n, r)
}

/// At most one number is the least whose square reaches `n`.
pub proof fn lemma_ceil_sqrt_unique(n: int, r: int)
    requires
        is_sqrt_ceil(n, r),
    ensures
        ceil_sqrt(n) == r,
{
    let c = ceil_sqrt(n);
    assert(is_sqrt_ceil(n, c));
    if c < r {
        assert((r - 1) * (r - 1) >= c * c) by (nonlinear_arith)
            requires
                0 <= c <= r - 1,
        ;
    }
    if r < c {
        assert((c - 1) * (c - 1) >= r * r) by (nonlinear_arith)
            requires
                0 <= r <= c - 1,
        ;
    }
}

/// Every natural number has a least number whose square reaches it.
pub proof fn lemma_ceil_sqrt_exists(n: int)
    ensures
        is_sqrt_ceil(n, ceil_sqrt(n)),
    decreases n,
{
    if n <= 0 {
        assert(is_sqrt_ceil(n, 0));
    } else {
        lemma_ceil_sqrt_exists(n - 1);
        let r = ceil_sqrt(n - 1);
        if r * r >= n {
            assert(is_sqrt_ceil(n, r));
        } else {
            assert((r + 1) * (r + 1) >= n && (r + 1 - 1) * (r + 1 - 1) < n) by (nonlinear_arith)
                requires
                    r >= 0,
                    r * r == n - 1,
            ;
            assert(is_sqrt_ceil(n, r + 1));
        }
    }
}

/// Rescaling three components by `num / len`, each quotient rounded toward
/// zero, gives a vector no longer than `cap` whenever the exact rescaled
/// vector is no longer than `cap`.
pub proof fn lemma_rescaled_length(a: int, b: int, c: int, num: int, len: int, cap: int)
    requires
        num >= 0,
        len > 0,
        cap >= 0,
        (a * a + b * b + c * c) * (num * num) <= (len * len) * (cap * cap),
    ensures
        ({
            let ra = div_toward_zero(a * num, len);
            let rb = div_toward_zero(b * num, len);
            let rc = div_toward_zero(c * num, len);
            ra * ra + rb * rb + rc * rc <= cap * cap
        }),
{
    let ra = div_toward_zero(a * num, len);
    let rb = div_toward_zero(b * num, len);
    let rc = div_toward_zero(c * num, len);
    lemma_rescaled_square(a, num, len);
    lemma_rescaled_square(b, num, len);
    lemma_rescaled_square(c, num, len);
    let x = ra * ra + rb * rb + rc * rc;
    let d = len * len;
    let k = cap * cap;
    let s = a * a + b * b + c * c;
    let n = num * num;
    assert(x * d == (ra * ra) * d + (rb * rb) * d + (rc * rc) * d) by (nonlinear_arith)
        requires
            x == ra * ra + rb * rb + rc * rc,
    ;
    assert(s * n == (a * a) * n + (b * b) * n + (c * c) * n) by (nonlinear_arith)
        requires
            s == a * a + b * b + c * c,
    ;
    assert(d > 0) by (nonlinear_arith)
        requires
            d == len * len,
            len > 0,
    ;
    assert(x <= k) by (nonlinear_arith)
        requires
            x * d <= d * k,
            d > 0,
    ;
}

/// One component of `lemma_rescaled_length`: the square of the rounded
/// quotient, scaled back up, does not exceed the square of the dividend.
pub proof fn lemma_rescaled_square(a: int, num: int, len: int)
    requires
        num >= 0,
        len > 0,
    ensures
        ({
            let r = div_toward_zero(a * num, len);
            (r * r) * (len * len) <= (a * a) * (num * num)
        }),
{
    let r = div_toward_zero(a * num, len);
    let m = magnitude(r);
    let p = magnitude(a * num);
    lemma_div_toward_zero(a * num, len);
    assert((r * r) * (len * len) == (m * len) * (m * len)) by (nonlinear_arith)
        requires
            m == r || m == -r,
    ;
    assert((a * a) * (num * num) == p * p) by (nonlinear_arith)
        requires
            p == a * num || p == -(a * num),
    ;
    assert((m * len) * (m * len) <= p * p) by (nonlinear_arith)
        requires
            0 <= m * len <= p,
    ;
}

/// A quotient rounded toward zero never exceeds the dividend in magnitude,
/// keeps its sign, and its product with the divisor does not overshoot.
pub proof fn lemma_div_toward_zero(a: int, d: int)
    requires
        d > 0,
    ensures
        magnitude(div_toward_zero(a, d)) == magnitude(a) / d,
        magnitude(div_toward_zero(a, d)) <= magnitude(a),
        magnitude(div_toward_zero(a, d)) * d <= magnitude(a),
        magnitude(a) < (magnitude(div_toward_zero(a, d)) + 1) * d,
        a >= 0 ==> div_toward_zero(a, d) >= 0,
        a <= 0 ==> div_toward_zero(a, d) <= 0,
{
    let m = magnitude(a);
    assert(0 <= m / d <= m && (m / d) * d <= m && m < (m / d + 1) * d) by (nonlinear_arith)
        requires
            m >= 0,
            d > 0,
    ;
}

/// A product of bounded factors is bounded by the product of the bounds.
pub proof fn lemma_product_bound(a: int, b: int, bound_a: int, bound_b: int)
    requires
        magnitude(a) <= bound_a,
        magnitude(b) <= bound_b,
    ensures
        magnitude(a * b) <= bound_a * bound_b,
        -(bound_a * bound_b) <= a * b <= bound_a * bound_b,
{
    assert(-(bound_a * bound_b) <= a * b <= bound_a * bound_b) by (nonlinear_arith)
        requires
            -bound_a <= a <= bound_a,
            -bound_b <= b <= bound_b,
    ;
}

/// The exact product of two 64-bit scalars.
pub fn product(a: i64, b: i64) -> (p: i128)
    ensures
        p == a * b,
        -0x4000_0000_0000_0000_0000_0000_0000_0000 <= p,
        p <= 0x4000_0000_0000_0000_0000_0000_0000_0000,
{
    proof {
        lemma_product_bound(
            a as int,
            b as int,
            0x8000_0000_0000_0000,
            0x8000_0000_0000_0000,
        );
    }
    (a as i128) * (b as i128)
}

/// Divides by a positive divisor, rounding toward zero.
pub fn quotient(a: i128, d: i128) -> (q: i128)
    requires
        d > 0,
        a > i128::MIN,
    ensures
        q == div_toward_zero(a as int, d as int),
{
    proof {
        lemma_div_toward_zero(a as int, d as int);
    }
    if a >= 0 {
        a / d
    } else {
        -((-a) / d)
    }
}

/// The product of two scalars divided by a positive scalar, rounded toward
/// zero: the basic fixed-point multiplication when `d` is `UNIT`.
pub fn mul_div(a: i64, b: i64, d: i64) -> (q: i128)
    requires
        d > 0,
    ensures
        q == div_toward_zero(a * b, d as int),
{
    quotient(product(a, b), d as i128)
}

/// The least integer whose square is at least `n`.
pub fn sqrt_ceil(n: u128) -> (r: u128)
    requires
        n < SQRT_DOMAIN,
    ensures
        r == ceil_sqrt(n as int),
        is_sqrt_ceil(n as int, r as int),
        r <= 0x8000_0000_0000_0000,
{
    let mut lo: u128 = 0;
    let mut hi: u128 = 0x8000_0000_0000_0000;
    assert(hi * hi == SQRT_DOMAIN) by (nonlinear_arith)
        requires
            hi == 0x8000_0000_0000_0000,
    ;
    while hi - lo > 1
        invariant
            lo < hi <= 0x8000_0000_0000_0000,
            lo * lo <= n,
            n < hi * hi,
        decreases hi - lo,
    {
        let mid: u128 = lo + (hi - lo) / 2;
        assert(mid * mid < 0x4000_0000_0000_0000_0000_0000_0000_0000) by (nonlinear_arith)
            requires
                mid < 0x8000_0000_0000_0000,
        ;
        if mid * mid <= n {
            lo = mid;
        } else {
            hi = mid;
        }
    }
    if lo * lo == n {
        proof {
            if lo > 0 {
                assert((lo - 1) * (lo - 1) < lo * lo) by (nonlinear_arith)
                    requires
                        lo > 0,
                ;
            }
            lemma_ceil_sqrt_unique(n as int, lo as int);
        }
        lo
    } else {
        proof {
            lemma_ceil_sqrt_unique(n as int, hi as int);
        }
        hi
    }
}

} // verus!
