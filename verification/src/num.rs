//! Exact fixed-point scalar arithmetic: the engine scalar is an `i64` binary
//! fixed-point number with 16 fractional bits (`FX_ONE` is one). All helpers
//! here state their results exactly over mathematical integers.

use vstd::arithmetic::div_mod::{
    lemma_div_is_ordered, lemma_div_multiples_vanish, lemma_mod_multiples_vanish,
    lemma_small_mod,
};
use vstd::prelude::*;

verus! {

/// One in the engine's binary fixed-point scale (16 fractional bits).
pub const FX_ONE: i64 = 65536;

/// Largest magnitude a well-formed fixed-point component (a time, a transform
/// component, a matrix entry) may take; keeps all intermediate products well
/// inside 128-bit range.
pub const FX_LIMIT: i64 = 0x4000_0000_0000;

/// Euclidean remainder of `a` modulo `m`: the unique `r` in `[0, m)` with
/// `a == q * m + r`.
pub fn euclid_mod(a: i64, m: i64) -> (r: i64)
    requires
        m > 0,
    ensures
        r == a as int % m as int,
        0 <= r < m,
{
    if a >= 0 {
        let r = (a as u64) % (m as u64);
        r as i64
    } else {
        let n: u128 = (-(a as i128)) as u128;
        let mu: u128 = m as u128;
        let r0: u128 = n % mu;
        proof {
            let q = n as int / m as int;
            assert(n as int == q * (m as int) + r0 as int) by {
                vstd::arithmetic::div_mod::lemma_fundamental_div_mod(n as int, m as int);
            }
            if r0 == 0 {
                assert(a as int == (-q) * (m as int) + 0) by (nonlinear_arith)
                    requires
                        a as int == -(n as int),
                        n as int == q * (m as int) + 0,
                ;
                lemma_mod_multiples_vanish(-q, 0, m as int);
                lemma_small_mod(0, m as nat);
            } else {
                assert(a as int == (-q - 1) * (m as int) + ((m as int) - r0 as int))
                    by (nonlinear_arith)
                    requires
                        a as int == -(n as int),
                        n as int == q * (m as int) + r0 as int,
                ;
                lemma_mod_multiples_vanish(-q - 1, m as int - r0 as int, m as int);
                lemma_small_mod((m as int - r0 as int) as nat, m as nat);
            }
        }
        if r0 == 0 {
            0
        } else {
            (mu - r0) as i64
        }
    }
}

/// Mathematical value of the exact linear interpolation between `a` and `b`
/// at fraction `num / den`: computed from whichever endpoint lies lower so
/// the integer division is over a non-negative numerator, which makes both
/// endpoints exact.
pub open spec fn spec_lerp(a: int, b: int, num: int, den: int) -> int {
    if b >= a {
        a + (b - a) * num / den
    } else {
        b + (a - b) * (den - num) / den
    }
}

/// Linear interpolation between fixed-point scalars, exact at both endpoints:
/// `num == 0` returns `a` and `num == den` returns `b`.
pub fn lerp_fx(a: i64, b: i64, num: i64, den: i64) -> (r: i64)
    requires
        den > 0,
        0 <= num <= den,
        -FX_LIMIT <= a <= FX_LIMIT,
        -FX_LIMIT <= b <= FX_LIMIT,
    ensures
        r == spec_lerp(a as int, b as int, num as int, den as int),
        num == 0 ==> r == a,
        num == den ==> r == b,
        a <= b ==> a <= r <= b,
        b <= a ==> b <= r <= a,
{
    if b >= a {
        let d: u128 = (b - a) as u128;
        proof {
            lemma_mul_in_range(d as int, num as int);
        }
        let q: u128 = (d * (num as u128)) / (den as u128);
        proof {
            lemma_interp_step(d as int, num as int, den as int);
        }
        a + (q as i64)
    } else {
        let d: u128 = (a - b) as u128;
        proof {
            lemma_mul_in_range(d as int, den as int - num as int);
        }
        let q: u128 = (d * ((den - num) as u128)) / (den as u128);
        proof {
            lemma_interp_step(d as int, den as int - num as int, den as int);
        }
        b + (q as i64)
    }
}

/// The exact interpolation reproduces its endpoints: fraction zero gives `a`
/// and fraction one gives `b`.
pub proof fn lemma_spec_lerp_endpoints(a: int, b: int, num: int, den: int)
    requires
        den > 0,
        0 <= num <= den,
    ensures
        num == 0 ==> spec_lerp(a, b, num, den) == a,
        num == den ==> spec_lerp(a, b, num, den) == b,
{
    if b >= a {
        lemma_interp_step(b - a, num, den);
    } else {
        lemma_interp_step(a - b, den - num, den);
    }
}

/// A product of a small non-negative factor and a machine-word-sized factor
/// fits comfortably in 128 bits.
proof fn lemma_mul_in_range(d: int, num: int)
    requires
        0 <= d < 0x1_0000_0000_0000,
        0 <= num < 0x8000_0000_0000_0000,
    ensures
        0 <= d * num < 0x1_0000_0000_0000_0000_0000_0000_0000_0000,
{
    assert(d * num < 0x1_0000_0000_0000 * 0x8000_0000_0000_0000) by (nonlinear_arith)
        requires
            0 <= d < 0x1_0000_0000_0000,
            0 <= num < 0x8000_0000_0000_0000,
    ;
}

/// The interpolation step `d * num / den` stays in `[0, d]` and is exactly
/// `0` at `num == 0` and exactly `d` at `num == den`.
proof fn lemma_interp_step(d: int, num: int, den: int)
    requires
        d >= 0,
        den > 0,
        0 <= num <= den,
    ensures
        0 <= d * num / den <= d,
        num == 0 ==> d * num / den == 0,
        num == den ==> d * num / den == d,
{
    assert(0 <= d * num) by (nonlinear_arith)
        requires
            d >= 0,
            num >= 0,
    ;
    assert(d * num <= d * den) by (nonlinear_arith)
        requires
            d >= 0,
            num <= den,
    ;
    lemma_div_is_ordered(0, d * num, den);
    lemma_div_is_ordered(d * num, d * den, den);
    vstd::arithmetic::div_mod::lemma_div_by_multiple(d, den);
    assert(d * den == den * d) by (nonlinear_arith);
    if num == 0 {
        assert(d * 0 == 0);
    }
    if num == den {
        assert(d * num == d * den);
    }
}

/// Product of two machine integers, exact in 128 bits.
pub fn mul_wide(a: i64, b: i64) -> (r: i128)
    ensures
        r == a as int * b as int,
{
    proof {
        assert(-0x4000_0000_0000_0000_0000_0000_0000_0000 <= a as int * b as int
            <= 0x4000_0000_0000_0000_0000_0000_0000_0000) by (nonlinear_arith)
            requires
                -0x8000_0000_0000_0000 <= a as int <= 0x7FFF_FFFF_FFFF_FFFF,
                -0x8000_0000_0000_0000 <= b as int <= 0x7FFF_FFFF_FFFF_FFFF,
        ;
    }
    (a as i128) * (b as i128)
}

/// Quotient of `p` by `k` rounded toward zero (the machine division).
pub open spec fn spec_div_trunc(p: int, k: int) -> int
    recommends
        k > 0,
{
    if p >= 0 {
        p / k
    } else {
        -((-p) / k)
    }
}

/// Division of a signed 128-bit value by a positive divisor, rounding toward
/// zero; the result never exceeds the dividend in magnitude.
pub fn div_trunc(p: i128, k: i128) -> (r: i128)
    requires
        k > 0,
        p > -0x8000_0000_0000_0000_0000_0000_0000_0000,
    ensures
        r == spec_div_trunc(p as int, k as int),
        p >= 0 ==> 0 <= r <= p,
        p < 0 ==> p <= r <= 0,
{
    proof {
        lemma_div_trunc_small(if p >= 0 { p as int } else { -(p as int) }, k as int);
    }
    if p >= 0 {
        ((p as u128) / (k as u128)) as i128
    } else {
        let n: u128 = (-p) as u128;
        -((n / (k as u128)) as i128)
    }
}

/// A non-negative integer divided by a positive integer stays in `[0, p]`.
proof fn lemma_div_trunc_small(p: int, k: int)
    requires
        p >= 0,
        k > 0,
    ensures
        0 <= p / k <= p,
{
    lemma_div_is_ordered(0, p, k);
    assert(p / k <= p) by {
        vstd::arithmetic::div_mod::lemma_fundamental_div_mod(p, k);
        assert(k * (p / k) >= p / k) by (nonlinear_arith)
            requires
                k >= 1,
                p / k >= 0,
        ;
    }
}

/// A truncating quotient of a value bounded by `m * k` is bounded by `m`.
pub proof fn lemma_div_trunc_bound(p: int, k: int, m: int)
    requires
        k > 0,
        m >= 0,
        -(m * k) <= p <= m * k,
    ensures
        -m <= spec_div_trunc(p, k) <= m,
{
    lemma_div_multiples_vanish(m, k);
    assert(m * k == k * m) by (nonlinear_arith);
    if p >= 0 {
        lemma_div_is_ordered(0, p, k);
        lemma_div_is_ordered(p, m * k, k);
    } else {
        lemma_div_is_ordered(0, -p, k);
        lemma_div_is_ordered(-p, m * k, k);
    }
}

/// Exact range test against the fixed-point component limit.
pub fn in_fx_range(v: i64) -> (r: bool)
    ensures
        r == (-FX_LIMIT <= v <= FX_LIMIT),
{
    (v as i128) >= -(FX_LIMIT as i128) && (v as i128) <= FX_LIMIT as i128
}

/// `r` is the integer square root of `x`.
pub open spec fn is_isqrt(x: int, r: int) -> bool {
    0 <= r && r * r <= x && x < (r + 1) * (r + 1)
}

/// The integer square root of `x`, as a mathematical function.
pub open spec fn spec_isqrt(x: int) -> int {
    choose|r: int| is_isqrt(x, r)
}

/// Integer square roots exist and are unique, so `spec_isqrt` is pointwise
/// characterized by `is_isqrt`.
pub proof fn lemma_isqrt_exists(x: int)
    requires
        x >= 0,
    ensures
        is_isqrt(x, spec_isqrt(x)),
    decreases x,
{
    if x == 0 {
        assert(is_isqrt(0, 0));
    } else {
        lemma_isqrt_exists(x - 1);
        let r = spec_isqrt(x - 1);
        if x < (r + 1) * (r + 1) {
            assert(is_isqrt(x, r));
        } else {
            assert(x == (r + 1) * (r + 1));
            assert((r + 1 + 1) * (r + 1 + 1) > (r + 1) * (r + 1)) by (nonlinear_arith)
                requires
                    r >= 0,
            ;
            assert(is_isqrt(x, r + 1));
        }
    }
}

/// Two integer square roots of the same value are equal.
pub proof fn lemma_isqrt_unique(x: int, r1: int, r2: int)
    requires
        is_isqrt(x, r1),
        is_isqrt(x, r2),
    ensures
        r1 == r2,
{
    if r1 < r2 {
        assert((r1 + 1) * (r1 + 1) <= r2 * r2) by (nonlinear_arith)
            requires
                0 <= r1 + 1 <= r2,
        ;
    }
    if r2 < r1 {
        assert((r2 + 1) * (r2 + 1) <= r1 * r1) by (nonlinear_arith)
            requires
                0 <= r2 + 1 <= r1,
        ;
    }
}

/// `|a * b| <= m * m` when both factors are bounded by `m`.
pub proof fn lemma_bounded_product(a: int, b: int, m: int)
    requires
        0 <= m,
        -m <= a <= m,
        -m <= b <= m,
    ensures
        -(m * m) <= a * b <= m * m,
{
    assert(-(m * m) <= a * b <= m * m) by (nonlinear_arith)
        requires
            0 <= m,
            -m <= a <= m,
            -m <= b <= m,
    ;
}

/// Integer square root: the largest `r` with `r * r <= x`.
pub fn isqrt(x: u64) -> (r: u64)
    ensures
        is_isqrt(x as int, r as int),
        r == spec_isqrt(x as int),
{
    let mut lo: u64 = 0;
    let mut hi: u64 = 0x1_0000_0000;
    while lo + 1 < hi
        invariant
            lo < hi,
            hi <= 0x1_0000_0000,
            lo * lo <= x,
            x < hi * hi,
        decreases hi - lo,
    {
        let mid: u64 = lo + (hi - lo) / 2;
        proof {
            assert(mid * mid <= 0xFFFF_FFFF * 0xFFFF_FFFFu64) by (nonlinear_arith)
                requires
                    0 <= mid <= 0xFFFF_FFFFu64,
            ;
        }
        if mid * mid <= x {
            lo = mid;
        } else {
            hi = mid;
        }
    }
    proof {
        lemma_isqrt_exists(x as int);
        lemma_isqrt_unique(x as int, lo as int, spec_isqrt(x as int));
    }
    lo
}

} // verus!
