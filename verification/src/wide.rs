//! Exact 256-bit products of `u128` factors.
//!
//! Several comparisons of the engine (rational equality, the R-squared
//! threshold check) multiply numbers whose product does not fit in `i128`.
//! This module computes such products exactly as a high/low pair of `u128`
//! words and compares them, so every comparison of the engine is exact.

use vstd::prelude::*;

verus! {

/// Two to the sixty-fourth power.
pub const TWO64: u128 = 0x1_0000_0000_0000_0000;

/// Low sixty-four bits set.
pub const MASK64: u128 = 0xFFFF_FFFF_FFFF_FFFF;

/// Two to the one-hundred-twenty-eighth power, as a spec-level integer.
pub open spec fn pow128() -> int {
    (TWO64 as int) * (TWO64 as int)
}

/// The integer a high/low pair of words stands for.
pub open spec fn pair_value(hi: u128, lo: u128) -> int {
    (hi as int) * pow128() + (lo as int)
}

proof fn lemma_split64(x: u128)
    ensures
        x == (x >> 64) * (TWO64 as int) + (x & MASK64),
        (x >> 64) < TWO64,
        (x & MASK64) < TWO64,
{
    assert(x == ((x >> 64) as u128) * TWO64 + (x & MASK64) && ((x >> 64) as u128) < TWO64
        && (x & MASK64) < TWO64) by (bit_vector);
}

/// The exact product of two `u128` factors, as a high/low pair.
pub fn wide_mul(a: u128, b: u128) -> (r: (u128, u128))
    ensures
        pair_value(r.0, r.1) == (a as int) * (b as int),
{
    let a_hi: u128 = a >> 64;
    let a_lo: u128 = a & MASK64;
    let b_hi: u128 = b >> 64;
    let b_lo: u128 = b & MASK64;
    proof {
        lemma_split64(a);
        lemma_split64(b);
    }
    assert(a_lo * b_lo <= (TWO64 - 1) * (TWO64 - 1)) by (nonlinear_arith)
        requires
            a_lo < TWO64,
            b_lo < TWO64,
    ;
    assert(a_lo * b_hi <= (TWO64 - 1) * (TWO64 - 1)) by (nonlinear_arith)
        requires
            a_lo < TWO64,
            b_hi < TWO64,
    ;
    assert(a_hi * b_lo <= (TWO64 - 1) * (TWO64 - 1)) by (nonlinear_arith)
        requires
            a_hi < TWO64,
            b_lo < TWO64,
    ;
    assert(a_hi * b_hi <= (TWO64 - 1) * (TWO64 - 1)) by (nonlinear_arith)
        requires
            a_hi < TWO64,
            b_hi < TWO64,
    ;
    let p00: u128 = a_lo * b_lo;
    let p01: u128 = a_lo * b_hi;
    let p10: u128 = a_hi * b_lo;
    let p11: u128 = a_hi * b_hi;
    proof {
        lemma_split64(p00);
        lemma_split64(p01);
        lemma_split64(p10);
    }
    let mid: u128 = (p00 >> 64) + (p01 & MASK64) + (p10 & MASK64);
    proof {
        lemma_split64(mid);
    }
    let lo: u128 = (p00 & MASK64) + ((mid & MASK64) * TWO64);
    let hi: u128 = p11 + (p01 >> 64) + (p10 >> 64) + (mid >> 64);
    proof {
        let t: int = TWO64 as int;
        assert((a as int) * (b as int) == ((p11 as int) + (p01 >> 64) + (p10 >> 64) + (mid
            >> 64)) * (t * t) + ((p00 & MASK64) + (mid & MASK64) * t)) by (nonlinear_arith)
            requires
                t == TWO64 as int,
                a == a_hi * t + a_lo,
                b == b_hi * t + b_lo,
                p00 == a_lo * b_lo,
                p01 == a_lo * b_hi,
                p10 == a_hi * b_lo,
                p11 == a_hi * b_hi,
                p00 == (p00 >> 64) * t + (p00 & MASK64),
                p01 == (p01 >> 64) * t + (p01 & MASK64),
                p10 == (p10 >> 64) * t + (p10 & MASK64),
                mid == (p00 >> 64) + (p01 & MASK64) + (p10 & MASK64),
                mid == (mid >> 64) * t + (mid & MASK64),
        ;
    }
    (hi, lo)
}

/// Scales a high/low pair by a factor below two to the sixty-fourth power;
/// the high word must also be below that power, so the result still fits.
pub fn wide_scale(hi: u128, lo: u128, k: u128) -> (r: (u128, u128))
    requires
        hi < TWO64,
        k < TWO64,
    ensures
        pair_value(r.0, r.1) == pair_value(hi, lo) * k,
{
    proof {
        lemma_split64(lo);
    }
    let lo_hi: u128 = lo >> 64;
    let lo_lo: u128 = lo & MASK64;
    assert(lo_lo * k <= (TWO64 - 1) * (TWO64 - 1) && lo_hi * k <= (TWO64 - 1) * (TWO64 - 1)
        && hi * k <= (TWO64 - 1) * (TWO64 - 1)) by (nonlinear_arith)
        requires
            lo_lo < TWO64,
            lo_hi < TWO64,
            hi < TWO64,
            k < TWO64,
    ;
    let m0: u128 = lo_lo * k;
    let m1: u128 = lo_hi * k;
    let m2: u128 = hi * k;
    proof {
        lemma_split64(m0);
        lemma_split64(m1);
    }
    let mid: u128 = (m0 >> 64) + (m1 & MASK64);
    proof {
        lemma_split64(mid);
    }
    let r_lo: u128 = (m0 & MASK64) + ((mid & MASK64) * TWO64);
    let r_hi: u128 = m2 + (m1 >> 64) + (mid >> 64);
    proof {
        let t: int = TWO64 as int;
        assert(((hi as int) * (t * t) + (lo as int)) * (k as int) == ((m2 as int) + (m1 >> 64)
            + (mid >> 64)) * (t * t) + ((m0 & MASK64) + (mid & MASK64) * t)) by (nonlinear_arith)
            requires
                t == TWO64 as int,
                lo == lo_hi * t + lo_lo,
                m0 == lo_lo * k,
                m1 == lo_hi * k,
                m2 == hi * k,
                m0 == (m0 >> 64) * t + (m0 & MASK64),
                m1 == (m1 >> 64) * t + (m1 & MASK64),
                mid == (m0 >> 64) + (m1 & MASK64),
                mid == (mid >> 64) * t + (mid & MASK64),
        ;
    }
    (r_hi, r_lo)
}

/// A product below two to the one-hundred-ninety-second power leaves the
/// high word below two to the sixty-fourth, so it can be scaled further.
pub proof fn lemma_hi_bound(hi: u128, lo: u128)
    requires
        pair_value(hi, lo) < pow128() * (TWO64 as int),
    ensures
        hi < TWO64,
{
    assert(hi < TWO64) by (nonlinear_arith)
        requires
            (hi as int) * pow128() + (lo as int) < pow128() * (TWO64 as int),
            lo >= 0,
            pow128() > 0,
            hi >= 0,
    ;
}

/// Strict order of the integers two high/low pairs stand for.
pub fn wide_lt(a: (u128, u128), b: (u128, u128)) -> (r: bool)
    ensures
        r <==> pair_value(a.0, a.1) < pair_value(b.0, b.1),
{
    proof {
        assert(a.0 < b.0 ==> pair_value(a.0, a.1) < pair_value(b.0, b.1)) by (nonlinear_arith)
            requires
                a.1 < pow128(),
                pow128() > 0,
        ;
        assert(a.0 > b.0 ==> pair_value(a.0, a.1) > pair_value(b.0, b.1)) by (nonlinear_arith)
            requires
                b.1 < pow128(),
                pow128() > 0,
        ;
    }
    a.0 < b.0 || (a.0 == b.0 && a.1 < b.1)
}

/// Equality of the integers two high/low pairs stand for.
pub fn wide_eq(a: (u128, u128), b: (u128, u128)) -> (r: bool)
    ensures
        r <==> pair_value(a.0, a.1) == pair_value(b.0, b.1),
{
    proof {
        assert(pair_value(a.0, a.1) == pair_value(b.0, b.1) ==> a.0 == b.0 && a.1 == b.1)
            by (nonlinear_arith)
            requires
                a.1 < pow128(),
                b.1 < pow128(),
                pow128() > 0,
        ;
    }
    a.0 == b.0 && a.1 == b.1
}

/// The integer square root of a nonnegative integer.
pub open spec fn spec_isqrt(n: int) -> int {
    choose|r: int| r >= 0 && #[trigger] (r * r) <= n < (r + 1) * (r + 1)
}

/// The integer square root is the unique nonnegative `r` with
/// `r * r <= n < (r + 1) * (r + 1)`.
pub proof fn lemma_isqrt_unique(n: int, r: int)
    requires
        r >= 0,
        r * r <= n < (r + 1) * (r + 1),
    ensures
        spec_isqrt(n) == r,
{
    assert(r >= 0 && r * r <= n < (r + 1) * (r + 1));
    let c = spec_isqrt(n);
    assert(c >= 0 && c * c <= n < (c + 1) * (c + 1));
    assert(c == r) by (nonlinear_arith)
        requires
            r >= 0,
            c >= 0,
            r * r <= n < (r + 1) * (r + 1),
            c * c <= n < (c + 1) * (c + 1),
    ;
}

/// The integer square root: the greatest `r` with `r * r <= n`.
pub fn isqrt(n: u128) -> (r: u128)
    ensures
        (r as int) * (r as int) <= n < ((r as int) + 1) * ((r as int) + 1),
        r == spec_isqrt(n as int),
{
    let mut lo: u128 = 0;
    let mut hi: u128 = TWO64;
    proof {
        assert((TWO64 as int) * (TWO64 as int) > u128::MAX) by (nonlinear_arith)
            requires
                TWO64 == 0x1_0000_0000_0000_0000u128,
        ;
    }
    while lo + 1 < hi
        invariant
            lo < hi <= TWO64,
            (lo as int) * (lo as int) <= n,
            n < (hi as int) * (hi as int),
        decreases hi - lo,
    {
        let mid: u128 = lo + (hi - lo) / 2;
        assert(mid * mid <= (TWO64 - 1) * (TWO64 - 1)) by (nonlinear_arith)
            requires
                mid < TWO64,
        ;
        if mid * mid <= n {
            lo = mid;
        } else {
            hi = mid;
        }
    }
    proof {
        lemma_isqrt_unique(n as int, lo as int);
    }
    lo
}

} // verus!
