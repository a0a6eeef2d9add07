//! The reference numeric types of the engine.
//!
//! Every dataset element and every threshold is a [`Value`]: a fixed-point
//! number counted in thousandths of a unit, with an explicit not-a-number
//! marker so that invalid measurements can be represented and rejected.
//! Statistics are reduced exactly into [`Ratio`], an exact rational number.

use crate::wide;
use vstd::prelude::*;

verus! {

/// Raw fixed-point steps per unit: a `Value` is counted in thousandths.
pub const SCALE: i64 = 1000;

/// Largest magnitude, in raw thousandths, that a `Value` may hold.
/// This bounds every dataset element to +/- 100 000 units, which keeps
/// every statistic of a bounded dataset inside `i128` arithmetic.
pub const RAW_BOUND: i64 = 100_000_000;

/// A fixed-point numeric value: `raw` thousandths of a unit, or the
/// not-a-number marker (in which case `raw` is zero).
#[derive(Clone, Copy, PartialEq, Eq, Structural, Debug)]
pub struct Value {
    raw: i64,
    nan: bool,
}

impl Value {
    #[verifier::type_invariant]
    spec fn type_inv(self) -> bool {
        &&& self.nan ==> self.raw == 0
        &&& -RAW_BOUND <= self.raw <= RAW_BOUND
    }

    /// The raw count of thousandths this value stands for.
    pub closed spec fn spec_raw(self) -> int {
        self.raw as int
    }

    /// Whether this value is the not-a-number marker.
    pub closed spec fn spec_is_nan(self) -> bool {
        self.nan
    }

    /// Builds a value from a raw count of thousandths.
    pub fn from_milli(raw: i64) -> (r: Value)
        requires
            -RAW_BOUND <= raw <= RAW_BOUND,
        ensures
            r.spec_raw() == raw,
            !r.spec_is_nan(),
    {
        Value { raw, nan: false }
    }

    /// Builds a value from a whole number of units.
    pub fn from_int(units: i64) -> (r: Value)
        requires
            -(RAW_BOUND as int) / (SCALE as int) <= units <= (RAW_BOUND as int) / (SCALE as int),
        ensures
            r.spec_raw() == units * SCALE,
            !r.spec_is_nan(),
    {
        Value { raw: units * SCALE, nan: false }
    }

    /// The not-a-number marker.
    pub fn nan() -> (r: Value)
        ensures
            r.spec_is_nan(),
            r.spec_raw() == 0,
    {
        Value { raw: 0, nan: true }
    }

    /// Reads the raw count of thousandths back, together with the bounds
    /// that every `Value` obeys.
    pub fn raw(&self) -> (r: i64)
        ensures
            r == self.spec_raw(),
            -RAW_BOUND <= r <= RAW_BOUND,
            self.spec_is_nan() ==> r == 0,
    {
        proof {
            use_type_invariant(self);
        }
        self.raw
    }

    /// Whether this value is the not-a-number marker.
    pub fn is_nan(&self) -> (r: bool)
        ensures
            r == self.spec_is_nan(),
    {
        self.nan
    }
}

/// Largest numerator magnitude a `Ratio` may hold.
pub const NUM_CAP: i128 = 1_000_000_000_000_000_000_000_000_000_000_000_000;

/// Largest denominator a `Ratio` may hold.
pub const DEN_CAP: i128 = 1_000_000_000_000_000_000_000_000_000_000;

/// An exact rational number `num / den` with a positive denominator.
/// Statistics reduce datasets into this type, so indicators carry no
/// rounding at all; only display and the square root round, and they do so
/// with exactly specified results.
#[derive(Clone, Copy, PartialEq, Eq, Structural, Debug)]
pub struct Ratio {
    num: i128,
    den: i128,
}

/// The magnitude of an `i128`, as a `u128`.
pub fn abs_u128(x: i128) -> (r: u128)
    requires
        x != i128::MIN,
    ensures
        x >= 0 ==> r == x,
        x < 0 ==> r == -(x as int),
{
    if x < 0 {
        (-x) as u128
    } else {
        x as u128
    }
}

impl Ratio {
    #[verifier::type_invariant]
    spec fn type_inv(self) -> bool {
        &&& 0 < self.den <= DEN_CAP
        &&& -NUM_CAP <= self.num <= NUM_CAP
    }

    /// The numerator.
    pub closed spec fn spec_num(self) -> int {
        self.num as int
    }

    /// The denominator.
    pub closed spec fn spec_den(self) -> int {
        self.den as int
    }

    /// Whether this ratio and the fraction `n / d` stand for the same
    /// rational number.
    pub open spec fn spec_same_frac(self, n: int, d: int) -> bool {
        self.spec_num() * d == n * self.spec_den()
    }

    /// Builds the exact rational `num / den`.
    pub fn new(num: i64, den: i64) -> (r: Ratio)
        requires
            den > 0,
        ensures
            r.spec_num() == num,
            r.spec_den() == den,
    {
        Ratio { num: num as i128, den: den as i128 }
    }

    /// Builds the exact rational `num / den` from wider parts; the engine
    /// uses this for the results of its own exact arithmetic.
    pub(crate) fn from_parts(num: i128, den: i128) -> (r: Ratio)
        requires
            0 < den <= DEN_CAP,
            -NUM_CAP <= num <= NUM_CAP,
        ensures
            r.spec_num() == num,
            r.spec_den() == den,
    {
        Ratio { num, den }
    }

    /// Reads the numerator back, with the bounds every `Ratio` obeys.
    pub fn num(&self) -> (r: i128)
        ensures
            r == self.spec_num(),
            -NUM_CAP <= r <= NUM_CAP,
    {
        proof {
            use_type_invariant(self);
        }
        self.num
    }

    /// Reads the denominator back, with the bounds every `Ratio` obeys.
    pub fn den(&self) -> (r: i128)
        ensures
            r == self.spec_den(),
            0 < r <= DEN_CAP,
    {
        proof {
            use_type_invariant(self);
        }
        self.den
    }

    /// Whether two ratios stand for the same rational number, decided
    /// exactly by cross multiplication.
    pub fn same_value(&self, other: &Ratio) -> (r: bool)
        ensures
            r <==> self.spec_num() * other.spec_den() == other.spec_num() * self.spec_den(),
    {
        proof {
            use_type_invariant(self);
            use_type_invariant(other);
        }
        let n1: i128 = self.num;
        let d1: i128 = self.den;
        let n2: i128 = other.num;
        let d2: i128 = other.den;
        if (n1 < 0) != (n2 < 0) {
            proof {
                assert(n1 < 0 <= n2 && d1 > 0 && d2 > 0 ==> n1 * d2 < 0 <= n2 * d1)
                    by (nonlinear_arith);
                assert(n2 < 0 <= n1 && d1 > 0 && d2 > 0 ==> n2 * d1 < 0 <= n1 * d2)
                    by (nonlinear_arith);
            }
            false
        } else {
            let m1 = wide::wide_mul(abs_u128(n1), abs_u128(d2));
            let m2 = wide::wide_mul(abs_u128(n2), abs_u128(d1));
            proof {
                assert(n1 >= 0 && n2 >= 0 && d1 > 0 && d2 > 0 ==> (n1 * d2 == n2 * d1 <==> (n1
                    as int) * (d2 as int) == (n2 as int) * (d1 as int))) by (nonlinear_arith);
                assert(n1 < 0 && n2 < 0 && d1 > 0 && d2 > 0 ==> (n1 * d2 == n2 * d1 <==> (-(n1
                    as int)) * (d2 as int) == (-(n2 as int)) * (d1 as int))) by (nonlinear_arith);
            }
            wide::wide_eq(m1, m2)
        }
    }
}

} // verus!
