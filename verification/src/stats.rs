//! Statistical indicators over datasets, computed exactly.
//!
//! Every function first checks its preconditions — matching lengths, a
//! non-empty dataset, a bounded sample count, no not-a-number entries —
//! and reports a violation as a [`StatError`] instead of computing
//! undefined statistics. The indicators themselves are reduced into exact
//! rationals over the raw fixed-point representation.

use crate::numberish::Nanish;
use crate::numberish::Numberish;
use crate::numeric::Ratio;
use crate::numeric::Value;
use crate::numeric::RAW_BOUND;
use crate::numeric::SCALE;
use vstd::prelude::*;
use vstd::string::StringExecFns;

verus! {

/// Largest dataset length a statistic accepts; beyond it the sums of
/// products would no longer fit the machine's exact integer arithmetic.
pub const MAX_SAMPLES: usize = 100_000;

/// A precondition violation of the statistics module.
#[derive(Clone, Copy, PartialEq, Eq, Structural, Debug)]
pub enum StatError {
    /// A dataset was empty.
    EmptyDataset,
    /// Two paired datasets had different lengths.
    LengthMismatch,
    /// A not-a-number entry was found where a number was required.
    InvalidValue,
    /// The dataset was longer than [`MAX_SAMPLES`].
    TooManySamples,
    /// The independent dataset of a regression had no variance at all.
    ZeroVariance,
}

impl StatError {
    /// The text of this error.
    pub open spec fn spec_message(self) -> Seq<char> {
        match self {
            StatError::EmptyDataset => "the dataset is empty"@,
            StatError::LengthMismatch => "the datasets have different lengths"@,
            StatError::InvalidValue => "the dataset holds a value that is not a number"@,
            StatError::TooManySamples => "the dataset holds too many samples"@,
            StatError::ZeroVariance => "the independent dataset has zero variance"@,
        }
    }

    /// Renders the text of this error.
    pub fn message(&self) -> (s: String)
        ensures
            s@ == self.spec_message(),
    {
        match self {
            StatError::EmptyDataset => String::from_str("the dataset is empty"),
            StatError::LengthMismatch => String::from_str("the datasets have different lengths"),
            StatError::InvalidValue => String::from_str(
                "the dataset holds a value that is not a number",
            ),
            StatError::TooManySamples => String::from_str("the dataset holds too many samples"),
            StatError::ZeroVariance => String::from_str(
                "the independent dataset has zero variance",
            ),
        }
    }
}

/// Whether some entry of a dataset is not a number.
pub open spec fn any_nan<T: Nanish>(s: Seq<T>) -> bool {
    exists|i: int| 0 <= i < s.len() && s[i].spec_is_nan()
}

/// The raw fixed-point representations of a dataset.
pub open spec fn raws(x: Seq<Value>) -> Seq<int> {
    x.map_values(|v: Value| v.spec_raw())
}

/// The sum of a sequence of integers.
pub open spec fn sum(s: Seq<int>) -> int
    decreases s.len(),
{
    if s.len() == 0 {
        0
    } else {
        sum(s.drop_last()) + s.last()
    }
}

/// The sum of the pointwise products of two equally long sequences.
pub open spec fn sum_mul(x: Seq<int>, y: Seq<int>) -> int
    recommends
        x.len() == y.len(),
    decreases x.len(),
{
    if x.len() == 0 {
        0
    } else {
        sum_mul(x.drop_last(), y.drop_last()) + x.last() * y.last()
    }
}

/// The sum of the pointwise differences `y - x` of two equally long
/// sequences.
pub open spec fn sum_diff(x: Seq<int>, y: Seq<int>) -> int
    recommends
        x.len() == y.len(),
    decreases x.len(),
{
    if x.len() == 0 {
        0
    } else {
        sum_diff(x.drop_last(), y.drop_last()) + (y.last() - x.last())
    }
}

/// The sum of the squared pointwise differences of two equally long
/// sequences.
pub open spec fn sum_sq_diff(x: Seq<int>, y: Seq<int>) -> int
    recommends
        x.len() == y.len(),
    decreases x.len(),
{
    if x.len() == 0 {
        0
    } else {
        sum_sq_diff(x.drop_last(), y.drop_last()) + (y.last() - x.last()) * (y.last() - x.last())
    }
}

proof fn lemma_sum_take_step(s: Seq<int>, i: int)
    requires
        0 <= i < s.len(),
    ensures
        sum(s.take(i + 1)) == sum(s.take(i)) + s[i],
{
    assert(s.take(i + 1).drop_last() =~= s.take(i));
}

proof fn lemma_sum_mul_take_step(x: Seq<int>, y: Seq<int>, i: int)
    requires
        0 <= i < x.len(),
        x.len() == y.len(),
    ensures
        sum_mul(x.take(i + 1), y.take(i + 1)) == sum_mul(x.take(i), y.take(i)) + x[i] * y[i],
{
    assert(x.take(i + 1).drop_last() =~= x.take(i));
    assert(y.take(i + 1).drop_last() =~= y.take(i));
}

proof fn lemma_sum_diff_take_step(x: Seq<int>, y: Seq<int>, i: int)
    requires
        0 <= i < x.len(),
        x.len() == y.len(),
    ensures
        sum_diff(x.take(i + 1), y.take(i + 1)) == sum_diff(x.take(i), y.take(i)) + (y[i] - x[i]),
{
    assert(x.take(i + 1).drop_last() =~= x.take(i));
    assert(y.take(i + 1).drop_last() =~= y.take(i));
}

proof fn lemma_sum_sq_diff_take_step(x: Seq<int>, y: Seq<int>, i: int)
    requires
        0 <= i < x.len(),
        x.len() == y.len(),
    ensures
        sum_sq_diff(x.take(i + 1), y.take(i + 1)) == sum_sq_diff(x.take(i), y.take(i)) + (y[i]
            - x[i]) * (y[i] - x[i]),
{
    assert(x.take(i + 1).drop_last() =~= x.take(i));
    assert(y.take(i + 1).drop_last() =~= y.take(i));
}

/// The precondition check every single-dataset statistic applies, in
/// order: an empty dataset, an oversized dataset, a not-a-number entry.
/// `None` means the dataset is acceptable.
pub open spec fn spec_dataset_err(x: Seq<Value>) -> Option<StatError> {
    if x.len() == 0 {
        Some(StatError::EmptyDataset)
    } else if x.len() > MAX_SAMPLES {
        Some(StatError::TooManySamples)
    } else if any_nan(x) {
        Some(StatError::InvalidValue)
    } else {
        None
    }
}

/// The precondition check every pairwise statistic applies: first the
/// lengths must match, then the shared length is checked as for a single
/// dataset, and not-a-number entries of either dataset are rejected.
pub open spec fn spec_pair_err(x: Seq<Value>, y: Seq<Value>) -> Option<StatError> {
    if x.len() != y.len() {
        Some(StatError::LengthMismatch)
    } else if x.len() == 0 {
        Some(StatError::EmptyDataset)
    } else if x.len() > MAX_SAMPLES {
        Some(StatError::TooManySamples)
    } else if any_nan(x) || any_nan(y) {
        Some(StatError::InvalidValue)
    } else {
        None
    }
}

/// Scans a dataset for not-a-number entries.
fn find_nan(x: &[Value]) -> (r: bool)
    ensures
        r == any_nan(x@),
{
    let n = x.len();
    let mut i: usize = 0;
    while i < n
        invariant
            0 <= i <= n,
            n == x@.len(),
            forall|j: int| 0 <= j < i ==> !x@[j].spec_is_nan(),
        decreases n - i,
    {
        if x[i].is_nan() {
            return true;
        }
        i += 1;
    }
    false
}

/// The minimum and maximum of a dataset, as a pair, in that order.
///
/// Fails with `EmptyDataset` on an empty dataset and with `InvalidValue`
/// when any entry is not a number; otherwise both extremes are entries of
/// the dataset and bound every entry.
pub fn min_max<T: Numberish>(x: &[T]) -> (r: Result<(T, T), StatError>)
    ensures
        match r {
            Result::Ok(p) => {
                &&& x@.len() > 0
                &&& !any_nan(x@)
                &&& exists|i: int| 0 <= i < x@.len() && x@[i] == p.0
                &&& exists|i: int| 0 <= i < x@.len() && x@[i] == p.1
                &&& forall|i: int|
                    0 <= i < x@.len() ==> p.0.ord_key() <= #[trigger] x@[i].ord_key()
                        <= p.1.ord_key()
            },
            Result::Err(e) => {
                &&& x@.len() == 0 || any_nan(x@)
                &&& e == if x@.len() == 0 {
                    StatError::EmptyDataset
                } else {
                    StatError::InvalidValue
                }
            },
        },
{
    let n = x.len();
    if n == 0 {
        return Result::Err(StatError::EmptyDataset);
    }
    let first = x[0];
    if first.is_it_nan() {
        return Result::Err(StatError::InvalidValue);
    }
    let mut mn = first;
    let mut mx = first;
    let mut i: usize = 1;
    while i < n
        invariant
            1 <= i <= n,
            n == x@.len(),
            forall|j: int| 0 <= j < i ==> !x@[j].spec_is_nan(),
            exists|j: int| 0 <= j < i && x@[j] == mn,
            exists|j: int| 0 <= j < i && x@[j] == mx,
            forall|j: int|
                0 <= j < i ==> mn.ord_key() <= #[trigger] x@[j].ord_key() <= mx.ord_key(),
        decreases n - i,
    {
        let v = x[i];
        if v.is_it_nan() {
            return Result::Err(StatError::InvalidValue);
        }
        if v.lt_num(&mn) {
            mn = v;
        }
        if mx.lt_num(&v) {
            mx = v;
        }
        i += 1;
    }
    Result::Ok((mn, mx))
}

/// The arithmetic mean of a dataset, as the exact rational "sum of the
/// entries over their count".
///
/// Fails exactly as [`spec_dataset_err`] prescribes; on success the
/// result is the exact rational whose numerator is the sum of the raw
/// fixed-point entries and whose denominator is the scaled count.
pub fn mean(x: &[Value]) -> (r: Result<Ratio, StatError>)
    ensures
        match r {
            Result::Ok(m) => {
                &&& spec_dataset_err(x@) is None
                &&& m.spec_num() == sum(raws(x@))
                &&& m.spec_den() == SCALE * x@.len()
            },
            Result::Err(e) => spec_dataset_err(x@) == Some(e),
        },
{
    let n = x.len();
    if n == 0 {
        return Result::Err(StatError::EmptyDataset);
    }
    if n > MAX_SAMPLES {
        return Result::Err(StatError::TooManySamples);
    }
    if find_nan(x) {
        return Result::Err(StatError::InvalidValue);
    }
    let mut acc: i128 = 0;
    let mut i: usize = 0;
    while i < n
        invariant
            0 <= i <= n,
            n == x@.len() <= MAX_SAMPLES,
            acc == sum(raws(x@).take(i as int)),
            -(i as int) * (RAW_BOUND as int) <= acc <= (i as int) * (RAW_BOUND as int),
        decreases n - i,
    {
        let v = x[i].raw();
        proof {
            lemma_sum_take_step(raws(x@), i as int);
        }
        acc = acc + v as i128;
        i += 1;
    }
    proof {
        assert(raws(x@).take(n as int) =~= raws(x@));
    }
    Result::Ok(Ratio::from_parts(acc, SCALE as i128 * n as i128))
}

/// The mean bias error: the mean of the signed differences `found -
/// expected`. A positive result says the found dataset sits above the
/// expected one on average.
///
/// Fails exactly as [`spec_pair_err`] prescribes; on success the result
/// is the exact rational whose numerator is the sum of the raw pointwise
/// differences and whose denominator is the scaled count.
pub fn mean_bias_error(x: &[Value], y: &[Value]) -> (r: Result<Ratio, StatError>)
    ensures
        match r {
            Result::Ok(m) => {
                &&& spec_pair_err(x@, y@) is None
                &&& m.spec_num() == sum_diff(raws(x@), raws(y@))
                &&& m.spec_den() == SCALE * x@.len()
            },
            Result::Err(e) => spec_pair_err(x@, y@) == Some(e),
        },
{
    let n = x.len();
    if n != y.len() {
        return Result::Err(StatError::LengthMismatch);
    }
    if n == 0 {
        return Result::Err(StatError::EmptyDataset);
    }
    if n > MAX_SAMPLES {
        return Result::Err(StatError::TooManySamples);
    }
    if find_nan(x) || find_nan(y) {
        return Result::Err(StatError::InvalidValue);
    }
    let mut acc: i128 = 0;
    let mut i: usize = 0;
    while i < n
        invariant
            0 <= i <= n,
            n == x@.len() <= MAX_SAMPLES,
            n == y@.len(),
            acc == sum_diff(raws(x@).take(i as int), raws(y@).take(i as int)),
            -(i as int) * 200_000_000 <= acc <= (i as int) * 200_000_000,
        decreases n - i,
    {
        let vx = x[i].raw();
        let vy = y[i].raw();
        proof {
            lemma_sum_diff_take_step(raws(x@), raws(y@), i as int);
        }
        acc = acc + (vy as i128 - vx as i128);
        i += 1;
    }
    proof {
        assert(raws(x@).take(n as int) =~= raws(x@));
        assert(raws(y@).take(n as int) =~= raws(y@));
    }
    Result::Ok(Ratio::from_parts(acc, SCALE as i128 * n as i128))
}

/// The reported root of the mean squared error is counted in millionths.
pub const ROOT_SCALE: i64 = 1_000_000;

/// The mean squared error of a pair of datasets, expressed in millionths
/// squared: the sum of the squared raw differences, scaled to millionths
/// of a unit and divided by the count, rounded down.
pub open spec fn spec_rmse_q(x: Seq<Value>, y: Seq<Value>) -> int {
    sum_sq_diff(raws(x), raws(y)) * 1_000_000_000_000 / (1_000_000 * (x.len() as int))
}

/// The mean squared error: the mean of the squared differences `found -
/// expected`, as an exact rational. Threshold judgments on the root mean
/// squared error are made against this exact quantity, since comparing
/// squares needs no rounding at all.
///
/// Fails exactly as [`spec_pair_err`] prescribes; on success the result
/// is the exact rational whose numerator is the sum of the squared raw
/// differences and whose denominator is the squared scale times the
/// count.
pub fn mean_squared_error(x: &[Value], y: &[Value]) -> (r: Result<Ratio, StatError>)
    ensures
        match r {
            Result::Ok(m) => {
                &&& spec_pair_err(x@, y@) is None
                &&& m.spec_num() == sum_sq_diff(raws(x@), raws(y@))
                &&& m.spec_num() >= 0
                &&& m.spec_num() <= x@.len() * 40_000_000_000_000_000
                &&& m.spec_den() == 1_000_000 * x@.len()
            },
            Result::Err(e) => spec_pair_err(x@, y@) == Some(e),
        },
{
    let n = x.len();
    if n != y.len() {
        return Result::Err(StatError::LengthMismatch);
    }
    if n == 0 {
        return Result::Err(StatError::EmptyDataset);
    }
    if n > MAX_SAMPLES {
        return Result::Err(StatError::TooManySamples);
    }
    if find_nan(x) || find_nan(y) {
        return Result::Err(StatError::InvalidValue);
    }
    let mut acc: i128 = 0;
    let mut i: usize = 0;
    while i < n
        invariant
            0 <= i <= n,
            n == x@.len() <= MAX_SAMPLES,
            n == y@.len(),
            acc == sum_sq_diff(raws(x@).take(i as int), raws(y@).take(i as int)),
            0 <= acc <= (i as int) * 40_000_000_000_000_000,
        decreases n - i,
    {
        let vx = x[i].raw();
        let vy = y[i].raw();
        proof {
            lemma_sum_sq_diff_take_step(raws(x@), raws(y@), i as int);
        }
        let d: i128 = vy as i128 - vx as i128;
        assert(0 <= d * d <= 40_000_000_000_000_000) by (nonlinear_arith)
            requires
                -200_000_000 <= d <= 200_000_000,
        ;
        acc = acc + d * d;
        i += 1;
    }
    proof {
        assert(raws(x@).take(n as int) =~= raws(x@));
        assert(raws(y@).take(n as int) =~= raws(y@));
    }
    Result::Ok(Ratio::from_parts(acc, 1_000_000i128 * n as i128))
}

/// The root mean squared error: the square root of the mean of the
/// squared differences `found - expected`, rounded down to millionths.
///
/// Unlike the mean bias error, positive and negative differences do not
/// cancel; the result is never negative, and it is zero exactly when the
/// two datasets are identical.
///
/// Fails exactly as [`spec_pair_err`] prescribes; on success the result
/// is the rational `root / 1 000 000` where `root` is the integer square
/// root of the mean squared error expressed in millionths squared.
pub fn root_mean_squared_error(x: &[Value], y: &[Value]) -> (r: Result<Ratio, StatError>)
    ensures
        match r {
            Result::Ok(m) => {
                &&& spec_pair_err(x@, y@) is None
                &&& m.spec_den() == ROOT_SCALE
                &&& m.spec_num() >= 0
                &&& m.spec_num() == crate::wide::spec_isqrt(spec_rmse_q(x@, y@))
                &&& m.spec_num() * m.spec_num() <= spec_rmse_q(x@, y@) < (m.spec_num() + 1) * (
                m.spec_num() + 1)
            },
            Result::Err(e) => spec_pair_err(x@, y@) == Some(e),
        },
{
    let n = x.len();
    if n != y.len() {
        return Result::Err(StatError::LengthMismatch);
    }
    if n == 0 {
        return Result::Err(StatError::EmptyDataset);
    }
    if n > MAX_SAMPLES {
        return Result::Err(StatError::TooManySamples);
    }
    if find_nan(x) || find_nan(y) {
        return Result::Err(StatError::InvalidValue);
    }
    let mut acc: i128 = 0;
    let mut i: usize = 0;
    while i < n
        invariant
            0 <= i <= n,
            n == x@.len() <= MAX_SAMPLES,
            n == y@.len(),
            acc == sum_sq_diff(raws(x@).take(i as int), raws(y@).take(i as int)),
            0 <= acc <= (i as int) * 40_000_000_000_000_000,
        decreases n - i,
    {
        let vx = x[i].raw();
        let vy = y[i].raw();
        proof {
            lemma_sum_sq_diff_take_step(raws(x@), raws(y@), i as int);
        }
        let d: i128 = vy as i128 - vx as i128;
        assert(0 <= d * d <= 40_000_000_000_000_000) by (nonlinear_arith)
            requires
                -200_000_000 <= d <= 200_000_000,
        ;
        acc = acc + d * d;
        i += 1;
    }
    proof {
        assert(raws(x@).take(n as int) =~= raws(x@));
        assert(raws(y@).take(n as int) =~= raws(y@));
    }
    let scaled: i128 = acc * 1_000_000_000_000;
    let q: i128 = scaled / (1_000_000i128 * n as i128);
    let root: u128 = crate::wide::isqrt(q as u128);
    assert(root * root <= q ==> root <= 100_000_000_000_000_000) by (nonlinear_arith)
        requires
            q <= 4_000_000_000_000_000_000_000_000_000_000_000,
    ;
    Result::Ok(Ratio::from_parts(root as i128, ROOT_SCALE as i128))
}

/// The numerator of the ordinary-least-squares slope, over raw entries:
/// `n * sum(x*y) - sum(x) * sum(y)`.
pub open spec fn lin_slope_num(xs: Seq<int>, ys: Seq<int>) -> int {
    xs.len() * sum_mul(xs, ys) - sum(xs) * sum(ys)
}

/// The scaled variance of a sequence: `n * sum(s*s) - sum(s) * sum(s)`.
/// It is never negative, and it is zero exactly when all entries are
/// equal; both facts are [`lemma_lin_var`].
pub open spec fn lin_var(s: Seq<int>) -> int {
    s.len() * sum_mul(s, s) - sum(s) * sum(s)
}

/// The numerator of the ordinary-least-squares intercept, over raw
/// entries: `sum(y) * sum(x*x) - sum(x) * sum(x*y)`.
pub open spec fn lin_intercept_num(xs: Seq<int>, ys: Seq<int>) -> int {
    sum(ys) * sum_mul(xs, xs) - sum(xs) * sum_mul(xs, ys)
}

/// Whether all entries of a sequence are equal.
pub open spec fn all_equal(s: Seq<int>) -> bool {
    forall|i: int| 0 <= i < s.len() ==> #[trigger] s[i] == s[0]
}

/// The scaled variance of a non-empty sequence is nonnegative, and zero
/// exactly when all entries are equal; an all-equal sequence also has the
/// evident sums.
pub proof fn lemma_lin_var(s: Seq<int>)
    requires
        s.len() > 0,
    ensures
        lin_var(s) >= 0,
        lin_var(s) == 0 <==> all_equal(s),
        all_equal(s) ==> sum(s) == s.len() * s[0] && sum_mul(s, s) == s.len() * (s[0] * s[0]),
    decreases s.len(),
{
    let a = s.last();
    if s.len() == 1 {
        assert(s.drop_last().len() == 0);
        assert(sum(s.drop_last()) == 0);
        assert(sum_mul(s.drop_last(), s.drop_last()) == 0);
        assert(sum(s) == a);
        assert(sum_mul(s, s) == a * a);
        assert(lin_var(s) == 1 * (a * a) - a * a);
        assert(all_equal(s));
    } else {
        let t = s.drop_last();
        lemma_lin_var(t);
        let n = t.len() as int;
        let big_s = sum(t);
        let big_q = sum_mul(t, t);
        assert(sum(s) == big_s + a);
        assert(sum_mul(s, s) == big_q + a * a);
        let b = n * big_q - big_s * big_s;
        let d = big_q + n * (a * a) - 2 * big_s * a;
        assert(lin_var(s) == b + d) by (nonlinear_arith)
            requires
                lin_var(s) == (n + 1) * (big_q + a * a) - (big_s + a) * (big_s + a),
                b == n * big_q - big_s * big_s,
                d == big_q + n * (a * a) - 2 * big_s * a,
        ;
        assert(n * d == (n * a - big_s) * (n * a - big_s) + b) by (nonlinear_arith)
            requires
                b == n * big_q - big_s * big_s,
                d == big_q + n * (a * a) - 2 * big_s * a,
        ;
        assert(d >= 0) by (nonlinear_arith)
            requires
                n > 0,
                n * d == (n * a - big_s) * (n * a - big_s) + b,
                b >= 0,
        ;
        // The entries of the shorter sequence are the entries of `s`.
        assert(forall|i: int| 0 <= i < n ==> t[i] == s[i]);
        assert(t[0] == s[0]);
        let c = t[0];
        if all_equal(t) {
            assert(big_s == n * c && big_q == n * (c * c));
            assert(d == n * ((c - a) * (c - a))) by (nonlinear_arith)
                requires
                    d == big_q + n * (a * a) - 2 * big_s * a,
                    big_s == n * c,
                    big_q == n * (c * c),
            ;
            assert(d == 0 <==> a == c) by (nonlinear_arith)
                requires
                    n > 0,
                    d == n * ((c - a) * (c - a)),
            ;
            if a == c {
                assert(all_equal(s));
                assert(sum(s) == (n + 1) * c) by (nonlinear_arith)
                    requires
                        sum(s) == big_s + a,
                        big_s == n * c,
                        a == c,
                ;
                assert(sum_mul(s, s) == (n + 1) * (c * c)) by (nonlinear_arith)
                    requires
                        sum_mul(s, s) == big_q + a * a,
                        big_q == n * (c * c),
                        a == c,
                ;
            } else {
                assert(!all_equal(s));
                assert(lin_var(s) > 0);
            }
        } else {
            assert(!all_equal(s));
            assert(lin_var(s) > 0);
        }
    }
}

proof fn lemma_residual_product(n: int, sx: int, sy: int, sxy: int, a: int, b: int)
    ensures
        n * (sxy + n * (a * b) - sx * b - sy * a) == (n * a - sx) * (n * b - sy) + (n * sxy - sx
            * sy),
{
    let t1 = n * a;
    let t2 = n * b;
    assert((t1 - sx) * (t2 - sy) == t1 * t2 - t1 * sy - sx * t2 + sx * sy) by (nonlinear_arith);
    assert(t1 * t2 == n * (n * (a * b))) by (nonlinear_arith)
        requires
            t1 == n * a,
            t2 == n * b,
    ;
    assert(t1 * sy == n * (sy * a)) by (nonlinear_arith)
        requires
            t1 == n * a,
    ;
    assert(sx * t2 == n * (sx * b)) by (nonlinear_arith)
        requires
            t2 == n * b,
    ;
    assert(n * (sxy + n * (a * b) - sx * b - sy * a) == n * sxy + n * (n * (a * b)) - n * (sx * b)
        - n * (sy * a)) by (nonlinear_arith);
}

proof fn lemma_cs_expand(m: int, a: int, b: int, c: int, p: int, q: int, e: int)
    requires
        e == b * (q * q) + c * (p * p) - 2 * a * (p * q),
    ensures
        (m * b + p * p) * (m * c + q * q) - (m * a + p * q) * (m * a + p * q) == m * m * (b * c - a
            * a) + m * e,
{
    let u = p * p;
    let v = q * q;
    let w = p * q;
    let t_mb = m * b;
    let t_mc = m * c;
    let t_ma = m * a;
    assert((t_mb + u) * (t_mc + v) == t_mb * t_mc + t_mb * v + u * t_mc + u * v)
        by (nonlinear_arith);
    assert((t_ma + w) * (t_ma + w) == t_ma * t_ma + 2 * (t_ma * w) + w * w) by (nonlinear_arith);
    assert(t_mb * t_mc == m * m * (b * c)) by (nonlinear_arith)
        requires
            t_mb == m * b,
            t_mc == m * c,
    ;
    assert(t_ma * t_ma == m * m * (a * a)) by (nonlinear_arith)
        requires
            t_ma == m * a,
    ;
    assert(t_mb * v == m * (b * v) && u * t_mc == m * (c * u) && t_ma * w == m * (a * w))
        by (nonlinear_arith)
        requires
            t_mb == m * b,
            t_mc == m * c,
            t_ma == m * a,
    ;
    assert(u * v == w * w) by (nonlinear_arith)
        requires
            u == p * p,
            v == q * q,
            w == p * q,
    ;
    assert(m * m * (b * c) - m * m * (a * a) == m * m * (b * c - a * a)) by (nonlinear_arith);
    assert(m * (b * v) + m * (c * u) - 2 * (m * (a * w)) == m * (b * v + c * u - 2 * (a * w)))
        by (nonlinear_arith);
    assert(b * v + c * u - 2 * (a * w) == e) by (nonlinear_arith)
        requires
            u == p * p,
            v == q * q,
            w == p * q,
            e == b * (q * q) + c * (p * p) - 2 * a * (p * q),
    ;
}

proof fn lemma_cs_step(m: int, a: int, b: int, c: int, p: int, q: int)
    requires
        m > 0,
        b >= 0,
        c >= 0,
        a * a <= b * c,
    ensures
        (m * a + p * q) * (m * a + p * q) <= (m * b + p * p) * (m * c + q * q),
{
    let e = b * (q * q) + c * (p * p) - 2 * a * (p * q);
    if b > 0 {
        let t1 = b * q;
        let t2 = a * p;
        assert((t1 - t2) * (t1 - t2) == t1 * t1 - 2 * (t1 * t2) + t2 * t2) by (nonlinear_arith);
        assert(t1 * t1 == b * (b * (q * q))) by (nonlinear_arith)
            requires
                t1 == b * q,
        ;
        assert(t1 * t2 == b * (a * (p * q))) by (nonlinear_arith)
            requires
                t1 == b * q,
                t2 == a * p,
        ;
        assert(t2 * t2 == (a * a) * (p * p)) by (nonlinear_arith)
            requires
                t2 == a * p,
        ;
        assert((p * p) * (b * c - a * a) == b * (c * (p * p)) - (a * a) * (p * p))
            by (nonlinear_arith);
        assert(b * e == b * (b * (q * q)) + b * (c * (p * p)) - 2 * (b * (a * (p * q))))
            by (nonlinear_arith)
            requires
                e == b * (q * q) + c * (p * p) - 2 * a * (p * q),
        ;
        assert(b * e == (b * q - a * p) * (b * q - a * p) + (p * p) * (b * c - a * a));
        assert(b * e >= 0) by (nonlinear_arith)
            requires
                b * e == (b * q - a * p) * (b * q - a * p) + (p * p) * (b * c - a * a),
                a * a <= b * c,
        ;
        assert(e >= 0) by (nonlinear_arith)
            requires
                b > 0,
                b * e >= 0,
        ;
    } else {
        assert(a == 0 && e >= 0) by (nonlinear_arith)
            requires
                b == 0,
                c >= 0,
                a * a <= b * c,
                e == b * (q * q) + c * (p * p) - 2 * a * (p * q),
        ;
    }
    lemma_cs_expand(m, a, b, c, p, q, e);
    assert((m * a + p * q) * (m * a + p * q) <= (m * b + p * p) * (m * c + q * q))
        by (nonlinear_arith)
        requires
            (m * b + p * p) * (m * c + q * q) - (m * a + p * q) * (m * a + p * q) == m * m * (b * c
                - a * a) + m * e,
            m > 0,
            e >= 0,
            a * a <= b * c,
    ;
}

proof fn lemma_square_div(n: int, x: int, y: int, z: int)
    by (nonlinear_arith)
    requires
        n > 0,
        (n * x) * (n * x) <= (n * y) * (n * z),
    ensures
        x * x <= y * z,
{
}

/// The fit can never explain more than all of the variance: the squared
/// slope numerator is bounded by the product of the two scaled
/// variances, so the coefficient of determination is at most one.
pub proof fn lemma_fit_quality_bounded(s: Seq<int>, t: Seq<int>)
    requires
        s.len() == t.len(),
    ensures
        lin_slope_num(s, t) * lin_slope_num(s, t) <= lin_var(s) * lin_var(t),
    decreases s.len(),
{
    if s.len() == 0 {
        assert(lin_slope_num(s, t) == 0);
        assert(lin_var(s) == 0);
    } else if s.len() == 1 {
        let a = s.last();
        let b = t.last();
        assert(s.drop_last().len() == 0);
        assert(t.drop_last().len() == 0);
        assert(sum(s.drop_last()) == 0);
        assert(sum(t.drop_last()) == 0);
        assert(sum_mul(s.drop_last(), t.drop_last()) == 0);
        assert(sum_mul(s.drop_last(), s.drop_last()) == 0);
        assert(sum_mul(t.drop_last(), t.drop_last()) == 0);
        assert(sum(s) == a && sum(t) == b && sum_mul(s, t) == a * b && sum_mul(s, s) == a * a
            && sum_mul(t, t) == b * b);
        assert(lin_slope_num(s, t) == 1 * (a * b) - a * b);
        assert(lin_var(s) == 1 * (a * a) - a * a);
        assert(lin_var(t) == 1 * (b * b) - b * b);
    } else {
        let u = s.drop_last();
        let v = t.drop_last();
        lemma_fit_quality_bounded(u, v);
        lemma_lin_var(u);
        lemma_lin_var(v);
        let n = u.len() as int;
        let a = s.last();
        let b = t.last();
        let sx = sum(u);
        let sy = sum(v);
        let sxy = sum_mul(u, v);
        let sxx = sum_mul(u, u);
        let syy = sum_mul(v, v);
        assert(sum(s) == sx + a && sum(t) == sy + b && sum_mul(s, t) == sxy + a * b && sum_mul(
            s,
            s,
        ) == sxx + a * a && sum_mul(t, t) == syy + b * b);
        let big_a = lin_slope_num(u, v);
        let big_b = lin_var(u);
        let big_c = lin_var(v);
        let p = n * a - sx;
        let q = n * b - sy;
        assert(lin_slope_num(s, t) == (n + 1) * (sxy + a * b) - (sx + a) * (sy + b));
        assert(lin_var(s) == (n + 1) * (sxx + a * a) - (sx + a) * (sx + a));
        assert(lin_var(t) == (n + 1) * (syy + b * b) - (sy + b) * (sy + b));
        // Splitting one entry off moves each aggregate by one residual
        // product: n times the longer aggregate is n + 1 times the
        // shorter one plus the product of the residuals.
        let d_xy = sxy + n * (a * b) - sx * b - sy * a;
        assert(lin_slope_num(s, t) == big_a + d_xy) by (nonlinear_arith)
            requires
                lin_slope_num(s, t) == (n + 1) * (sxy + a * b) - (sx + a) * (sy + b),
                big_a == n * sxy - sx * sy,
                d_xy == sxy + n * (a * b) - sx * b - sy * a,
        ;
        lemma_residual_product(n, sx, sy, sxy, a, b);
        assert(n * d_xy == p * q + big_a);
        assert(n * lin_slope_num(s, t) == (n + 1) * big_a + p * q) by (nonlinear_arith)
            requires
                lin_slope_num(s, t) == big_a + d_xy,
                n * d_xy == p * q + big_a,
        ;
        let d_x = sxx + n * (a * a) - sx * a - sx * a;
        assert(lin_var(s) == big_b + d_x) by (nonlinear_arith)
            requires
                lin_var(s) == (n + 1) * (sxx + a * a) - (sx + a) * (sx + a),
                big_b == n * sxx - sx * sx,
                d_x == sxx + n * (a * a) - sx * a - sx * a,
        ;
        lemma_residual_product(n, sx, sx, sxx, a, a);
        assert(n * d_x == p * p + big_b);
        assert(n * lin_var(s) == (n + 1) * big_b + p * p) by (nonlinear_arith)
            requires
                lin_var(s) == big_b + d_x,
                n * d_x == p * p + big_b,
        ;
        let d_y = syy + n * (b * b) - sy * b - sy * b;
        assert(lin_var(t) == big_c + d_y) by (nonlinear_arith)
            requires
                lin_var(t) == (n + 1) * (syy + b * b) - (sy + b) * (sy + b),
                big_c == n * syy - sy * sy,
                d_y == syy + n * (b * b) - sy * b - sy * b,
        ;
        lemma_residual_product(n, sy, sy, syy, b, b);
        assert(n * d_y == q * q + big_c);
        assert(n * lin_var(t) == (n + 1) * big_c + q * q) by (nonlinear_arith)
            requires
                lin_var(t) == big_c + d_y,
                n * d_y == q * q + big_c,
        ;
        lemma_cs_step(n + 1, big_a, big_b, big_c, p, q);
        assert((n * lin_slope_num(s, t)) * (n * lin_slope_num(s, t)) <= (n * lin_var(s)) * (n
            * lin_var(t)));
        lemma_square_div(n, lin_slope_num(s, t), lin_var(s), lin_var(t));
    }
}

proof fn lemma_self_diffs_vanish(s: Seq<int>)
    ensures
        sum_diff(s, s) == 0,
        sum_sq_diff(s, s) == 0,
    decreases s.len(),
{
    if s.len() > 0 {
        lemma_self_diffs_vanish(s.drop_last());
    }
}

/// Comparing any dataset with itself shows no deviation at all: the
/// mean bias error is zero, and so is the root mean squared error.
pub proof fn lemma_self_comparison(x: Seq<Value>)
    ensures
        sum_diff(raws(x), raws(x)) == 0,
        sum_sq_diff(raws(x), raws(x)) == 0,
        x.len() > 0 ==> spec_rmse_q(x, x) == 0,
        x.len() > 0 ==> crate::wide::spec_isqrt(spec_rmse_q(x, x)) == 0,
{
    lemma_self_diffs_vanish(raws(x));
    if x.len() > 0 {
        assert(spec_rmse_q(x, x) == 0);
        crate::wide::lemma_isqrt_unique(0, 0);
    }
}

/// Regressing any dataset against itself gives the identity fit,
/// whenever the regression is defined at all: the intercept numerator is
/// zero, and the slope numerator equals the positive variance, so the
/// slope and the coefficient of determination are both exactly one.
pub proof fn lemma_self_fit(x: Seq<Value>)
    requires
        spec_linfit_err(x, x) is None,
    ensures
        lin_intercept_num(raws(x), raws(x)) == 0,
        lin_var(raws(x)) > 0,
        lin_slope_num(raws(x), raws(x)) == lin_var(raws(x)),
{
    let s = raws(x);
    assert(lin_slope_num(s, s) == lin_var(s));
    assert(lin_intercept_num(s, s) == 0);
    assert(s.len() == x.len());
    assert(x.len() > 0);
    lemma_lin_var(s);
    assert(!all_equal(s));
}

/// The precondition check of the regression: the pairwise checks first,
/// then the independent dataset must have at least two distinct entries.
pub open spec fn spec_linfit_err(x: Seq<Value>, y: Seq<Value>) -> Option<StatError> {
    match spec_pair_err(x, y) {
        Some(e) => Some(e),
        None => if all_equal(raws(x)) {
            Some(StatError::ZeroVariance)
        } else {
            None
        },
    }
}

/// Cap on the components of an [`RSquare`].
pub const VAR_CAP: i128 = 1_000_000_000_000_000_000_000_000_000;

/// The coefficient of determination of a regression, held exactly as the
/// fraction `cov * cov / (var_x * var_y)` of its three components: the
/// scaled covariance and the two scaled variances. The product in the
/// denominator does not fit machine arithmetic, so comparisons against
/// it are made on exact 256-bit products.
#[derive(Clone, Copy, PartialEq, Eq, Structural, Debug)]
pub struct RSquare {
    cov: i128,
    var_x: i128,
    var_y: i128,
}

impl RSquare {
    #[verifier::type_invariant]
    spec fn type_inv(self) -> bool {
        &&& 0 < self.var_x <= VAR_CAP
        &&& 0 <= self.var_y <= VAR_CAP
        &&& -VAR_CAP <= self.cov <= VAR_CAP
    }

    /// The scaled covariance of the fit.
    pub closed spec fn spec_cov(self) -> int {
        self.cov as int
    }

    /// The scaled variance of the independent dataset; always positive.
    pub closed spec fn spec_var_x(self) -> int {
        self.var_x as int
    }

    /// The scaled variance of the dependent dataset; never negative.
    pub closed spec fn spec_var_y(self) -> int {
        self.var_y as int
    }

    /// Whether this coefficient and the fraction `n / d` stand for the
    /// same rational number, by cross multiplication.
    pub open spec fn spec_same_frac(self, n: int, d: int) -> bool {
        self.spec_cov() * self.spec_cov() * d == self.spec_var_x() * self.spec_var_y() * n
    }

    pub(crate) fn from_parts(cov: i128, var_x: i128, var_y: i128) -> (r: RSquare)
        requires
            0 < var_x <= VAR_CAP,
            0 <= var_y <= VAR_CAP,
            -VAR_CAP <= cov <= VAR_CAP,
        ensures
            r.spec_cov() == cov,
            r.spec_var_x() == var_x,
            r.spec_var_y() == var_y,
    {
        RSquare { cov, var_x, var_y }
    }

    /// Reads the scaled covariance back, with its bounds.
    pub fn cov(&self) -> (r: i128)
        ensures
            r == self.spec_cov(),
            -VAR_CAP <= r <= VAR_CAP,
    {
        proof {
            use_type_invariant(self);
        }
        self.cov
    }

    /// Reads the scaled variance of the independent dataset back.
    pub fn var_x(&self) -> (r: i128)
        ensures
            r == self.spec_var_x(),
            0 < r <= VAR_CAP,
    {
        proof {
            use_type_invariant(self);
        }
        self.var_x
    }

    /// Reads the scaled variance of the dependent dataset back.
    pub fn var_y(&self) -> (r: i128)
        ensures
            r == self.spec_var_y(),
            0 <= r <= VAR_CAP,
    {
        proof {
            use_type_invariant(self);
        }
        self.var_y
    }

    /// Whether this coefficient and the fraction `n / d` stand for the
    /// same rational number, decided exactly.
    pub fn equals_frac(&self, n: i64, d: i64) -> (r: bool)
        requires
            d > 0,
        ensures
            r <==> self.spec_same_frac(n as int, d as int),
    {
        proof {
            use_type_invariant(self);
        }
        let cov = self.cov;
        let var_x = self.var_x;
        let var_y = self.var_y;
        if n < 0 {
            // The left side is never negative and the right side is never
            // positive, so the fractions agree exactly when both are zero.
            proof {
                assert((cov * cov * (d as int) == var_x * var_y * (n as int)) <==> (cov == 0
                    && var_y == 0)) by (nonlinear_arith)
                    requires
                        d > 0,
                        n < 0,
                        var_x > 0,
                        var_y >= 0,
                ;
            }
            return cov == 0 && var_y == 0;
        }
        let c = crate::numeric::abs_u128(cov);
        let sq = crate::wide::wide_mul(c, c);
        proof {
            assert((c as int) * (c as int) == (cov as int) * (cov as int) && (cov as int) * (cov
                as int) < crate::wide::pow128() * (crate::wide::TWO64 as int)) by (nonlinear_arith)
                requires
                    -VAR_CAP <= cov <= VAR_CAP,
                    VAR_CAP == 1_000_000_000_000_000_000_000_000_000i128,
                    c == if cov < 0 {
                        -(cov as int)
                    } else {
                        cov as int
                    },
                    crate::wide::pow128() * (crate::wide::TWO64 as int) > VAR_CAP * VAR_CAP,
            ;
            crate::wide::lemma_hi_bound(sq.0, sq.1);
        }
        let lhs = crate::wide::wide_scale(sq.0, sq.1, d as u128);
        let vprod = crate::wide::wide_mul(var_x as u128, var_y as u128);
        proof {
            assert((var_x as int) * (var_y as int) < crate::wide::pow128() * (crate::wide::TWO64
                as int)) by (nonlinear_arith)
                requires
                    0 < var_x <= VAR_CAP,
                    0 <= var_y <= VAR_CAP,
                    VAR_CAP == 1_000_000_000_000_000_000_000_000_000i128,
                    crate::wide::pow128() * (crate::wide::TWO64 as int) > VAR_CAP * VAR_CAP,
            ;
            crate::wide::lemma_hi_bound(vprod.0, vprod.1);
        }
        let rhs = crate::wide::wide_scale(vprod.0, vprod.1, n as u128);
        crate::wide::wide_eq(lhs, rhs)
    }

    /// Whether the coefficient lies strictly below the fraction
    /// `floor / SCALE`: the threshold judgment of the scatter check.
    /// When the dependent dataset has no variance the coefficient is
    /// undefined and never counts as below any floor.
    pub open spec fn spec_below(self, k: int) -> bool {
        &&& self.spec_var_y() > 0
        &&& self.spec_cov() * self.spec_cov() * (SCALE as int) < k * self.spec_var_x()
            * self.spec_var_y()
    }

    /// Decides [`RSquare::spec_below`] exactly.
    pub fn below(&self, floor: &Value) -> (r: bool)
        ensures
            r <==> self.spec_below(floor.spec_raw()),
    {
        proof {
            use_type_invariant(self);
        }
        let k = floor.raw();
        let cov = self.cov;
        let var_x = self.var_x;
        let var_y = self.var_y;
        if var_y == 0 {
            return false;
        }
        if k <= 0 {
            proof {
                assert(!(cov * cov * (SCALE as int) < (k as int) * var_x * var_y))
                    by (nonlinear_arith)
                    requires
                        k <= 0,
                        var_x > 0,
                        var_y > 0,
                        SCALE == 1000i64,
                ;
            }
            return false;
        }
        let c = crate::numeric::abs_u128(cov);
        let sq = crate::wide::wide_mul(c, c);
        proof {
            assert((c as int) * (c as int) == (cov as int) * (cov as int) && (cov as int) * (cov
                as int) < crate::wide::pow128() * (crate::wide::TWO64 as int)) by (nonlinear_arith)
                requires
                    -VAR_CAP <= cov <= VAR_CAP,
                    VAR_CAP == 1_000_000_000_000_000_000_000_000_000i128,
                    c == if cov < 0 {
                        -(cov as int)
                    } else {
                        cov as int
                    },
                    crate::wide::pow128() * (crate::wide::TWO64 as int) > VAR_CAP * VAR_CAP,
            ;
            crate::wide::lemma_hi_bound(sq.0, sq.1);
        }
        let lhs = crate::wide::wide_scale(sq.0, sq.1, SCALE as u128);
        let vprod = crate::wide::wide_mul(var_x as u128, var_y as u128);
        proof {
            assert((var_x as int) * (var_y as int) < crate::wide::pow128() * (crate::wide::TWO64
                as int)) by (nonlinear_arith)
                requires
                    0 < var_x <= VAR_CAP,
                    0 <= var_y <= VAR_CAP,
                    VAR_CAP == 1_000_000_000_000_000_000_000_000_000i128,
                    crate::wide::pow128() * (crate::wide::TWO64 as int) > VAR_CAP * VAR_CAP,
            ;
            crate::wide::lemma_hi_bound(vprod.0, vprod.1);
        }
        let rhs = crate::wide::wide_scale(vprod.0, vprod.1, k as u128);
        proof {
            assert((k as int) * ((var_x as int) * (var_y as int)) == (k as int) * (var_x as int)
                * (var_y as int)) by (nonlinear_arith);
        }
        crate::wide::wide_lt(lhs, rhs)
    }

    /// The coefficient scaled to ten-thousandths and rounded down, capped
    /// at ten thousand; when the dependent dataset has no variance the
    /// fit is exact and the coefficient is reported as one.
    pub open spec fn spec_per_ten_thousand(self) -> int {
        if self.spec_var_y() == 0 {
            10000
        } else {
            let f = self.spec_cov() * self.spec_cov() * 10000 / (self.spec_var_x()
                * self.spec_var_y());
            if f > 10000 {
                10000
            } else {
                f
            }
        }
    }

    /// Computes [`RSquare::spec_per_ten_thousand`] exactly.
    pub fn per_ten_thousand(&self) -> (r: i128)
        ensures
            r == self.spec_per_ten_thousand(),
            0 <= r <= 10000,
    {
        proof {
            use_type_invariant(self);
        }
        let cov = self.cov;
        let var_x = self.var_x;
        let var_y = self.var_y;
        if var_y == 0 {
            return 10000;
        }
        let c = crate::numeric::abs_u128(cov);
        let sq = crate::wide::wide_mul(c, c);
        proof {
            assert((c as int) * (c as int) == (cov as int) * (cov as int) && (cov as int) * (cov
                as int) < crate::wide::pow128() * (crate::wide::TWO64 as int)) by (nonlinear_arith)
                requires
                    -VAR_CAP <= cov <= VAR_CAP,
                    VAR_CAP == 1_000_000_000_000_000_000_000_000_000i128,
                    c == if cov < 0 {
                        -(cov as int)
                    } else {
                        cov as int
                    },
                    crate::wide::pow128() * (crate::wide::TWO64 as int) > VAR_CAP * VAR_CAP,
            ;
            crate::wide::lemma_hi_bound(sq.0, sq.1);
        }
        let nw = crate::wide::wide_scale(sq.0, sq.1, 10000);
        let dw = crate::wide::wide_mul(var_x as u128, var_y as u128);
        proof {
            assert((var_x as int) * (var_y as int) < crate::wide::pow128() * (crate::wide::TWO64
                as int)) by (nonlinear_arith)
                requires
                    0 < var_x <= VAR_CAP,
                    0 < var_y <= VAR_CAP,
                    VAR_CAP == 1_000_000_000_000_000_000_000_000_000i128,
                    crate::wide::pow128() * (crate::wide::TWO64 as int) > VAR_CAP * VAR_CAP,
            ;
            crate::wide::lemma_hi_bound(dw.0, dw.1);
        }
        let ghost nv: int = (cov as int) * (cov as int) * 10000;
        let ghost dv: int = (var_x as int) * (var_y as int);
        proof {
            assert(dv > 0) by (nonlinear_arith)
                requires
                    var_x > 0,
                    var_y > 0,
                    dv == (var_x as int) * (var_y as int),
            ;
        }
        let mut lo: i128 = 0;
        let mut hi: i128 = 10000;
        while lo < hi
            invariant
                0 <= lo <= hi <= 10000,
                dv > 0,
                nv >= 0,
                nv == (cov as int) * (cov as int) * 10000,
                dv == (var_x as int) * (var_y as int),
                crate::wide::pair_value(nw.0, nw.1) == nv,
                crate::wide::pair_value(dw.0, dw.1) == dv,
                dw.0 < crate::wide::TWO64,
                lo * dv <= nv,
                hi < 10000 ==> nv < (hi + 1) * dv,
            decreases hi - lo,
        {
            let mid: i128 = lo + (hi - lo + 1) / 2;
            let t = crate::wide::wide_scale(dw.0, dw.1, mid as u128);
            if !crate::wide::wide_lt(nw, t) {
                lo = mid;
            } else {
                proof {
                    assert(nv < mid * dv ==> nv < ((mid - 1) + 1) * dv);
                }
                hi = mid - 1;
            }
        }
        if lo == 10000 {
            proof {
                assert(nv / dv >= 10000) by (nonlinear_arith)
                    requires
                        dv > 0,
                        nv >= 10000 * dv,
                ;
            }
        } else {
            proof {
                assert(nv / dv == lo) by (nonlinear_arith)
                    requires
                        dv > 0,
                        lo * dv <= nv,
                        nv < (lo + 1) * dv,
                        0 <= lo,
                ;
            }
        }
        lo
    }
}

/// The ordinary-least-squares fit `y = a + b * x` of two datasets, as
/// the triple "intercept, slope, coefficient of determination".
///
/// The intercept and the slope are the exact closed-form rationals; the
/// coefficient of determination is the exact fraction held in an
/// [`RSquare`]. Fails exactly as [`spec_linfit_err`] prescribes: the
/// pairwise precondition checks first, then `ZeroVariance` when all
/// entries of the independent dataset are equal, which would put zero in
/// every denominator.
pub fn linear_coefficients(x: &[Value], y: &[Value]) -> (r: Result<
    (Ratio, Ratio, RSquare),
    StatError,
>)
    ensures
        match r {
            Result::Ok(t) => {
                &&& spec_linfit_err(x@, y@) is None
                &&& t.0.spec_num() == lin_intercept_num(raws(x@), raws(y@))
                &&& -400_000_000_000_000_000_000_000_000_000_000_000 <= t.0.spec_num()
                    <= 400_000_000_000_000_000_000_000_000_000_000_000
                &&& t.0.spec_den() == SCALE * lin_var(raws(x@))
                &&& t.1.spec_num() == lin_slope_num(raws(x@), raws(y@))
                &&& t.1.spec_den() == lin_var(raws(x@))
                &&& t.2.spec_cov() == lin_slope_num(raws(x@), raws(y@))
                &&& t.2.spec_var_x() == lin_var(raws(x@))
                &&& t.2.spec_var_y() == lin_var(raws(y@))
            },
            Result::Err(e) => spec_linfit_err(x@, y@) == Some(e),
        },
{
    let n = x.len();
    if n != y.len() {
        return Result::Err(StatError::LengthMismatch);
    }
    if n == 0 {
        return Result::Err(StatError::EmptyDataset);
    }
    if n > MAX_SAMPLES {
        return Result::Err(StatError::TooManySamples);
    }
    if find_nan(x) || find_nan(y) {
        return Result::Err(StatError::InvalidValue);
    }
    let mut sx: i128 = 0;
    let mut sy: i128 = 0;
    let mut sxx: i128 = 0;
    let mut syy: i128 = 0;
    let mut sxy: i128 = 0;
    let mut i: usize = 0;
    while i < n
        invariant
            0 <= i <= n,
            n == x@.len() <= MAX_SAMPLES,
            n == y@.len(),
            sx == sum(raws(x@).take(i as int)),
            sy == sum(raws(y@).take(i as int)),
            sxx == sum_mul(raws(x@).take(i as int), raws(x@).take(i as int)),
            syy == sum_mul(raws(y@).take(i as int), raws(y@).take(i as int)),
            sxy == sum_mul(raws(x@).take(i as int), raws(y@).take(i as int)),
            -(i as int) * 100_000_000 <= sx <= (i as int) * 100_000_000,
            -(i as int) * 100_000_000 <= sy <= (i as int) * 100_000_000,
            -(i as int) * 10_000_000_000_000_000 <= sxx <= (i as int) * 10_000_000_000_000_000,
            -(i as int) * 10_000_000_000_000_000 <= syy <= (i as int) * 10_000_000_000_000_000,
            -(i as int) * 10_000_000_000_000_000 <= sxy <= (i as int) * 10_000_000_000_000_000,
        decreases n - i,
    {
        let vx = x[i].raw() as i128;
        let vy = y[i].raw() as i128;
        proof {
            lemma_sum_take_step(raws(x@), i as int);
            lemma_sum_take_step(raws(y@), i as int);
            lemma_sum_mul_take_step(raws(x@), raws(x@), i as int);
            lemma_sum_mul_take_step(raws(y@), raws(y@), i as int);
            lemma_sum_mul_take_step(raws(x@), raws(y@), i as int);
        }
        assert(-10_000_000_000_000_000 <= vx * vx <= 10_000_000_000_000_000
            && -10_000_000_000_000_000 <= vy * vy <= 10_000_000_000_000_000
            && -10_000_000_000_000_000 <= vx * vy <= 10_000_000_000_000_000) by (nonlinear_arith)
            requires
                -100_000_000 <= vx <= 100_000_000,
                -100_000_000 <= vy <= 100_000_000,
        ;
        sx = sx + vx;
        sy = sy + vy;
        sxx = sxx + vx * vx;
        syy = syy + vy * vy;
        sxy = sxy + vx * vy;
        i += 1;
    }
    proof {
        assert(raws(x@).take(n as int) =~= raws(x@));
        assert(raws(y@).take(n as int) =~= raws(y@));
    }
    let count: i128 = n as i128;
    assert(-200_000_000_000_000_000_000_000_000 <= count * sxy <= 200_000_000_000_000_000_000_000_000
        && -200_000_000_000_000_000_000_000_000 <= count * sxx
            <= 200_000_000_000_000_000_000_000_000
        && -200_000_000_000_000_000_000_000_000 <= count * syy
            <= 200_000_000_000_000_000_000_000_000
        && -200_000_000_000_000_000_000_000_000 <= sx * sy <= 200_000_000_000_000_000_000_000_000
        && -200_000_000_000_000_000_000_000_000 <= sx * sx <= 200_000_000_000_000_000_000_000_000
        && -200_000_000_000_000_000_000_000_000 <= sy * sy <= 200_000_000_000_000_000_000_000_000)
        by (nonlinear_arith)
        requires
            0 < count <= 100_000,
            -10_000_000_000_000 <= sx <= 10_000_000_000_000,
            -10_000_000_000_000 <= sy <= 10_000_000_000_000,
            -1_000_000_000_000_000_000_000 <= sxx <= 1_000_000_000_000_000_000_000,
            -1_000_000_000_000_000_000_000 <= syy <= 1_000_000_000_000_000_000_000,
            -1_000_000_000_000_000_000_000 <= sxy <= 1_000_000_000_000_000_000_000,
    ;
    let cov: i128 = count * sxy - sx * sy;
    let var_x: i128 = count * sxx - sx * sx;
    let var_y: i128 = count * syy - sy * sy;
    proof {
        lemma_lin_var(raws(x@));
        lemma_lin_var(raws(y@));
    }
    if var_x == 0 {
        return Result::Err(StatError::ZeroVariance);
    }
    assert(-200_000_000_000_000_000_000_000_000_000_000_000 <= sy * sxx
        <= 200_000_000_000_000_000_000_000_000_000_000_000
        && -200_000_000_000_000_000_000_000_000_000_000_000 <= sx * sxy
            <= 200_000_000_000_000_000_000_000_000_000_000_000) by (nonlinear_arith)
        requires
            -10_000_000_000_000 <= sx <= 10_000_000_000_000,
            -10_000_000_000_000 <= sy <= 10_000_000_000_000,
            -1_000_000_000_000_000_000_000 <= sxx <= 1_000_000_000_000_000_000_000,
            -1_000_000_000_000_000_000_000 <= sxy <= 1_000_000_000_000_000_000_000,
    ;
    let icept_num: i128 = sy * sxx - sx * sxy;
    let intercept = Ratio::from_parts(icept_num, SCALE as i128 * var_x);
    let slope = Ratio::from_parts(cov, var_x);
    let r2 = RSquare::from_parts(cov, var_x, var_y);
    Result::Ok((intercept, slope, r2))
}

} // verus!

