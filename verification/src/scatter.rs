//! Comparison of two datasets by an ordinary-least-squares fit: the
//! regression coefficients and the coefficient of determination, each
//! optionally judged against a configured bound.

use crate::numeric::Ratio;
use crate::numeric::Value;
use crate::numeric::SCALE;
use crate::render::dec_usize;
use crate::render::frac_dec4;
use crate::render::ratio_dec4;
use crate::render::spec_dec;
use crate::render::spec_dec4;
use crate::stats::lin_intercept_num;
use crate::stats::lin_slope_num;
use crate::stats::lin_var;
use crate::stats::linear_coefficients;
use crate::stats::raws;
use crate::stats::spec_linfit_err;
use crate::stats::RSquare;
use crate::stats::StatError;
use crate::Validate;
use crate::ValidationResult;
use vstd::prelude::*;
use vstd::string::StringExecFns;

verus! {

/// Validates the correspondence of two datasets through a scatter fit:
/// computes the ordinary-least-squares intercept, slope and coefficient
/// of determination, and judges each against its configured bound, where
/// one is set. The default expectation is a perfect one-to-one
/// correspondence: intercept zero, slope one.
///
/// Every configured bound is judged independently; several exceeded
/// bounds all appear in the same error summary.
#[derive(Clone)]
pub struct ScatterValidator {
    /// The units on both axes of a rendered chart.
    pub units: Option<String>,
    /// The name of the expected series.
    pub expected_legend: Option<String>,
    /// The expected values.
    pub expected: Vec<Value>,
    /// The name of the found series.
    pub found_legend: Option<String>,
    /// The found values.
    pub found: Vec<Value>,
    /// The title of a rendered chart.
    pub chart_title: Option<String>,
    /// The lowest allowed coefficient of determination.
    pub allowed_r2: Option<Value>,
    /// The maximum allowed difference between the fitted intercept and
    /// the expected one.
    pub allowed_intersect_delta: Option<Value>,
    /// The expected intercept; zero when absent. Judged only when
    /// `allowed_intersect_delta` is set.
    pub expected_intersect: Option<Value>,
    /// The maximum allowed difference between the fitted slope and the
    /// expected one.
    pub allowed_slope_delta: Option<Value>,
    /// The expected slope; one when absent. Judged only when
    /// `allowed_slope_delta` is set.
    pub expected_slope: Option<Value>,
}

impl Default for ScatterValidator {
    /// An empty comparison: no datasets, no bounds, no labels.
    fn default() -> (r: Self)
        ensures
            r.units is None,
            r.expected_legend is None,
            r.found_legend is None,
            r.chart_title is None,
            r.allowed_r2 is None,
            r.allowed_intersect_delta is None,
            r.expected_intersect is None,
            r.allowed_slope_delta is None,
            r.expected_slope is None,
            r.expected@.len() == 0,
            r.found@.len() == 0,
    {
        ScatterValidator {
            units: None,
            expected_legend: None,
            expected: Vec::new(),
            found_legend: None,
            found: Vec::new(),
            chart_title: None,
            allowed_r2: None,
            allowed_intersect_delta: None,
            expected_intersect: None,
            allowed_slope_delta: None,
            expected_slope: None,
        }
    }
}

impl ScatterValidator {
    /// The numerator of the fitted slope, over raw entries.
    pub open spec fn spec_a(self) -> int {
        lin_slope_num(raws(self.expected@), raws(self.found@))
    }

    /// The scaled variance of the expected dataset.
    pub open spec fn spec_b(self) -> int {
        lin_var(raws(self.expected@))
    }

    /// The scaled variance of the found dataset.
    pub open spec fn spec_c(self) -> int {
        lin_var(raws(self.found@))
    }

    /// The numerator of the fitted intercept, over raw entries.
    pub open spec fn spec_e(self) -> int {
        lin_intercept_num(raws(self.expected@), raws(self.found@))
    }

    /// The precondition check of the fit.
    pub open spec fn spec_precheck(self) -> Option<StatError> {
        spec_linfit_err(self.expected@, self.found@)
    }

    /// The coefficient of determination scaled to ten-thousandths,
    /// rounded down and capped at ten thousand; one when the found
    /// dataset has no variance.
    pub open spec fn spec_r2_10k(self) -> int {
        if self.spec_c() == 0 {
            10000
        } else {
            let f = self.spec_a() * self.spec_a() * 10000 / (self.spec_b() * self.spec_c());
            if f > 10000 {
                10000
            } else {
                f
            }
        }
    }

    /// The expected intercept in raw thousandths; zero when absent.
    pub open spec fn spec_intersect_expected(self) -> int {
        match self.expected_intersect {
            Some(v) => v.spec_raw(),
            None => 0,
        }
    }

    /// The expected slope in raw thousandths; one when absent.
    pub open spec fn spec_slope_expected(self) -> int {
        match self.expected_slope {
            Some(v) => v.spec_raw(),
            None => SCALE as int,
        }
    }

    /// Whether the coefficient of determination lies strictly below its
    /// configured floor, compared exactly on squares; undefined
    /// coefficients (a found dataset without variance) never do.
    pub open spec fn spec_r2_violated(self) -> bool {
        match self.allowed_r2 {
            Some(a) => self.spec_c() > 0 && self.spec_a() * self.spec_a() * (SCALE as int)
                < a.spec_raw() * self.spec_b() * self.spec_c(),
            None => false,
        }
    }

    /// The magnitude of the cross-multiplied difference between the
    /// fitted and the expected intercept.
    pub open spec fn spec_intersect_diff(self) -> int {
        let d = self.spec_e() - self.spec_intersect_expected() * self.spec_b();
        if d >= 0 {
            d
        } else {
            -d
        }
    }

    /// Whether the fitted intercept lies further from the expected one
    /// than the configured maximum, cross multiplied to raw entries.
    pub open spec fn spec_intersect_violated(self) -> bool {
        match self.allowed_intersect_delta {
            Some(d) => self.spec_intersect_diff() > d.spec_raw() * self.spec_b(),
            None => false,
        }
    }

    /// The magnitude of the cross-multiplied difference between the
    /// fitted and the expected slope.
    pub open spec fn spec_slope_diff(self) -> int {
        let d = self.spec_a() * (SCALE as int) - self.spec_slope_expected() * self.spec_b();
        if d >= 0 {
            d
        } else {
            -d
        }
    }

    /// Whether the fitted slope lies further from the expected one than
    /// the configured maximum, cross multiplied to raw entries.
    pub open spec fn spec_slope_violated(self) -> bool {
        match self.allowed_slope_delta {
            Some(d) => self.spec_slope_diff() > d.spec_raw() * self.spec_b() * (SCALE as int),
            None => false,
        }
    }

    /// The text reported when the two datasets differ in length.
    pub open spec fn spec_mismatch_text(self) -> Seq<char> {
        "The datasets to fit must have equal length: expected has "@ + spec_dec(
            self.expected@.len() as int,
        ) + " entries, found has "@ + spec_dec(self.found@.len() as int) + " entries"@
    }

    /// The text reported when a precondition check fails.
    pub open spec fn spec_precheck_text(self, e: StatError) -> Seq<char> {
        if e == StatError::LengthMismatch {
            self.spec_mismatch_text()
        } else {
            " * Scatter comparison failed: "@ + e.spec_message() + "\n"@
        }
    }

    /// The report lines for the fit itself.
    pub open spec fn spec_fit_text(self) -> Seq<char> {
        " * Fit: "@ + spec_dec4(self.spec_e(), (SCALE as int) * self.spec_b()) + " + "@
            + spec_dec4(self.spec_a(), self.spec_b()) + "x\n * R2 = "@ + spec_dec4(
            self.spec_r2_10k(),
            10000,
        ) + "\n"@
    }

    /// The error summary line for a coefficient of determination below
    /// its floor.
    pub open spec fn spec_r2_error_line(self, a: Value) -> Seq<char> {
        " *  R2 is "@ + spec_dec4(self.spec_r2_10k(), 10000) + ", which is lower than the allowed "@
            + spec_dec4(a.spec_raw(), SCALE as int) + "\n"@
    }

    /// The error summary line for an intercept too far from the
    /// expected one.
    pub open spec fn spec_intersect_error_line(self, d: Value) -> Seq<char> {
        " *  Intersect is "@ + spec_dec4(self.spec_e(), (SCALE as int) * self.spec_b())
            + " when expecting "@ + spec_dec4(self.spec_intersect_expected(), SCALE as int)
            + ", and the difference "@ + spec_dec4(
            self.spec_intersect_diff(),
            (SCALE as int) * self.spec_b(),
        ) + " is above the allowed "@ + spec_dec4(d.spec_raw(), SCALE as int) + "\n"@
    }

    /// The error summary line for a slope too far from the expected one.
    pub open spec fn spec_slope_error_line(self, d: Value) -> Seq<char> {
        " *  Slope is "@ + spec_dec4(self.spec_a(), self.spec_b()) + " when expecting "@
            + spec_dec4(self.spec_slope_expected(), SCALE as int) + ", and the difference "@
            + spec_dec4(self.spec_slope_diff(), (SCALE as int) * self.spec_b())
            + " is above the allowed "@ + spec_dec4(d.spec_raw(), SCALE as int) + "\n"@
    }

    /// The error summary segment of the coefficient judgment.
    pub open spec fn spec_r2_segment(self) -> Seq<char> {
        match self.allowed_r2 {
            Some(a) => if self.spec_r2_violated() {
                self.spec_r2_error_line(a)
            } else {
                Seq::<char>::empty()
            },
            None => Seq::<char>::empty(),
        }
    }

    /// The error summary segment of the intercept judgment.
    pub open spec fn spec_intersect_segment(self) -> Seq<char> {
        match self.allowed_intersect_delta {
            Some(d) => if self.spec_intersect_violated() {
                self.spec_intersect_error_line(d)
            } else {
                Seq::<char>::empty()
            },
            None => Seq::<char>::empty(),
        }
    }

    /// The error summary segment of the slope judgment.
    pub open spec fn spec_slope_segment(self) -> Seq<char> {
        match self.allowed_slope_delta {
            Some(d) => if self.spec_slope_violated() {
                self.spec_slope_error_line(d)
            } else {
                Seq::<char>::empty()
            },
            None => Seq::<char>::empty(),
        }
    }

    /// The concatenated error summary of the threshold judgments, in the
    /// order "coefficient of determination, intercept, slope".
    pub open spec fn spec_threshold_errors(self) -> Seq<char> {
        self.spec_r2_segment() + self.spec_intersect_segment() + self.spec_slope_segment()
    }

    /// Judges the coefficient of determination against its floor.
    fn judge_r2(&self, r2: &RSquare) -> (r: bool)
        requires
            r2.spec_cov() == self.spec_a(),
            r2.spec_var_x() == self.spec_b(),
            r2.spec_var_y() == self.spec_c(),
        ensures
            r == self.spec_r2_violated(),
    {
        match &self.allowed_r2 {
            Option::Some(a) => r2.below(a),
            Option::None => false,
        }
    }

    /// Judges the fitted intercept against its allowed deviation.
    fn judge_intersect(&self, icept_num: i128, b_var: i128) -> (r: bool)
        requires
            icept_num == self.spec_e(),
            b_var == self.spec_b(),
            0 < b_var <= 1_000_000_000_000_000_000_000_000_000,
            -400_000_000_000_000_000_000_000_000_000_000_000 <= icept_num
                <= 400_000_000_000_000_000_000_000_000_000_000_000,
        ensures
            r == self.spec_intersect_violated(),
    {
        match &self.allowed_intersect_delta {
            Option::Some(d) => {
                let e_raw: i128 = match &self.expected_intersect {
                    Option::Some(v) => v.raw() as i128,
                    Option::None => 0,
                };
                let k_d: i128 = d.raw() as i128;
                assert(-100_000_000_000_000_000_000_000_000_000_000_000 <= e_raw * b_var
                    <= 100_000_000_000_000_000_000_000_000_000_000_000
                    && -100_000_000_000_000_000_000_000_000_000_000_000 <= k_d * b_var
                    <= 100_000_000_000_000_000_000_000_000_000_000_000) by (nonlinear_arith)
                    requires
                        -100_000_000 <= e_raw <= 100_000_000,
                        -100_000_000 <= k_d <= 100_000_000,
                        0 <= b_var <= 1_000_000_000_000_000_000_000_000_000,
                ;
                let diff: i128 = icept_num - e_raw * b_var;
                let mag: i128 = if diff < 0 {
                    -diff
                } else {
                    diff
                };
                mag > k_d * b_var
            },
            Option::None => false,
        }
    }

    /// Judges the fitted slope against its allowed deviation.
    fn judge_slope(&self, a_num: i128, b_var: i128) -> (r: bool)
        requires
            a_num == self.spec_a(),
            b_var == self.spec_b(),
            0 < b_var <= 1_000_000_000_000_000_000_000_000_000,
            -1_000_000_000_000_000_000_000_000_000 <= a_num <= 1_000_000_000_000_000_000_000_000_000,
        ensures
            r == self.spec_slope_violated(),
    {
        match &self.allowed_slope_delta {
            Option::Some(d) => {
                let e_raw: i128 = match &self.expected_slope {
                    Option::Some(v) => v.raw() as i128,
                    Option::None => SCALE as i128,
                };
                let k_d: i128 = d.raw() as i128;
                assert(-100_000_000_000_000_000_000_000_000_000_000_000 <= e_raw * b_var
                    <= 100_000_000_000_000_000_000_000_000_000_000_000
                    && -100_000_000_000_000_000_000_000_000_000_000_000_000 <= k_d * b_var * 1000
                    <= 100_000_000_000_000_000_000_000_000_000_000_000_000) by (nonlinear_arith)
                    requires
                        -100_000_000 <= e_raw <= 100_000_000,
                        -100_000_000 <= k_d <= 100_000_000,
                        0 <= b_var <= 1_000_000_000_000_000_000_000_000_000,
                ;
                let diff: i128 = a_num * 1000 - e_raw * b_var;
                let mag: i128 = if diff < 0 {
                    -diff
                } else {
                    diff
                };
                mag > k_d * b_var * 1000
            },
            Option::None => false,
        }
    }

    /// Renders the text of a failed precondition check.
    fn precheck_text(&self, e: StatError) -> (s: String)
        ensures
            s@ == self.spec_precheck_text(e),
    {
        let mut text = String::new();
        if matches!(e, StatError::LengthMismatch) {
            text.append("The datasets to fit must have equal length: expected has ");
            let a = dec_usize(self.expected.len());
            text.append(a.as_str());
            text.append(" entries, found has ");
            let b = dec_usize(self.found.len());
            text.append(b.as_str());
            text.append(" entries");
        } else {
            text.append(" * Scatter comparison failed: ");
            let m = e.message();
            text.append(m.as_str());
            text.append("\n");
        }
        proof {
            assert(text@ =~= self.spec_precheck_text(e));
        }
        text
    }

    /// Renders the report lines for the fit itself.
    fn fit_text(&self, intercept: &Ratio, slope: &Ratio, q: i128) -> (s: String)
        requires
            intercept.spec_num() == self.spec_e(),
            intercept.spec_den() == (SCALE as int) * self.spec_b(),
            slope.spec_num() == self.spec_a(),
            slope.spec_den() == self.spec_b(),
            q == self.spec_r2_10k(),
            0 <= q <= 10000,
        ensures
            s@ == self.spec_fit_text(),
    {
        let mut fit = String::new();
        fit.append(" * Fit: ");
        let s1 = ratio_dec4(intercept);
        fit.append(s1.as_str());
        fit.append(" + ");
        let s2 = ratio_dec4(slope);
        fit.append(s2.as_str());
        fit.append("x\n * R2 = ");
        let s3 = frac_dec4(q, 10000);
        fit.append(s3.as_str());
        fit.append("\n");
        proof {
            assert(fit@ =~= self.spec_fit_text());
        }
        fit
    }

    /// Renders the error summary segment of the coefficient judgment.
    fn r2_segment_text(&self, q: i128, r2_viol: bool) -> (s: String)
        requires
            q == self.spec_r2_10k(),
            0 <= q <= 10000,
            r2_viol == self.spec_r2_violated(),
        ensures
            s@ == self.spec_r2_segment(),
    {
        let mut err = String::new();
        match &self.allowed_r2 {
            Option::Some(a) => {
                if r2_viol {
                    err.append(" *  R2 is ");
                    let t1 = frac_dec4(q, 10000);
                    err.append(t1.as_str());
                    err.append(", which is lower than the allowed ");
                    let t2 = frac_dec4(a.raw() as i128, 1000i128);
                    err.append(t2.as_str());
                    err.append("\n");
                }
            },
            Option::None => {},
        }
        proof {
            assert(err@ =~= self.spec_r2_segment());
        }
        err
    }

    /// Renders the error summary segment of the intercept judgment.
    fn intersect_segment_text(&self, intercept: &Ratio, b_var: i128, icept_viol: bool) -> (s:
        String)
        requires
            intercept.spec_num() == self.spec_e(),
            intercept.spec_den() == (SCALE as int) * self.spec_b(),
            b_var == self.spec_b(),
            0 < b_var <= 1_000_000_000_000_000_000_000_000_000,
            -400_000_000_000_000_000_000_000_000_000_000_000 <= intercept.spec_num()
                <= 400_000_000_000_000_000_000_000_000_000_000_000,
            icept_viol == self.spec_intersect_violated(),
        ensures
            s@ == self.spec_intersect_segment(),
    {
        let icept_num = intercept.num();
        let mut err = String::new();
        match &self.allowed_intersect_delta {
            Option::Some(d) => {
                if icept_viol {
                    let e_raw: i128 = match &self.expected_intersect {
                        Option::Some(v) => v.raw() as i128,
                        Option::None => 0,
                    };
                    assert(-100_000_000_000_000_000_000_000_000_000_000_000 <= e_raw * b_var
                        <= 100_000_000_000_000_000_000_000_000_000_000_000) by (nonlinear_arith)
                        requires
                            -100_000_000 <= e_raw <= 100_000_000,
                            0 <= b_var <= 1_000_000_000_000_000_000_000_000_000,
                    ;
                    let diff: i128 = icept_num - e_raw * b_var;
                    let mag: i128 = if diff < 0 {
                        -diff
                    } else {
                        diff
                    };
                    err.append(" *  Intersect is ");
                    let t3 = ratio_dec4(intercept);
                    err.append(t3.as_str());
                    err.append(" when expecting ");
                    let t4 = frac_dec4(e_raw, 1000i128);
                    err.append(t4.as_str());
                    err.append(", and the difference ");
                    let t5 = frac_dec4(mag, 1000i128 * b_var);
                    err.append(t5.as_str());
                    err.append(" is above the allowed ");
                    let t6 = frac_dec4(d.raw() as i128, 1000i128);
                    err.append(t6.as_str());
                    err.append("\n");
                }
            },
            Option::None => {},
        }
        proof {
            assert(err@ =~= self.spec_intersect_segment());
        }
        err
    }

    /// Renders the error summary segment of the slope judgment.
    fn slope_segment_text(&self, slope: &Ratio, a_num: i128, b_var: i128, slope_viol: bool) -> (s:
        String)
        requires
            slope.spec_num() == self.spec_a(),
            slope.spec_den() == self.spec_b(),
            a_num == self.spec_a(),
            b_var == self.spec_b(),
            0 < b_var <= 1_000_000_000_000_000_000_000_000_000,
            -1_000_000_000_000_000_000_000_000_000 <= a_num <= 1_000_000_000_000_000_000_000_000_000,
            slope_viol == self.spec_slope_violated(),
        ensures
            s@ == self.spec_slope_segment(),
    {
        let mut err = String::new();
        match &self.allowed_slope_delta {
            Option::Some(d) => {
                if slope_viol {
                    let e_raw: i128 = match &self.expected_slope {
                        Option::Some(v) => v.raw() as i128,
                        Option::None => SCALE as i128,
                    };
                    assert(-100_000_000_000_000_000_000_000_000_000_000_000 <= e_raw * b_var
                        <= 100_000_000_000_000_000_000_000_000_000_000_000) by (nonlinear_arith)
                        requires
                            -100_000_000 <= e_raw <= 100_000_000,
                            0 <= b_var <= 1_000_000_000_000_000_000_000_000_000,
                    ;
                    let diff: i128 = a_num * 1000 - e_raw * b_var;
                    let mag: i128 = if diff < 0 {
                        -diff
                    } else {
                        diff
                    };
                    err.append(" *  Slope is ");
                    let t7 = ratio_dec4(slope);
                    err.append(t7.as_str());
                    err.append(" when expecting ");
                    let t8 = frac_dec4(e_raw, 1000i128);
                    err.append(t8.as_str());
                    err.append(", and the difference ");
                    let t9 = frac_dec4(mag, 1000i128 * b_var);
                    err.append(t9.as_str());
                    err.append(" is above the allowed ");
                    let t10 = frac_dec4(d.raw() as i128, 1000i128);
                    err.append(t10.as_str());
                    err.append("\n");
                }
            },
            Option::None => {},
        }
        proof {
            assert(err@ =~= self.spec_slope_segment());
        }
        err
    }
}

impl Validate for ScatterValidator {
    /// The fit fails when a precondition check fails or when a
    /// configured bound is exceeded.
    open spec fn spec_fails(&self) -> bool {
        ||| self.spec_precheck() is Some
        ||| self.spec_r2_violated()
        ||| self.spec_intersect_violated()
        ||| self.spec_slope_violated()
    }

    /// The fragment holds the fit equation, the coefficient of
    /// determination, and an error section listing every exceeded bound,
    /// or the word "None"; a failed precondition check is reported
    /// instead.
    open spec fn spec_fragment(&self) -> Seq<char> {
        match self.spec_precheck() {
            Some(e) => self.spec_precheck_text(e),
            None => self.spec_fit_text() + "#### Errors:\n "@ + (if self.spec_fails() {
                self.spec_threshold_errors()
            } else {
                "None"@
            }) + "\n"@,
        }
    }

    /// The summary lists every exceeded bound, none short-circuiting the
    /// others.
    open spec fn spec_error(&self) -> Seq<char> {
        match self.spec_precheck() {
            Some(e) => self.spec_precheck_text(e),
            None => self.spec_threshold_errors(),
        }
    }

    fn validate(&self) -> (r: ValidationResult) {
        let exp = self.expected.as_slice();
        let fnd = self.found.as_slice();
        match linear_coefficients(exp, fnd) {
            Result::Err(e) => {
                let text = self.precheck_text(e);
                ValidationResult::Failed(text.clone(), text)
            },
            Result::Ok((intercept, slope, r2)) => {
                let a_num = r2.cov();
                let b_var = r2.var_x();
                let q = r2.per_ten_thousand();
                let r2_viol = self.judge_r2(&r2);
                let icept_viol = self.judge_intersect(intercept.num(), b_var);
                let slope_viol = self.judge_slope(a_num, b_var);
                let fit = self.fit_text(&intercept, &slope, q);
                let mut err = self.r2_segment_text(q, r2_viol);
                let seg2 = self.intersect_segment_text(&intercept, b_var, icept_viol);
                err.append(seg2.as_str());
                let seg3 = self.slope_segment_text(&slope, a_num, b_var, slope_viol);
                err.append(seg3.as_str());
                proof {
                    assert(err@ =~= self.spec_threshold_errors());
                }
                let failed = r2_viol || icept_viol || slope_viol;
                let mut frag = fit;
                frag.append("#### Errors:\n ");
                if failed {
                    frag.append(err.as_str());
                } else {
                    frag.append("None");
                }
                frag.append("\n");
                proof {
                    assert(frag@ =~= self.spec_fragment());
                }
                if failed {
                    ValidationResult::Failed(frag, err)
                } else {
                    ValidationResult::Passed(frag)
                }
            },
        }
    }
}

} // verus!
