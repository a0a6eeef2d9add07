//! Comparison of two time series by mean bias error and root mean
//! squared error, with optional pass/fail thresholds on either.

use crate::numeric::Value;
use crate::numeric::SCALE;
use crate::render::dec_usize;
use crate::render::frac_dec4;
use crate::render::ratio_dec4;
use crate::render::spec_dec;
use crate::render::spec_dec4;
use crate::stats::mean_bias_error;
use crate::stats::mean_squared_error;
use crate::stats::raws;
use crate::stats::root_mean_squared_error;
use crate::stats::spec_pair_err;
use crate::stats::spec_rmse_q;
use crate::stats::sum_diff;
use crate::stats::sum_sq_diff;
use crate::stats::StatError;
use crate::stats::MAX_SAMPLES;
use crate::wide::spec_isqrt;
use crate::Validate;
use crate::ValidationResult;
use vstd::pervasive::unreached;
use vstd::prelude::*;
use vstd::string::StringExecFns;

verus! {

/// Validates a pair of time series: computes the mean bias error and the
/// root mean squared error between the expected and the found series,
/// and, where a maximum is configured, judges each against it. An absent
/// maximum means "compute and report, but do not judge".
///
/// The labels describe the two series for the rendered report; they play
/// no part in the judgment.
#[derive(Clone)]
pub struct SeriesValidator {
    /// The maximum allowed magnitude of the mean bias error.
    pub allowed_mean_bias_error: Option<Value>,
    /// The maximum allowed root mean squared error.
    pub allowed_root_mean_squared_error: Option<Value>,
    /// The units on the y axis of a rendered chart.
    pub y_units: Option<String>,
    /// The label on the y axis of a rendered chart.
    pub y_label: Option<String>,
    /// The units on the x axis of a rendered chart.
    pub x_units: Option<String>,
    /// The label on the x axis of a rendered chart.
    pub x_label: Option<String>,
    /// The name of the expected series.
    pub expected_legend: Option<String>,
    /// The expected values.
    pub expected: Vec<Value>,
    /// The name of the found series.
    pub found_legend: Option<String>,
    /// The found values.
    pub found: Vec<Value>,
    /// The title of a rendered chart.
    pub chart_title: Option<String>,
}

impl Default for SeriesValidator {
    /// An empty comparison: no datasets, no thresholds, no labels.
    fn default() -> (r: Self)
        ensures
            r.allowed_mean_bias_error is None,
            r.allowed_root_mean_squared_error is None,
            r.y_units is None,
            r.y_label is None,
            r.x_units is None,
            r.x_label is None,
            r.expected_legend is None,
            r.found_legend is None,
            r.chart_title is None,
            r.expected@.len() == 0,
            r.found@.len() == 0,
    {
        SeriesValidator {
            allowed_mean_bias_error: None,
            allowed_root_mean_squared_error: None,
            y_units: None,
            y_label: None,
            x_units: None,
            x_label: None,
            expected_legend: None,
            expected: Vec::new(),
            found_legend: None,
            found: Vec::new(),
            chart_title: None,
        }
    }
}

impl SeriesValidator {
    /// The shared length of the two series.
    pub open spec fn spec_n(self) -> int {
        self.expected@.len() as int
    }

    /// The precondition check of the comparison.
    pub open spec fn spec_precheck(self) -> Option<StatError> {
        spec_pair_err(self.expected@, self.found@)
    }

    /// The numerator of the mean bias error, over raw entries.
    pub open spec fn spec_mbe_num(self) -> int {
        sum_diff(raws(self.expected@), raws(self.found@))
    }

    /// The magnitude of the numerator of the mean bias error.
    pub open spec fn spec_mbe_abs(self) -> int {
        if self.spec_mbe_num() >= 0 {
            self.spec_mbe_num()
        } else {
            -self.spec_mbe_num()
        }
    }

    /// The root mean squared error scaled to millionths, rounded down.
    pub open spec fn spec_rmse_root(self) -> int {
        spec_isqrt(spec_rmse_q(self.expected@, self.found@))
    }

    /// Whether the magnitude of the mean bias error exceeds its
    /// configured maximum: `|sum of differences| / n > allowed`, cross
    /// multiplied to raw entries.
    pub open spec fn spec_mbe_violated(self) -> bool {
        match self.allowed_mean_bias_error {
            Some(t) => self.spec_mbe_abs() > t.spec_raw() * self.spec_n(),
            None => false,
        }
    }

    /// Whether the root mean squared error exceeds its configured
    /// maximum. For a nonnegative maximum the judgment compares the
    /// exact squares: `sum of squared differences > allowed^2 * n`; a
    /// negative maximum is below every root.
    pub open spec fn spec_rmse_violated(self) -> bool {
        match self.allowed_root_mean_squared_error {
            Some(t) => t.spec_raw() < 0 || sum_sq_diff(raws(self.expected@), raws(self.found@))
                > t.spec_raw() * t.spec_raw() * self.spec_n(),
            None => false,
        }
    }

    /// The text reported when the two series differ in length.
    pub open spec fn spec_mismatch_text(self) -> Seq<char> {
        "The series to compare must have equal length: expected has "@ + spec_dec(
            self.expected@.len() as int,
        ) + " entries, found has "@ + spec_dec(self.found@.len() as int) + " entries"@
    }

    /// The text reported when a precondition check fails.
    pub open spec fn spec_precheck_text(self, e: StatError) -> Seq<char> {
        if e == StatError::LengthMismatch {
            self.spec_mismatch_text()
        } else {
            " * Series comparison failed: "@ + e.spec_message() + "\n"@
        }
    }

    /// The report line for the mean bias error.
    pub open spec fn spec_mbe_line(self) -> Seq<char> {
        " * Mean Bias Error: "@ + spec_dec4(self.spec_mbe_num(), SCALE * self.spec_n()) + (
        if self.spec_mbe_violated() {
            " | **Failed!**"@
        } else {
            Seq::<char>::empty()
        }) + "\n"@
    }

    /// The report line for the root mean squared error.
    pub open spec fn spec_rmse_line(self) -> Seq<char> {
        " * Root Mean Squared Error: "@ + spec_dec4(self.spec_rmse_root(), 1_000_000) + (
        if self.spec_rmse_violated() {
            " | **Failed!**"@
        } else {
            Seq::<char>::empty()
        }) + "\n"@
    }

    /// The error summary line for an exceeded mean bias error maximum.
    pub open spec fn spec_mbe_error_line(self, t: Value) -> Seq<char> {
        " * Mean Bias Error is "@ + spec_dec4(self.spec_mbe_abs(), SCALE * self.spec_n())
            + ", above the allowed "@ + spec_dec4(t.spec_raw(), SCALE as int) + "\n"@
    }

    /// The error summary line for an exceeded root mean squared error
    /// maximum.
    pub open spec fn spec_rmse_error_line(self, t: Value) -> Seq<char> {
        " * Root Mean Squared Error is "@ + spec_dec4(self.spec_rmse_root(), 1_000_000)
            + ", above the allowed "@ + spec_dec4(t.spec_raw(), SCALE as int) + "\n"@
    }
}

impl Validate for SeriesValidator {
    /// The comparison fails when a precondition check fails or when a
    /// configured maximum is exceeded.
    open spec fn spec_fails(&self) -> bool {
        ||| self.spec_precheck() is Some
        ||| self.spec_mbe_violated()
        ||| self.spec_rmse_violated()
    }

    /// The fragment holds both indicators, each marked when it exceeded
    /// its maximum; a failed precondition check is reported instead.
    open spec fn spec_fragment(&self) -> Seq<char> {
        match self.spec_precheck() {
            Some(e) => self.spec_precheck_text(e),
            None => self.spec_mbe_line() + self.spec_rmse_line(),
        }
    }

    /// The summary lists every exceeded maximum, none short-circuiting
    /// the other.
    open spec fn spec_error(&self) -> Seq<char> {
        match self.spec_precheck() {
            Some(e) => self.spec_precheck_text(e),
            None => (match self.allowed_mean_bias_error {
                Some(t) => if self.spec_mbe_violated() {
                    self.spec_mbe_error_line(t)
                } else {
                    Seq::<char>::empty()
                },
                None => Seq::<char>::empty(),
            }) + (match self.allowed_root_mean_squared_error {
                Some(t) => if self.spec_rmse_violated() {
                    self.spec_rmse_error_line(t)
                } else {
                    Seq::<char>::empty()
                },
                None => Seq::<char>::empty(),
            }),
        }
    }

    fn validate(&self) -> (r: ValidationResult) {
        let exp = self.expected.as_slice();
        let fnd = self.found.as_slice();
        match mean_bias_error(exp, fnd) {
            Result::Err(e) => {
                let mut text = String::new();
                if matches!(e, StatError::LengthMismatch) {
                    text.append("The series to compare must have equal length: expected has ");
                    let a = dec_usize(self.expected.len());
                    text.append(a.as_str());
                    text.append(" entries, found has ");
                    let b = dec_usize(self.found.len());
                    text.append(b.as_str());
                    text.append(" entries");
                } else {
                    text.append(" * Series comparison failed: ");
                    let m = e.message();
                    text.append(m.as_str());
                    text.append("\n");
                }
                proof {
                    assert(text@ =~= self.spec_precheck_text(e));
                }
                ValidationResult::Failed(text.clone(), text)
            },
            Result::Ok(mbe) => {
                let mse = match mean_squared_error(exp, fnd) {
                    Result::Ok(m) => m,
                    Result::Err(_) => unreached(),
                };
                let rmse = match root_mean_squared_error(exp, fnd) {
                    Result::Ok(m) => m,
                    Result::Err(_) => unreached(),
                };
                let n128: i128 = exp.len() as i128;
                let m = mbe.num();
                let mabs: i128 = if m < 0 {
                    -m
                } else {
                    m
                };
                let mbe_viol: bool = match &self.allowed_mean_bias_error {
                    Option::Some(t) => {
                        let k: i128 = t.raw() as i128;
                        assert(-10_000_000_000_000 <= k * n128 <= 10_000_000_000_000)
                            by (nonlinear_arith)
                            requires
                                -100_000_000 <= k <= 100_000_000,
                                0 <= n128 <= 100_000,
                        ;
                        mabs > k * n128
                    },
                    Option::None => false,
                };
                let p = mse.num();
                let rmse_viol: bool = match &self.allowed_root_mean_squared_error {
                    Option::Some(t) => {
                        let k: i128 = t.raw() as i128;
                        assert(-10_000_000_000_000_000 <= k * k <= 10_000_000_000_000_000
                            && -1_000_000_000_000_000_000_000 <= k * k * n128
                                <= 1_000_000_000_000_000_000_000) by (nonlinear_arith)
                            requires
                                -100_000_000 <= k <= 100_000_000,
                                0 <= n128 <= 100_000,
                        ;
                        k < 0 || p > k * k * n128
                    },
                    Option::None => false,
                };
                let mut frag = String::new();
                frag.append(" * Mean Bias Error: ");
                let s1 = frac_dec4(m, 1000i128 * n128);
                frag.append(s1.as_str());
                if mbe_viol {
                    frag.append(" | **Failed!**");
                }
                frag.append("\n");
                frag.append(" * Root Mean Squared Error: ");
                let s2 = ratio_dec4(&rmse);
                frag.append(s2.as_str());
                if rmse_viol {
                    frag.append(" | **Failed!**");
                }
                frag.append("\n");
                proof {
                    assert(frag@ =~= self.spec_fragment());
                }
                if !(mbe_viol || rmse_viol) {
                    ValidationResult::Passed(frag)
                } else {
                    let mut err = String::new();
                    match &self.allowed_mean_bias_error {
                        Option::Some(t) => {
                            if mbe_viol {
                                err.append(" * Mean Bias Error is ");
                                let e1 = frac_dec4(mabs, 1000i128 * n128);
                                err.append(e1.as_str());
                                err.append(", above the allowed ");
                                let e2 = frac_dec4(t.raw() as i128, 1000i128);
                                err.append(e2.as_str());
                                err.append("\n");
                            }
                        },
                        Option::None => {},
                    }
                    match &self.allowed_root_mean_squared_error {
                        Option::Some(t) => {
                            if rmse_viol {
                                err.append(" * Root Mean Squared Error is ");
                                let e3 = ratio_dec4(&rmse);
                                err.append(e3.as_str());
                                err.append(", above the allowed ");
                                let e4 = frac_dec4(t.raw() as i128, 1000i128);
                                err.append(e4.as_str());
                                err.append("\n");
                            }
                        },
                        Option::None => {},
                    }
                    proof {
                        assert(err@ =~= self.spec_error());
                    }
                    ValidationResult::Failed(frag, err)
                }
            },
        }
    }
}

} // verus!
