//! A validation engine for numerical code: it compares expected and found
//! datasets, computes statistical agreement indicators, optionally enforces
//! pass/fail thresholds, and aggregates many independent checks into one
//! report with a single verdict.
//!
//! All statistics are computed exactly, over a bounded fixed-point value
//! type ([`numeric::Value`]) and exact rationals ([`numeric::Ratio`]), so
//! every indicator and every verdict is fully specified and verified.
//! Reading datasets in, turning the report body into a styled document and
//! writing it out are left to the surrounding program.

pub mod numberish;
pub mod numeric;
pub mod render;
pub mod scatter;
pub mod stats;
pub mod time_series;
pub mod validator_wrapper;
pub mod wide;

pub use numeric::Ratio;
pub use scatter::ScatterValidator;
pub use time_series::SeriesValidator;
pub use numeric::Value;
pub use validator_wrapper::ValidatorWrapper;

use vstd::prelude::*;
use vstd::string::StringExecFns;

verus! {

/// The outcome of one check.
///
/// A passing check contributes a report fragment; a failing one still
/// contributes its full fragment, plus a terse error summary for the
/// diagnostic channel. The report is complete even for failing runs.
pub enum ValidationResult {
    /// The check failed: the report fragment, then the error summary.
    Failed(String, String),
    /// The check passed: the report fragment.
    Passed(String),
}

impl ValidationResult {
    /// Does nothing on a passing outcome; a failing outcome is ruled out
    /// by the precondition, since the engine never aborts a run itself.
    pub fn unwrap(&self)
        requires
            !(self is Failed),
    {
    }

    /// Whether the outcome is a failure.
    pub fn is_err(&self) -> (r: bool)
        ensures
            r <==> self is Failed,
    {
        matches!(self, ValidationResult::Failed(_, _))
    }

    /// Whether the outcome is a pass.
    pub fn is_ok(&self) -> (r: bool)
        ensures
            r <==> !(self is Failed),
    {
        !matches!(self, ValidationResult::Failed(_, _))
    }
}

/// The capability every check implements: run once, with every input
/// bound at construction, and produce one [`ValidationResult`].
///
/// The three specification functions pin the behaviour down: `validate`
/// returns the fragment [`Validate::spec_fragment`] in every case, fails
/// exactly when [`Validate::spec_fails`] holds, and then carries the
/// summary [`Validate::spec_error`]. Running a check is deterministic,
/// which makes a whole validation run reproducible.
pub trait Validate {
    /// Whether the check fails.
    spec fn spec_fails(&self) -> bool;

    /// The report fragment the check contributes, pass or fail.
    spec fn spec_fragment(&self) -> Seq<char>;

    /// The terse error summary of a failing check.
    spec fn spec_error(&self) -> Seq<char>;

    /// Runs the check.
    fn validate(&self) -> (r: ValidationResult)
        ensures
            match r {
                ValidationResult::Passed(t) => !self.spec_fails() && t@ == self.spec_fragment(),
                ValidationResult::Failed(t, e) => self.spec_fails() && t@ == self.spec_fragment()
                    && e@ == self.spec_error(),
            },
    ;
}

/// One check of a validation run. The set of built-in checks is closed:
/// a time-series comparison, a scatter-fit comparison, or a wrapped
/// check that frames another one with a title and a description.
pub enum Check {
    /// A time-series comparison.
    Series(SeriesValidator),
    /// A scatter-fit comparison.
    Scatter(ScatterValidator),
    /// A titled, described wrapper around another check.
    Wrapped(ValidatorWrapper),
}

impl Validate for Check {
    /// Whether the underlying check fails.
    open spec fn spec_fails(&self) -> bool
        decreases self,
    {
        match self {
            Check::Series(v) => v.spec_fails(),
            Check::Scatter(v) => v.spec_fails(),
            Check::Wrapped(w) => w.spec_fails(),
        }
    }

    /// The fragment of the underlying check.
    open spec fn spec_fragment(&self) -> Seq<char>
        decreases self,
    {
        match self {
            Check::Series(v) => v.spec_fragment(),
            Check::Scatter(v) => v.spec_fragment(),
            Check::Wrapped(w) => w.spec_fragment(),
        }
    }

    /// The error summary of the underlying check.
    open spec fn spec_error(&self) -> Seq<char>
        decreases self,
    {
        match self {
            Check::Series(v) => v.spec_error(),
            Check::Scatter(v) => v.spec_error(),
            Check::Wrapped(w) => w.spec_error(),
        }
    }

    fn validate(&self) -> (r: ValidationResult)
        decreases self,
    {
        match self {
            Check::Series(v) => v.validate(),
            Check::Scatter(v) => v.validate(),
            Check::Wrapped(w) => w.validate(),
        }
    }
}

/// The pure outcome of a whole validation run: the rendered report body,
/// and the collected error summaries of every failing check, in run
/// order. The run passes exactly when no error was collected.
pub struct AggregateOutcome {
    /// The report body: the title heading, then every fragment.
    pub body: String,
    /// The error summaries of the failing checks.
    pub errors: Vec<String>,
}

impl AggregateOutcome {
    /// The final verdict of the run: success exactly when every check
    /// passed. A failure carries only one short sentence; the details
    /// live in the report body and the collected summaries.
    pub fn verdict(&self) -> (r: Result<(), String>)
        ensures
            r is Ok <==> self.errors@.len() == 0,
            r is Err ==> r->Err_0@ == "Some validations failed..."@,
    {
        if self.errors.len() == 0 {
            Result::Ok(())
        } else {
            Result::Err(String::from_str("Some validations failed..."))
        }
    }
}

/// Holds an ordered batch of checks and a title, runs every check in
/// insertion order, and combines their fragments into one report body
/// with one pass/fail verdict. A failing check never aborts the batch.
pub struct Validator {
    title: String,
    checks: Vec<Check>,
}

impl Validator {
    /// The report title.
    pub closed spec fn spec_title(self) -> Seq<char> {
        self.title@
    }

    /// The checks, in insertion order.
    pub closed spec fn spec_checks(self) -> Seq<Check> {
        self.checks@
    }

    /// The fragments of a batch of checks, joined by blank separators in
    /// run order.
    pub open spec fn spec_fragments(checks: Seq<Check>) -> Seq<char>
        decreases checks.len(),
    {
        if checks.len() == 0 {
            Seq::<char>::empty()
        } else if checks.len() == 1 {
            checks[0].spec_fragment()
        } else {
            Self::spec_fragments(checks.drop_last()) + "\n"@ + checks.last().spec_fragment()
        }
    }

    /// The error summaries of the failing checks of a batch, in run
    /// order.
    pub open spec fn spec_errors(checks: Seq<Check>) -> Seq<Seq<char>>
        decreases checks.len(),
    {
        if checks.len() == 0 {
            Seq::<Seq<char>>::empty()
        } else {
            Self::spec_errors(checks.drop_last()) + (if checks.last().spec_fails() {
                seq![checks.last().spec_error()]
            } else {
                Seq::<Seq<char>>::empty()
            })
        }
    }

    /// The whole report body: the title as a heading, then every
    /// fragment.
    pub open spec fn spec_body(self) -> Seq<char> {
        "# "@ + self.spec_title() + "\n\n"@ + Self::spec_fragments(self.spec_checks())
    }

    /// A new batch under the given report title, with no checks yet.
    pub fn new(title: String) -> (r: Validator)
        ensures
            r.spec_title() == title@,
            r.spec_checks().len() == 0,
    {
        Validator { title, checks: Vec::new() }
    }

    /// The report title, as given at construction.
    pub fn title(&self) -> (t: &String)
        ensures
            t@ == self.spec_title(),
    {
        &self.title
    }

    /// Appends a check to the batch. Nothing is deduplicated: a check
    /// pushed twice runs twice.
    pub fn push(&mut self, v: Check)
        ensures
            final(self).spec_title() == old(self).spec_title(),
            final(self).spec_checks() == old(self).spec_checks().push(v),
    {
        self.checks.push(v)
    }

    /// Runs every check in insertion order and collects the outcome:
    /// the report body always holds the title and every fragment, the
    /// error list holds exactly the summaries of the failing checks, and
    /// it is empty exactly when every check passed.
    ///
    /// The outcome is a pure function of the batch, so running the same
    /// unmodified batch twice yields identical report bodies and the
    /// same verdict.
    pub fn validate(&self) -> (r: AggregateOutcome)
        ensures
            r.body@ == self.spec_body(),
            r.errors.deep_view() == Self::spec_errors(self.spec_checks()),
            r.errors@.len() == 0 <==> (forall|i: int|
                0 <= i < self.spec_checks().len() ==> !(#[trigger] self.spec_checks()[i]).spec_fails()),
    {
        let n = self.checks.len();
        let mut body = String::new();
        body.append("# ");
        body.append(self.title.as_str());
        body.append("\n\n");
        let mut errors: Vec<String> = Vec::new();
        let mut i: usize = 0;
        while i < n
            invariant
                0 <= i <= n,
                n == self.spec_checks().len(),
                body@ == "# "@ + self.spec_title() + "\n\n"@ + Self::spec_fragments(
                    self.spec_checks().take(i as int),
                ),
                errors.deep_view() == Self::spec_errors(self.spec_checks().take(i as int)),
                errors@.len() == 0 <==> (forall|j: int|
                    0 <= j < i ==> !(#[trigger] self.spec_checks()[j]).spec_fails()),
            decreases n - i,
        {
            let c = &self.checks[i];
            proof {
                lemma_fragments_take_step(self.spec_checks(), i as int);
                lemma_errors_take_step(self.spec_checks(), i as int);
            }
            if i > 0 {
                body.append("\n");
            }
            match c.validate() {
                ValidationResult::Passed(t) => {
                    body.append(t.as_str());
                },
                ValidationResult::Failed(t, e) => {
                    body.append(t.as_str());
                    errors.push(e);
                },
            }
            proof {
                assert(body@ =~= "# "@ + self.spec_title() + "\n\n"@ + Self::spec_fragments(
                    self.spec_checks().take(i as int + 1),
                ));
                assert(errors.deep_view() =~~= Self::spec_errors(
                    self.spec_checks().take(i as int + 1),
                ));
            }
            i += 1;
        }
        proof {
            assert(self.spec_checks().take(n as int) =~= self.spec_checks());
        }
        AggregateOutcome { body, errors }
    }
}

proof fn lemma_fragments_take_step(s: Seq<Check>, i: int)
    requires
        0 <= i < s.len(),
    ensures
        Validator::spec_fragments(s.take(i + 1)) == if i == 0 {
            s[0].spec_fragment()
        } else {
            Validator::spec_fragments(s.take(i)) + "\n"@ + s[i].spec_fragment()
        },
{
    assert(s.take(i + 1).drop_last() =~= s.take(i));
    assert(s.take(i + 1).last() == s[i]);
}

proof fn lemma_errors_take_step(s: Seq<Check>, i: int)
    requires
        0 <= i < s.len(),
    ensures
        Validator::spec_errors(s.take(i + 1)) == Validator::spec_errors(s.take(i)) + (
        if s[i].spec_fails() {
            seq![s[i].spec_error()]
        } else {
            Seq::<Seq<char>>::empty()
        }),
{
    assert(s.take(i + 1).drop_last() =~= s.take(i));
    assert(s.take(i + 1).last() == s[i]);
}

/// The outcome of a validation run is a pure function of the batch:
/// two runs of the same unmodified batch yield bit-identical report
/// bodies and the same collected errors, hence the same verdict.
pub proof fn lemma_validate_deterministic(
    v: Validator,
    first: AggregateOutcome,
    second: AggregateOutcome,
)
    requires
        first.body@ == v.spec_body(),
        first.errors.deep_view() == Validator::spec_errors(v.spec_checks()),
        second.body@ == v.spec_body(),
        second.errors.deep_view() == Validator::spec_errors(v.spec_checks()),
    ensures
        first.body@ == second.body@,
        first.errors.deep_view() == second.errors.deep_view(),
        first.errors@.len() == 0 <==> second.errors@.len() == 0,
{
    assert(first.errors@.len() == first.errors.deep_view().len());
    assert(second.errors@.len() == second.errors.deep_view().len());
}

/// Whether two values lie within `allowed` of each other: the magnitude
/// of their difference is at most the allowed difference.
pub fn close_enough(left: &Value, right: &Value, allowed: &Value) -> (r: bool)
    requires
        !left.spec_is_nan(),
        !right.spec_is_nan(),
        !allowed.spec_is_nan(),
    ensures
        r <==> (if left.spec_raw() >= right.spec_raw() {
            left.spec_raw() - right.spec_raw()
        } else {
            right.spec_raw() - left.spec_raw()
        }) <= allowed.spec_raw(),
{
    let a = left.raw();
    let b = right.raw();
    let d = if a >= b {
        a - b
    } else {
        b - a
    };
    d <= allowed.raw()
}

/// Whether two values lie at least `minimum` apart: the magnitude of
/// their difference is at least the minimum difference.
pub fn far_apart(left: &Value, right: &Value, minimum: &Value) -> (r: bool)
    requires
        !left.spec_is_nan(),
        !right.spec_is_nan(),
        !minimum.spec_is_nan(),
    ensures
        r <==> (if left.spec_raw() >= right.spec_raw() {
            left.spec_raw() - right.spec_raw()
        } else {
            right.spec_raw() - left.spec_raw()
        }) >= minimum.spec_raw(),
{
    let a = left.raw();
    let b = right.raw();
    let d = if a >= b {
        a - b
    } else {
        b - a
    };
    d >= minimum.raw()
}

} // verus!
