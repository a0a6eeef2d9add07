//! A titled, described wrapper around another check: it runs the inner
//! check and frames its fragment with a heading and a description.

use crate::Check;
use crate::Validate;
use crate::ValidationResult;
use vstd::prelude::*;
use vstd::string::StringExecFns;

verus! {

/// Wraps a check with a title and a prose description, so its fragment
/// appears in the report as a titled section. The verdict and the error
/// summary are those of the inner check.
pub struct ValidatorWrapper {
    /// The title of the wrapped check.
    pub title: String,
    /// A prose description of what is being validated, and why.
    pub description: String,
    /// The wrapped check.
    pub val: Box<Check>,
}

impl ValidatorWrapper {
    /// The fragment of the inner check, framed by the title, the
    /// description and an indicator heading.
    pub open spec fn spec_format_description(self, txt: Seq<char>) -> Seq<char> {
        "## "@ + self.title@ + "\n\n"@ + self.description@ + "\n\n #### Indicators \n\n"@ + txt
            + "\n"@
    }

    /// Frames a fragment with this wrapper's title and description.
    pub fn format_description(&self, txt: String) -> (s: String)
        ensures
            s@ == self.spec_format_description(txt@),
    {
        let mut s = String::new();
        s.append("## ");
        s.append(self.title.as_str());
        s.append("\n\n");
        s.append(self.description.as_str());
        s.append("\n\n #### Indicators \n\n");
        s.append(txt.as_str());
        s.append("\n");
        proof {
            assert(s@ =~= self.spec_format_description(txt@));
        }
        s
    }
}

impl Validate for ValidatorWrapper {
    /// The wrapper fails exactly when the wrapped check fails.
    open spec fn spec_fails(&self) -> bool
        decreases self,
    {
        self.val.spec_fails()
    }

    /// The wrapped fragment, framed by title and description.
    open spec fn spec_fragment(&self) -> Seq<char>
        decreases self,
    {
        self.spec_format_description(self.val.spec_fragment())
    }

    /// The error summary of the wrapped check, unchanged.
    open spec fn spec_error(&self) -> Seq<char>
        decreases self,
    {
        self.val.spec_error()
    }

    fn validate(&self) -> (r: ValidationResult)
        decreases self,
    {
        match self.val.validate() {
            ValidationResult::Passed(txt) => {
                let ret = self.format_description(txt);
                ValidationResult::Passed(ret)
            },
            ValidationResult::Failed(txt, err) => {
                let ret = self.format_description(txt);
                ValidationResult::Failed(ret, err)
            },
        }
    }
}

} // verus!
