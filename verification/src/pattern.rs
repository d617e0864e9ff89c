//! The glob filter pattern: a compiled `glob::Pattern` kept together with
//! the source text it was compiled from, so that contracts can speak of the
//! match result as a function of that text.

use vstd::prelude::*;

verus! {

/// Whether `glob::Pattern::new` accepts `pat` as well-formed glob syntax.
pub uninterp spec fn glob_valid(pat: Seq<char>) -> bool;

/// Whether the glob pattern compiled from `pat` matches `name`, as decided
/// by `glob::Pattern::matches`. The verdict depends on the two strings alone.
pub uninterp spec fn glob_match(pat: Seq<char>, name: Seq<char>) -> bool;

#[verifier::external_type_specification]
#[verifier::external_body]
pub struct ExPattern(glob::Pattern);

#[verifier::external_type_specification]
#[verifier::external_body]
pub struct ExPatternError(glob::PatternError);

/// Relies on glob::Pattern::new: it compiles well-formed glob syntax and
/// rejects anything else, deciding on the pattern text alone; `glob_valid`
/// names that decision.
pub assume_specification[ glob::Pattern::new ](pattern: &str) -> (r: Result<
    glob::Pattern,
    glob::PatternError,
>)
    ensures
        r is Ok <==> glob_valid(pattern@),
;

/// A configuration rejected before any traversal starts.
#[derive(Debug)]
pub enum ConfigError {
    /// The filter pattern is not well-formed glob syntax.
    InvalidPattern,
}

impl ConfigError {
    /// A short description, for the surrounding binary to report.
    pub fn message(&self) -> (m: &'static str)
        ensures
            m@ == "invalid filter pattern"@,
    {
        "invalid filter pattern"
    }
}

/// A glob pattern for base file names. Its view is the pattern source text.
pub struct FilterPattern {
    pat: glob::Pattern,
    src: String,
}

impl View for FilterPattern {
    type V = Seq<char>;

    closed spec fn view(&self) -> Seq<char> {
        self.src@
    }
}

impl FilterPattern {
    /// Compile a filter pattern; a malformed pattern is rejected here,
    /// before any traversal.
    pub fn new(src: String) -> (r: Result<FilterPattern, ConfigError>)
        ensures
            r is Ok <==> glob_valid(src@),
            r matches Ok(p) ==> p@ == src@,
    {
        match glob::Pattern::new(src.as_str()) {
            Ok(pat) => Ok(FilterPattern { pat, src }),
            Err(_) => Err(ConfigError::InvalidPattern),
        }
    }

    /// Relies on glob::Pattern::matches: whether the compiled pattern
    /// matches `name`; `self.pat` was compiled from `self.src` by
    /// `FilterPattern::new`, the only constructor.
    #[verifier::external_body]
    fn matches_impl(&self, name: &str) -> (r: bool)
        ensures
            r == glob_match(self.src@, name@),
    {
        self.pat.matches(name)
    }

    /// Whether the pattern matches the base file name `name`.
    pub fn matches(&self, name: &str) -> (r: bool)
        ensures
            r == glob_match(self@, name@),
    {
        self.matches_impl(name)
    }
}

} // verus!
