//! Compiled exclusion patterns.
//!
//! Pattern matching itself is done by the `regex` crate; this module keeps
//! each compiled pattern paired with its source text, so that contracts can
//! speak about the pattern that a matcher was built from.

use vstd::prelude::*;

use crate::Error;

verus! {

#[verifier::external_type_specification]
#[verifier::external_body]
pub struct ExRegex(regex::Regex);

/// Whether `regex::Regex::new` accepts a pattern.  Compilation is a
/// function of the pattern text alone.
pub uninterp spec fn regex_valid(pattern: Seq<char>) -> bool;

/// Whether the pattern matches anywhere in the text, as decided by
/// `regex::Regex::is_match`.  The result is a function of the pattern and
/// the text alone.
pub uninterp spec fn regex_match(pattern: Seq<char>, text: Seq<char>) -> bool;

/// A compiled pattern over type names, remembering its source text.
/// The field invariant — `re` was compiled from `pattern` — is maintained
/// by the one constructor below and relied on by `is_match`.
pub struct Matcher {
    pattern: String,
    re: regex::Regex,
}

impl View for Matcher {
    type V = Seq<char>;

    closed spec fn view(&self) -> Seq<char> {
        self.pattern@
    }
}

impl Matcher {
    /// Relies on `regex::Regex::new`: it returns `Ok` exactly when the
    /// pattern is a valid expression (within the default size limit), a
    /// property of the pattern text alone.
    #[verifier::external_body]
    pub fn new(pattern: &str) -> (r: Result<Matcher, Error>)
        ensures
            match r {
                Ok(m) => regex_valid(pattern@) && m@ == pattern@,
                Err(e) => !regex_valid(pattern@) && e == Error::InvalidPattern,
            },
    {
        match regex::Regex::new(pattern) {
            Ok(re) => Ok(Matcher { pattern: pattern.to_owned(), re }),
            Err(_) => Err(Error::InvalidPattern),
        }
    }

    /// Relies on `regex::Regex::is_match`: whether the compiled pattern
    /// matches anywhere in the text is a function of the pattern text and
    /// the haystack alone.
    #[verifier::external_body]
    pub fn is_match(&self, text: &str) -> (r: bool)
        ensures
            r == regex_match(self@, text@),
    {
        self.re.is_match(text)
    }
}

} // verus!
