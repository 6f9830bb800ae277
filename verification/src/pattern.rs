//! Regular expressions of the selector rules, compiled with the `regex` crate.
use vstd::prelude::*;

verus! {

#[verifier::external_type_specification]
#[verifier::external_body]
pub struct ExRegex(regex::Regex);

/// What `regex::Regex::new` reports for `pattern`: nothing where it accepts
/// the pattern (valid syntax, and a compiled form within the default size
/// limit), else the text of its error.
pub uninterp spec fn regex_error(pattern: Seq<char>) -> Option<Seq<char>>;

/// Whether `regex::Regex::new` accepts `pattern`.
pub open spec fn regex_compiles(pattern: Seq<char>) -> bool {
    regex_error(pattern) is None
}

/// Whether the regular expression `pattern` matches somewhere in `haystack`,
/// as `regex::Regex::is_match` decides.
pub uninterp spec fn regex_matches(pattern: Seq<char>, haystack: Seq<char>) -> bool;

/// A compiled regular expression together with the text it was compiled
/// from. Values are only made by `CompiledPattern::new`.
pub(crate) struct CompiledPattern {
    source: String,
    regex: regex::Regex,
}

impl View for CompiledPattern {
    type V = Seq<char>;

    /// The text the expression was compiled from.
    closed spec fn view(&self) -> Seq<char> {
        self.source@
    }
}

impl CompiledPattern {
    /// Compiles `pattern` with `regex::Regex::new`. Claims: the result is
    /// `Ok` exactly when the crate accepts the pattern, and then remembers
    /// `pattern` as its source; else it is the text (`Display`) of the
    /// crate's error for the pattern.
    #[verifier::external_body]
    pub(crate) fn new(pattern: &str) -> (r: Result<CompiledPattern, String>)
        ensures
            match r {
                Ok(p) => regex_error(pattern@) is None && p@ == pattern@,
                Err(e) => regex_error(pattern@) == Some(e@),
            },
    {
        match regex::Regex::new(pattern) {
            Ok(regex) => Ok(CompiledPattern { source: pattern.to_string(), regex }),
            Err(e) => Err(e.to_string()),
        }
    }

    /// Searches `haystack` with `regex::Regex::is_match`. Claims: the answer
    /// is the one the crate gives for the source text of this pattern.
    #[verifier::external_body]
    pub(crate) fn is_match(&self, haystack: &str) -> (b: bool)
        ensures
            b == regex_matches(self@, haystack@),
    {
        self.regex.is_match(haystack)
    }
}

} // verus!
