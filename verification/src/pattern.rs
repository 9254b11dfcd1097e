//! Regular expressions, through the `regex` crate.

use vstd::prelude::*;

verus! {

/// Whether `regex::Regex::new` accepts the pattern.
pub uninterp spec fn regex_compiles(pattern: Seq<char>) -> bool;

/// Whether the compiled `pattern` finds a match anywhere in `haystack` (`Regex::is_match`).
pub uninterp spec fn regex_is_match(pattern: Seq<char>, haystack: Seq<char>) -> bool;

#[verifier::external_type_specification]
#[verifier::external_body]
pub struct ExRegex(regex::Regex);

/// A regular expression compiled from the pattern that it keeps beside it.
pub struct CompiledPattern {
    re: regex::Regex,
    source: String,
}

impl CompiledPattern {
    /// The pattern that the expression was compiled from.
    pub closed spec fn pattern(&self) -> Seq<char> {
        self.source@
    }
}

/// Calls `regex::Regex::new`. The contract claims that it succeeds exactly when
/// `regex_compiles` holds of the pattern; the result keeps the pattern beside it.
#[verifier::external_body]
pub(crate) fn compile_pattern(pattern: &str) -> (r: Option<CompiledPattern>)
    ensures
        r.is_some() == regex_compiles(pattern@),
        r matches Some(p) ==> p.pattern() == pattern@,
{
    match regex::Regex::new(pattern) {
        Ok(re) => Some(CompiledPattern { re, source: pattern.to_string() }),
        Err(_) => None,
    }
}

/// Calls `regex::Regex::is_match` on the expression compiled from `p.pattern()`. The
/// contract claims that the answer is `regex_is_match` of that pattern and the haystack.
#[verifier::external_body]
pub(crate) fn pattern_is_match(p: &CompiledPattern, haystack: &str) -> (r: bool)
    ensures
        r == regex_is_match(p.pattern(), haystack@),
{
    p.re.is_match(haystack)
}

/// The pattern compiles and finds a match in `text`.
pub open spec fn rule_hit(pattern: Seq<char>, text: Seq<char>) -> bool {
    regex_compiles(pattern) && regex_is_match(pattern, text)
}

/// Compiles `pattern` and tests it against `text`; a pattern that does not compile
/// finds nothing.
pub fn pattern_hit(pattern: &str, text: &str) -> (r: bool)
    ensures
        r == rule_hit(pattern@, text@),
{
    match compile_pattern(pattern) {
        Some(p) => pattern_is_match(&p, text),
        None => false,
    }
}

} // verus!
