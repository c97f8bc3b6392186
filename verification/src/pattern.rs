//! Case-insensitive host patterns, delegated to the `regex` crate.

use vstd::prelude::*;

verus! {

#[verifier::external_type_specification]
#[verifier::external_body]
pub struct ExRegex(regex::Regex);

/// A regular expression compiled case-insensitively, with its source text.
pub struct CaseInsensitiveRegex {
    source: String,
    compiled: regex::Regex,
}

impl View for CaseInsensitiveRegex {
    type V = Seq<char>;

    closed spec fn view(&self) -> Seq<char> {
        self.source@
    }
}

/// Whether `regex::RegexBuilder` with `case_insensitive(true)` builds a regex from the pattern.
pub uninterp spec fn regex_ci_builds(pattern: Seq<char>) -> bool;

/// What `regex::Regex::is_match` answers for the case-insensitive regex of
/// `pattern` on `haystack`.
pub uninterp spec fn regex_ci_is_match(pattern: Seq<char>, haystack: Seq<char>) -> bool;

/// Compiles `pattern` with `regex::RegexBuilder::new(..).case_insensitive(true).build()`.
/// Whether it compiles is left to the name `regex_ci_builds`.
#[verifier::external_body]
pub(crate) fn build_case_insensitive(pattern: &str) -> (r: Option<CaseInsensitiveRegex>)
    ensures
        r is Some <==> regex_ci_builds(pattern@),
        r matches Some(re) ==> re@ == pattern@,
{
    match regex::RegexBuilder::new(pattern).case_insensitive(true).build() {
        Ok(compiled) => Some(CaseInsensitiveRegex { source: pattern.to_string(), compiled }),
        Err(_) => None,
    }
}

/// `regex::Regex::is_match`: whether the regex matches somewhere in `haystack`.
/// The regex semantics are left to the name `regex_ci_is_match`.
#[verifier::external_body]
pub(crate) fn regex_is_match(re: &CaseInsensitiveRegex, haystack: &str) -> (r: bool)
    ensures
        r == regex_ci_is_match(re@, haystack@),
{
    re.compiled.is_match(haystack)
}

/// A host pattern matches a host when it compiles and the compiled regex
/// matches the host; a pattern that does not compile matches nothing.
pub open spec fn host_pattern_matches(pattern: Seq<char>, host: Seq<char>) -> bool {
    regex_ci_builds(pattern) && regex_ci_is_match(pattern, host)
}

} // verus!
