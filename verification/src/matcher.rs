//! Regular-expression matching through the `regex` crate.
//!
//! The crate compiles and runs the patterns; the library only records which
//! pattern a compiled matcher came from, so that contracts can speak of the
//! crate's answers by name.

use vstd::prelude::*;
use regex::Regex;
use crate::text::opt_view;

verus! {

/// `regex::Regex`, held opaque.
#[verifier::external_type_specification]
#[verifier::external_body]
pub struct ExRegex(Regex);

/// Whether `regex::Regex::new` accepts `pattern`.
pub uninterp spec fn regex_valid(pattern: Seq<char>) -> bool;

/// Whether the regex `pattern` matches somewhere in `text` (`Regex::is_match`).
pub uninterp spec fn regex_matches(pattern: Seq<char>, text: Seq<char>) -> bool;

/// The text of capture group 1 in the first match of `pattern` in `text`
/// (`Regex::captures`, then `Captures::get(1)`), if there is a match and the
/// group took part in it.
pub uninterp spec fn regex_first_group(pattern: Seq<char>, text: Seq<char>) -> Option<Seq<char>>;

/// A regex compiled by the `regex` crate, together with the pattern it was
/// compiled from.
pub struct CompiledRegex {
    source: String,
    re: Regex,
}

impl CompiledRegex {
    /// The pattern this matcher was compiled from.
    pub closed spec fn source(&self) -> Seq<char> {
        self.source@
    }
}

/// `regex::Regex::new`. The contract claims only that a matcher comes back
/// exactly when the crate accepts the pattern, and that it remembers the
/// pattern it was built from.
#[verifier::external_body]
pub(crate) fn compile_regex(pattern: &str) -> (r: Option<CompiledRegex>)
    ensures
        r is Some <==> regex_valid(pattern@),
        r matches Some(c) ==> c.source() == pattern@,
{
    match Regex::new(pattern) {
        Ok(re) => Some(CompiledRegex { source: pattern.to_string(), re }),
        Err(_) => None,
    }
}

/// `regex::Regex::is_match`. The contract names the crate's answer for the
/// matcher's pattern and the haystack; what the answer is is not stated.
#[verifier::external_body]
pub(crate) fn regex_is_match(re: &CompiledRegex, text: &str) -> (b: bool)
    ensures
        b == regex_matches(re.source(), text@),
{
    re.re.is_match(text)
}

/// `regex::Regex::captures` followed by `Captures::get(1)`. The contract names
/// the crate's answer for the matcher's pattern and the haystack.
#[verifier::external_body]
pub(crate) fn regex_capture_group1(re: &CompiledRegex, text: &str) -> (r: Option<String>)
    ensures
        opt_view(r) == regex_first_group(re.source(), text@),
{
    re.re.captures(text).and_then(|c| c.get(1)).map(|m| m.as_str().to_string())
}

} // verus!
