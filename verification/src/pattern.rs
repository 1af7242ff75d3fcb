//! The pattern engine: the `regex` crate behind two trusted functions.

use regex::Regex;
use vstd::prelude::*;

verus! {

/// What `regex::Regex::new` makes of a pattern: `None` where it compiles,
/// otherwise the text of the error that it reports. The crate decides this
/// from the pattern alone.
pub uninterp spec fn regex_compile_error(pattern: Seq<char>) -> Option<Seq<char>>;

/// Whether the regex compiled from `pattern` finds a match anywhere in
/// `text`, as `regex::Regex::is_match` reports it. Meaningful only for a
/// pattern that compiles.
pub uninterp spec fn regex_is_match(pattern: Seq<char>, text: Seq<char>) -> bool;

/// Whether `pattern` compiles.
pub open spec fn compiles(pattern: Seq<char>) -> bool {
    regex_compile_error(pattern) is None
}

/// Whether a rule with the source text `pattern` fires on `text`.
pub open spec fn fires(pattern: Seq<char>, text: Seq<char>) -> bool {
    compiles(pattern) && regex_is_match(pattern, text)
}

/// Calls `regex::Regex::new` on `pattern` and drops the compiled regex.
/// Trusted: it succeeds exactly where `regex_compile_error` is `None`, and
/// the error of a pattern that does not compile comes back as the text that
/// its `Display` impl writes, which is what `regex_compile_error` names.
#[verifier::external_body]
pub(crate) fn check_pattern(pattern: &str) -> (r: Result<(), String>)
    ensures
        r is Ok <==> regex_compile_error(pattern@) is None,
        r matches Err(text) ==> regex_compile_error(pattern@) == Some(text@),
{
    match Regex::new(pattern) {
        Ok(_) => Ok(()),
        Err(e) => Err(e.to_string()),
    }
}

/// Calls `regex::Regex::is_match` on `text`, for the regex that
/// `regex::Regex::new` makes of `pattern`. Trusted: for a pattern that
/// compiles the answer is the one that `regex_is_match` names, which depends
/// on the pattern and the text alone; for one that does not compile it is
/// `false`.
#[verifier::external_body]
pub(crate) fn pattern_matches(pattern: &str, text: &str) -> (r: bool)
    ensures
        r == (regex_compile_error(pattern@) is None && regex_is_match(pattern@, text@)),
{
    match Regex::new(pattern) {
        Ok(re) => re.is_match(text),
        Err(_) => false,
    }
}

} // verus!
