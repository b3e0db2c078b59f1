//! Regular expressions, compiled and run by the `regex` crate.

use vstd::prelude::*;

verus! {

/// What `regex::Regex::new(pattern)` reports: `None` when the pattern
/// compiles, otherwise the display text of its error.
pub uninterp spec fn regex_compile_error(pattern: Seq<char>) -> Option<Seq<char>>;

/// Whether the regex compiled from `pattern` finds a match anywhere in
/// `haystack` (`regex::Regex::is_match`).
pub uninterp spec fn regex_finds_match(pattern: Seq<char>, haystack: Seq<char>) -> bool;

/// `regex::Regex::new(pattern)`, keeping only whether it compiled and, if
/// not, the error's display text.
#[verifier::external_body]
pub(crate) fn regex_compiles(pattern: &str) -> (r: Result<(), String>)
    ensures
        r is Ok <==> regex_compile_error(pattern@) is None,
        r matches Err(m) ==> regex_compile_error(pattern@) == Some(m@),
{
    match regex::Regex::new(pattern) {
        Ok(_) => Ok(()),
        Err(error) => Err(error.to_string()),
    }
}

/// `regex::Regex::new(pattern)` followed by `is_match(haystack)`: the
/// compile error's text, or whether the pattern matches.
#[verifier::external_body]
pub(crate) fn regex_search(pattern: &str, haystack: &str) -> (r: Result<bool, String>)
    ensures
        r is Ok <==> regex_compile_error(pattern@) is None,
        r matches Err(m) ==> regex_compile_error(pattern@) == Some(m@),
        r matches Ok(found) ==> found == regex_finds_match(pattern@, haystack@),
{
    match regex::Regex::new(pattern) {
        Ok(regex) => Ok(regex.is_match(haystack)),
        Err(error) => Err(error.to_string()),
    }
}

} // verus!
