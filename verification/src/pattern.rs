//! Regular-expression matching, done by the `regex` crate.
use vstd::prelude::*;

verus! {

/// Whether `regex::Regex::new` accepts `pattern`.
pub uninterp spec fn regex_accepts_pattern(pattern: Seq<char>) -> bool;

/// Whether `regex::Regex::is_match` finds a match of `pattern`, as compiled
/// by `regex::Regex::new`, anywhere in `haystack`.
pub uninterp spec fn regex_finds_match(pattern: Seq<char>, haystack: Seq<char>) -> bool;

/// Compiles `pattern` with `regex::Regex::new` and, when that succeeds,
/// searches `haystack` with `Regex::is_match`. The contract claims that the
/// outcome is `None` exactly when the crate refuses the pattern, and that the
/// answer otherwise is a function of the pattern and the haystack alone.
#[verifier::external_body]
pub(crate) fn regex_search(pattern: &str, haystack: &str) -> (r: Option<bool>)
    ensures
        r is Some <==> regex_accepts_pattern(pattern@),
        r matches Some(b) ==> b == regex_finds_match(pattern@, haystack@),
{
    match regex::Regex::new(pattern) {
        Ok(re) => Some(re.is_match(haystack)),
        Err(_) => None,
    }
}

} // verus!
