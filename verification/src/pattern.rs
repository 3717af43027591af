//! Replacement by regular expression, done by the `regex` crate.

use regex::Regex;
use vstd::prelude::*;

verus! {

/// What `regex::Regex::replace_all` returns on `haystack` and `replacement`
/// for the expression that `regex::Regex::new` compiles from `pattern`:
/// the haystack with every non-overlapping match replaced, `$name` in the
/// replacement standing for the capture group of that name. `None` where
/// `Regex::new` refuses `pattern`.
pub uninterp spec fn regex_replace_all(
    pattern: Seq<char>,
    haystack: Seq<char>,
    replacement: Seq<char>,
) -> Option<Seq<char>>;

/// Compiles `pattern` with `regex::Regex::new` and runs
/// `regex::Regex::replace_all` on `haystack`. Nothing is claimed of the
/// result but that it is the one `regex_replace_all` names: the same three
/// texts always give the same outcome.
#[verifier::external_body]
pub(crate) fn replace_matches(pattern: &str, haystack: &str, replacement: &str) -> (out: Option<
    String,
>)
    ensures
        match out {
            Some(text) => regex_replace_all(pattern@, haystack@, replacement@) == Some(text@),
            None => regex_replace_all(pattern@, haystack@, replacement@) is None,
        },
{
    match Regex::new(pattern) {
        Ok(expression) => Some(expression.replace_all(haystack, replacement).into_owned()),
        Err(_) => None,
    }
}

} // verus!
