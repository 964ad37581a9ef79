//! Regular expressions.

use vstd::prelude::*;

verus! {

/// What `regex::Regex::new` has against a pattern, if anything.
pub uninterp spec fn regex_fault(pattern: Seq<char>) -> Option<Seq<char>>;

/// Whether `regex::Regex::is_match` finds a match of the pattern in a text.
pub uninterp spec fn regex_finds(pattern: Seq<char>, haystack: Seq<char>) -> bool;

/// `regex::Regex::new`, then `regex::Regex::is_match`. The claim is that whether a
/// pattern compiles, and the error's text, depend on the pattern alone, and that
/// whether there is a match depends on the pattern and the text alone.
#[verifier::external_body]
pub(crate) fn regex_match(pattern: &str, haystack: &str) -> (r: Result<bool, String>)
    ensures
        (match r {
            Ok(found) => regex_fault(pattern@) is None && found == regex_finds(
                pattern@,
                haystack@,
            ),
            Err(e) => regex_fault(pattern@) == Some(e@),
        }),
{
    regex::Regex::new(pattern).map(|re| re.is_match(haystack)).map_err(|e| e.to_string())
}

} // verus!
