//! Pattern search, done by the `regex` crate.
use vstd::prelude::*;

verus! {

/// What a search for `pattern` anywhere in `text` gives: `None` where the
/// pattern is refused, else whether a match exists.
pub uninterp spec fn pattern_found(pattern: Seq<char>, text: Seq<char>) -> Option<bool>;

/// Searches `text` for a match of `pattern`.
///
/// Trusted: compiles the pattern with `regex::Regex::new` and searches with
/// `Regex::is_match`. A refused pattern (invalid, or too large once compiled)
/// gives `None`; else the answer is whether a match exists anywhere in the
/// text. Both depend on the two texts alone; the outcome is named
/// `pattern_found` and not spelled out.
#[verifier::external_body]
pub(crate) fn search(pattern: &str, text: &str) -> (r: Option<bool>)
    ensures
        r == pattern_found(pattern@, text@),
{
    match regex::Regex::new(pattern) {
        Ok(re) => Some(re.is_match(text)),
        Err(_) => None,
    }
}

} // verus!
