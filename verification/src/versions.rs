//! Version syntax, checked by the `semver` crate.
use vstd::prelude::*;

verus! {

/// Whether `text` is a semantic version, as `semver::Version::parse` reads one.
pub uninterp spec fn is_semver(text: Seq<char>) -> bool;

/// Whether `text` is a semantic version.
///
/// Trusted: calls `semver::Version::parse` and says whether it succeeded.
/// The grammar (three numeric components without leading zeros, optional
/// pre-release and build metadata, each number within 64 bits) is that of the
/// crate; the answer depends on the text alone and is named `is_semver`.
#[verifier::external_body]
pub(crate) fn parses_as_semver(text: &str) -> (r: bool)
    ensures
        r == is_semver(text@),
{
    semver::Version::parse(text).is_ok()
}

} // verus!
