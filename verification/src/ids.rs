//! Fresh identifiers, made by the `uuid` crate.
use vstd::prelude::*;

verus! {

/// Whether `c` is a hexadecimal digit in lower case.
pub open spec fn is_lower_hex(c: char) -> bool {
    ('0' <= c && c <= '9') || ('a' <= c && c <= 'f')
}

/// Whether `s` has the hyphenated form of an identifier: 36 characters, a
/// hyphen at each of the positions 8, 13, 18 and 23, and a hexadecimal digit
/// in lower case at every other position.
pub open spec fn is_hyphenated_id(s: Seq<char>) -> bool {
    &&& s.len() == 36
    &&& forall|i: int|
        0 <= i < 36 ==> if i == 8 || i == 13 || i == 18 || i == 23 {
            #[trigger] s[i] == '-'
        } else {
            is_lower_hex(s[i])
        }
}

/// A fresh random identifier, as text.
///
/// Trusted: calls `uuid::Uuid::new_v4` and writes the result with
/// `to_string`, which gives the hyphenated form in lower case. The
/// identifier is random: only its form is stated, and two calls may differ.
#[verifier::external_body]
pub(crate) fn fresh_id() -> (r: String)
    ensures
        is_hyphenated_id(r@),
{
    uuid::Uuid::new_v4().to_string()
}

} // verus!
