//! Small string operations of `str` with their contracts.
use vstd::prelude::*;

verus! {

/// The text of an optional string.
pub open spec fn opt_view(o: Option<String>) -> Option<Seq<char>> {
    match o {
        Some(s) => Some(s@),
        None => None,
    }
}

/// Calls `<str as PartialEq>::eq`, which is true exactly when both strings hold the
/// same characters in the same order. It compares in one pass over the bytes; a loop
/// over `get_char` would walk each string from its start for every character, and the
/// strings compared here include whole image data URLs.
#[verifier::external_body]
pub(crate) fn str_eq(a: &str, b: &str) -> (r: bool)
    ensures
        r == (a@ == b@),
{
    a == b
}

} // verus!
