//! Small helpers over `str` that the rest of the crate shares.

use vstd::prelude::*;

verus! {

/// Relies on `str`'s `==` (its `PartialEq` implementation): two string
/// slices are equal exactly when they consist of the same characters.
#[verifier::external_body]
pub(crate) fn str_eq(a: &str, b: &str) -> (r: bool)
    ensures
        r == (a@ == b@),
{
    a == b
}

} // verus!

