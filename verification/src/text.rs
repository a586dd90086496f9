//! Comparing names.

use vstd::prelude::*;

verus! {

/// Calls `==` on two string slices (`PartialEq::eq` of `str`). The contract
/// claims that the result is true exactly when the two hold the same
/// characters.
#[verifier::external_body]
pub(crate) fn same_text(a: &str, b: &str) -> (same: bool)
    ensures
        same == (a@ == b@),
{
    a == b
}

} // verus!
