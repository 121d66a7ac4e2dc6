//! Small string helpers shared across the crate.

use vstd::prelude::*;

verus! {

/// Relies on `str`'s `PartialEq`: slices are equal exactly when their
/// character sequences are.
#[verifier::external_body]
pub(crate) fn str_eq(a: &str, b: &str) -> (r: bool)
    ensures
        r == (a@ == b@),
{
    a == b
}

} // verus!
