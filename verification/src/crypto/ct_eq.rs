//! Comparison of secrets.

use subtle::ConstantTimeEq;
use vstd::prelude::*;

verus! {

/// Calls `subtle::ConstantTimeEq::ct_eq` on two byte slices: true exactly when
/// they have the same length and the same bytes. That the running time does
/// not depend on the bytes is not part of the contract.
#[verifier::external_body]
pub(crate) fn ct_eq(a: &[u8], b: &[u8]) -> (same: bool)
    ensures
        same == (a@ == b@),
{
    a.ct_eq(b).into()
}

} // verus!
