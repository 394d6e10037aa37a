//! The extendable output functions SHAKE128 and SHAKE256.

use digest::{ExtendableOutput, Input, XofReader};
use vstd::prelude::*;

verus! {

/// The first `len` bytes that SHAKE128 puts out for `data`, as
/// `sha3::Shake128` computes them.
pub uninterp spec fn shake128_output(data: Seq<u8>, len: nat) -> Seq<u8>;

/// The first `len` bytes that SHAKE256 puts out for `data`, as
/// `sha3::Shake256` computes them.
pub uninterp spec fn shake256_output(data: Seq<u8>, len: nat) -> Seq<u8>;

/// Calls `sha3::Shake128` on `data` and reads as many bytes as `out` has: they
/// are a function of the data and of their number.
#[verifier::external_body]
pub(crate) fn shake128<const N: usize>(data: &[u8], out: &mut [u8; N])
    ensures
        final(out)@ == shake128_output(data@, N as nat),
{
    let mut hasher = sha3::Shake128::default();
    hasher.process(data);
    hasher.xof_result().read(&mut out[..]);
}

/// Calls `sha3::Shake256` on `data` and reads as many bytes as `out` has: they
/// are a function of the data and of their number.
#[verifier::external_body]
pub(crate) fn shake256<const N: usize>(data: &[u8], out: &mut [u8; N])
    ensures
        final(out)@ == shake256_output(data@, N as nat),
{
    let mut hasher = sha3::Shake256::default();
    hasher.process(data);
    hasher.xof_result().read(&mut out[..]);
}

} // verus!
