//! SHA-256.

use crypto::digest::Digest;
use vstd::prelude::*;

verus! {

/// The size of a digest in bytes.
pub const HASH_SIZE: usize = 32;

/// The SHA-256 digest of `data`, as `sha2::Sha256` computes it.
pub uninterp spec fn sha256_digest(data: Seq<u8>) -> [u8; 32];

/// The SHA-256 digest of `data`, as a byte string.
pub open spec fn sha256(data: Seq<u8>) -> Seq<u8> {
    sha256_digest(data)@
}

/// Calls `sha2::Sha256::digest`: the digest is a function of the message.
#[verifier::external_body]
fn sha2_digest(data: &[u8]) -> (digest: [u8; 32])
    ensures
        digest == sha256_digest(data@),
{
    sha2::Sha256::digest(data).into()
}

/// The SHA-256 digest of a message.
pub fn hash(data: &[u8]) -> (digest: [u8; 32])
    ensures
        digest@ == sha256(data@),
{
    sha2_digest(data)
}

} // verus!
