//! HKDF with SHA-256, for one block of output.

use crate::crypto::hmac;
use vstd::prelude::*;

verus! {

/// HKDF-SHA-256 with 32 bytes of output: HMAC of the info and a
/// one, under the HMAC of the input under the salt.
pub open spec fn hkdf_sha256(ikm: Seq<u8>, salt: Seq<u8>, info: Seq<u8>) -> Seq<u8> {
    hmac::hmac_sha256(hmac::hmac_sha256(salt, ikm), info.push(1))
}

/// Derives 32 bytes.
pub fn hkdf_256(ikm: &[u8], salt: &[u8; 32], info: &[u8], okm: &mut [u8; 32])
    ensures
        final(okm)@ == hkdf_sha256(ikm@, salt@, info@),
{
    let prk: [u8; 32] = hmac::hmac_256(salt, ikm);
    let mut contents: Vec<u8> = vstd::slice::slice_to_vec(info);
    contents.push(1);
    *okm = hmac::hmac_256(&prk, contents.as_slice());
}

} // verus!
