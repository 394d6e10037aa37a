//! HMAC with SHA-256.

use crate::bytes;
use crate::crypto::ct_eq::ct_eq;
use crate::crypto::sha256;
use vstd::prelude::*;

verus! {

/// The size in bytes of the blocks that SHA-256 works on.
pub const BLOCK_SIZE: usize = 64;

/// The key as HMAC uses it: hashed if it is longer than a block, then filled
/// up with zeros to a block.
pub open spec fn block_key(key: Seq<u8>) -> Seq<u8> {
    let short = if key.len() > BLOCK_SIZE {
        sha256::sha256(key)
    } else {
        key
    };
    Seq::new(BLOCK_SIZE as nat, |i: int| if i < short.len() { short[i] } else { 0u8 })
}

/// A byte string with every byte xored with `pad`.
pub open spec fn padded(key: Seq<u8>, pad: u8) -> Seq<u8> {
    Seq::new(key.len(), |i: int| key[i] ^ pad)
}

/// HMAC-SHA-256 of `data` under `key`.
pub open spec fn hmac_sha256(key: Seq<u8>, data: Seq<u8>) -> Seq<u8> {
    let k = block_key(key);
    sha256::sha256(padded(k, 0x5c) + sha256::sha256(padded(k, 0x36) + data))
}

/// The block that a key is brought to.
fn fill_block(key: &[u8]) -> (block: [u8; 64])
    ensures
        block@ == block_key(key@),
{
    let mut block: [u8; 64] = [0u8; 64];
    if key.len() > BLOCK_SIZE {
        let digest: [u8; 32] = sha256::hash(key);
        let mut i: usize = 0;
        while i < 32
            invariant
                i <= 32,
                forall|j: int| 0 <= j < i ==> block@[j] == digest@[j],
                forall|j: int| i <= j < 64 ==> block@[j] == 0,
            decreases 32 - i,
        {
            block[i] = digest[i];
            i += 1;
        }
    } else {
        let mut i: usize = 0;
        while i < key.len()
            invariant
                i <= key@.len() <= 64,
                forall|j: int| 0 <= j < i ==> block@[j] == key@[j],
                forall|j: int| i <= j < 64 ==> block@[j] == 0,
            decreases key@.len() - i,
        {
            block[i] = key[i];
            i += 1;
        }
    }
    assert(block@ =~= block_key(key@));
    block
}

/// A block with every byte xored with `pad`.
fn xor_block(block: &[u8; 64], pad: u8) -> (out: Vec<u8>)
    ensures
        out@ == padded(block@, pad),
{
    let mut out: Vec<u8> = Vec::with_capacity(64);
    let mut i: usize = 0;
    while i < 64
        invariant
            i <= 64,
            out@.len() == i,
            forall|j: int| 0 <= j < i ==> out@[j] == block@[j] ^ pad,
        decreases 64 - i,
    {
        out.push(block[i] ^ pad);
        i += 1;
    }
    assert(out@ =~= padded(block@, pad));
    out
}

/// The HMAC of `contents` under `key`.
pub fn hmac_256(key: &[u8], contents: &[u8]) -> (mac: [u8; 32])
    ensures
        mac@ == hmac_sha256(key@, contents@),
{
    let block: [u8; 64] = fill_block(key);
    let mut inner: Vec<u8> = xor_block(&block, 0x36);
    bytes::append(&mut inner, contents);
    let inner_hash: [u8; 32] = sha256::hash(inner.as_slice());
    let mut outer: Vec<u8> = xor_block(&block, 0x5c);
    bytes::append(&mut outer, &inner_hash);
    sha256::hash(outer.as_slice())
}

/// Whether `mac` is the HMAC of `contents` under `key`.
pub fn verify_hmac_256(key: &[u8], contents: &[u8], mac: &[u8; 32]) -> (valid: bool)
    ensures
        valid == (hmac_sha256(key@, contents@) == mac@),
{
    let expected: [u8; 32] = hmac_256(key, contents);
    ct_eq(&expected, mac)
}

/// Whether `mac` is the first half of the HMAC of `contents` under `key`.
pub fn verify_hmac_256_first_128bits(key: &[u8], contents: &[u8], mac: &[u8; 16]) -> (valid: bool)
    ensures
        valid == (hmac_sha256(key@, contents@).take(16) == mac@),
{
    let expected: [u8; 32] = hmac_256(key, contents);
    ct_eq(vstd::slice::slice_subrange(&expected, 0, 16), mac)
}

} // verus!
