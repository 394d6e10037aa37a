//! The AES-256 block cipher.

use crypto::cipher::{BlockDecrypt, BlockEncrypt, KeyInit};
use vstd::prelude::*;

verus! {

/// The size of a key in bytes.
pub const AES_KEY_SIZE: usize = 32;

/// The size of a block in bytes.
pub const AES_BLOCK_SIZE: usize = 16;

/// AES-256 encryption of one block, as `aes::Aes256` computes it.
pub uninterp spec fn aes256_cipher(key: Seq<u8>, block: Seq<u8>) -> [u8; AES_BLOCK_SIZE];

/// AES-256 decryption of one block, as `aes::Aes256` computes it.
pub uninterp spec fn aes256_inverse_cipher(key: Seq<u8>, block: Seq<u8>) -> [u8; AES_BLOCK_SIZE];

/// AES-256 encryption of one block, as a byte string.
pub open spec fn aes_enc(key: Seq<u8>, block: Seq<u8>) -> Seq<u8> {
    aes256_cipher(key, block)@
}

/// AES-256 decryption of one block, as a byte string.
pub open spec fn aes_dec(key: Seq<u8>, block: Seq<u8>) -> Seq<u8> {
    aes256_inverse_cipher(key, block)@
}

/// Calls `aes::Aes256::new` and `encrypt_block`: the encrypted block is a
/// function of key and block, and decrypting it gives the block back.
#[verifier::external_body]
pub(crate) fn encrypt_block(key: &[u8; AES_KEY_SIZE], block: &[u8; AES_BLOCK_SIZE]) -> (out: [u8; AES_BLOCK_SIZE])
    ensures
        out == aes256_cipher(key@, block@),
        aes256_inverse_cipher(key@, out@)@ == block@,
{
    let mut data = (*block).into();
    aes::Aes256::new(key.into()).encrypt_block(&mut data);
    data.into()
}

/// Calls `aes::Aes256::new` and `decrypt_block`: the decrypted block is a
/// function of key and block, and encrypting it gives the block back.
#[verifier::external_body]
pub(crate) fn decrypt_block(key: &[u8; AES_KEY_SIZE], block: &[u8; AES_BLOCK_SIZE]) -> (out: [u8; AES_BLOCK_SIZE])
    ensures
        out == aes256_inverse_cipher(key@, block@),
        aes256_cipher(key@, out@)@ == block@,
{
    let mut data = (*block).into();
    aes::Aes256::new(key.into()).decrypt_block(&mut data);
    data.into()
}

} // verus!
