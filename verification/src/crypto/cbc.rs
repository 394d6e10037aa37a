//! Cipher block chaining over AES-256.

use crate::bytes;
use crate::crypto::aes256;
use vstd::prelude::*;
use vstd::slice::slice_subrange;

verus! {

/// Two byte strings xored byte by byte; as long as the first.
pub open spec fn xor(a: Seq<u8>, b: Seq<u8>) -> Seq<u8> {
    Seq::new(a.len(), |i: int| a[i] ^ b[i])
}

/// CBC encryption of whole blocks: each block is xored with the encrypted
/// block before it, the first one with `iv`, and then encrypted.
pub open spec fn cbc_enc(key: Seq<u8>, iv: Seq<u8>, data: Seq<u8>) -> Seq<u8>
    decreases data.len(),
{
    if data.len() < 16 {
        Seq::empty()
    } else {
        let block = aes256::aes_enc(key, xor(data.take(16), iv));
        block + cbc_enc(key, block, data.skip(16))
    }
}

/// CBC decryption of whole blocks.
pub open spec fn cbc_dec(key: Seq<u8>, iv: Seq<u8>, data: Seq<u8>) -> Seq<u8>
    decreases data.len(),
{
    if data.len() < 16 {
        Seq::empty()
    } else {
        xor(aes256::aes_dec(key, data.take(16)), iv) + cbc_dec(
            key,
            data.take(16),
            data.skip(16),
        )
    }
}

/// Xoring twice with the same byte string changes nothing.
proof fn lemma_xor_twice(a: Seq<u8>, b: Seq<u8>)
    ensures
        xor(xor(a, b), b) == a,
{
    assert forall|i: int| 0 <= i < a.len() implies xor(xor(a, b), b)[i] == a[i] by {
        let x = a[i];
        let y = b[i];
        assert((x ^ y) ^ y == x) by (bit_vector);
    }
    assert(xor(xor(a, b), b) =~= a);
}

/// CBC neither drops nor adds a byte of whole blocks.
pub proof fn lemma_cbc_len(key: Seq<u8>, iv: Seq<u8>, data: Seq<u8>)
    requires
        data.len() % 16 == 0,
    ensures
        cbc_enc(key, iv, data).len() == data.len(),
        cbc_dec(key, iv, data).len() == data.len(),
    decreases data.len(),
{
    if data.len() >= 16 {
        lemma_cbc_len(key, aes256::aes_enc(key, xor(data.take(16), iv)), data.skip(16));
        lemma_cbc_len(key, data.take(16), data.skip(16));
    }
}

/// Two blocks xored byte by byte.
fn xor_blocks(a: &[u8; 16], b: &[u8; 16]) -> (out: [u8; 16])
    ensures
        out@ == xor(a@, b@),
{
    let mut out: [u8; 16] = [0u8; 16];
    let mut i: usize = 0;
    while i < 16
        invariant
            i <= 16,
            forall|j: int| 0 <= j < i ==> out@[j] == a@[j] ^ b@[j],
        decreases 16 - i,
    {
        out[i] = a[i] ^ b[i];
        i += 1;
    }
    assert(out@ =~= xor(a@, b@));
    out
}

/// Encrypts whole blocks. What comes out decrypts to what went in.
pub fn cbc_encrypt(key: &[u8; 32], iv: &[u8; 16], data: &[u8]) -> (out: Vec<u8>)
    requires
        data@.len() % 16 == 0,
    ensures
        out@ == cbc_enc(key@, iv@, data@),
        out@.len() == data@.len(),
        cbc_dec(key@, iv@, out@) == data@,
{
    let mut out: Vec<u8> = Vec::with_capacity(data.len());
    let mut chain: [u8; 16] = *iv;
    let mut i: usize = 0;
    proof {
        assert(data@.skip(0) =~= data@);
        assert forall|t: Seq<u8>| #[trigger] cbc_dec(key@, iv@, out@ + t) == data@.take(0)
            + cbc_dec(key@, chain@, t) by {
            assert(out@ + t =~= t);
            assert(data@.take(0) + cbc_dec(key@, chain@, t) =~= cbc_dec(key@, chain@, t));
        }
    }
    while i < data.len()
        invariant
            i <= data@.len(),
            i % 16 == 0,
            data@.len() % 16 == 0,
            out@.len() == i,
            cbc_enc(key@, iv@, data@) == out@ + cbc_enc(key@, chain@, data@.skip(i as int)),
            forall|t: Seq<u8>| #[trigger]
                cbc_dec(key@, iv@, out@ + t) == data@.take(i as int) + cbc_dec(key@, chain@, t),
        decreases data@.len() - i,
    {
        let block: [u8; 16] = bytes::to_array(slice_subrange(data, i, i + 16));
        let mixed: [u8; 16] = xor_blocks(&block, &chain);
        let encrypted: [u8; 16] = aes256::encrypt_block(key, &mixed);
        let ghost before = out@;
        let ghost rest = data@.skip(i as int);
        bytes::append(&mut out, &encrypted);
        proof {
            assert(rest.take(16) =~= block@);
            assert(rest.skip(16) =~= data@.skip(i + 16));
            assert(before + (encrypted@ + cbc_enc(key@, encrypted@, rest.skip(16))) =~= out@
                + cbc_enc(key@, encrypted@, rest.skip(16)));
            lemma_xor_twice(block@, chain@);
            assert forall|t: Seq<u8>| #[trigger] cbc_dec(key@, iv@, out@ + t) == data@.take(i + 16)
                + cbc_dec(key@, encrypted@, t) by {
                let u = encrypted@ + t;
                assert(out@ + t =~= before + u);
                assert(u.take(16) =~= encrypted@);
                assert(u.skip(16) =~= t);
                assert(data@.take(i as int) + (block@ + cbc_dec(key@, encrypted@, t))
                    =~= data@.take(i + 16) + cbc_dec(key@, encrypted@, t));
            }
        }
        chain = encrypted;
        i += 16;
    }
    proof {
        assert(cbc_enc(key@, chain@, data@.skip(i as int)) =~= Seq::empty());
        assert(out@ + Seq::<u8>::empty() =~= out@);
        assert(data@.take(i as int) + cbc_dec(key@, chain@, Seq::empty()) =~= data@);
    }
    out
}

/// Decrypts whole blocks.
pub fn cbc_decrypt(key: &[u8; 32], iv: &[u8; 16], data: &[u8]) -> (out: Vec<u8>)
    requires
        data@.len() % 16 == 0,
    ensures
        out@ == cbc_dec(key@, iv@, data@),
        out@.len() == data@.len(),
        cbc_enc(key@, iv@, out@) == data@,
{
    let mut out: Vec<u8> = Vec::with_capacity(data.len());
    let mut chain: [u8; 16] = *iv;
    let mut i: usize = 0;
    proof {
        assert(data@.skip(0) =~= data@);
        assert forall|t: Seq<u8>| #[trigger] cbc_enc(key@, iv@, out@ + t) == data@.take(0)
            + cbc_enc(key@, chain@, t) by {
            assert(out@ + t =~= t);
            assert(data@.take(0) + cbc_enc(key@, chain@, t) =~= cbc_enc(key@, chain@, t));
        }
    }
    while i < data.len()
        invariant
            i <= data@.len(),
            i % 16 == 0,
            data@.len() % 16 == 0,
            out@.len() == i,
            cbc_dec(key@, iv@, data@) == out@ + cbc_dec(key@, chain@, data@.skip(i as int)),
            forall|t: Seq<u8>| #[trigger]
                cbc_enc(key@, iv@, out@ + t) == data@.take(i as int) + cbc_enc(key@, chain@, t),
        decreases data@.len() - i,
    {
        let block: [u8; 16] = bytes::to_array(slice_subrange(data, i, i + 16));
        let mixed: [u8; 16] = aes256::decrypt_block(key, &block);
        let plain: [u8; 16] = xor_blocks(&mixed, &chain);
        let ghost before = out@;
        let ghost rest = data@.skip(i as int);
        bytes::append(&mut out, &plain);
        proof {
            assert(rest.take(16) =~= block@);
            assert(rest.skip(16) =~= data@.skip(i + 16));
            assert(before + (plain@ + cbc_dec(key@, block@, rest.skip(16))) =~= out@ + cbc_dec(
                key@,
                block@,
                rest.skip(16),
            ));
            lemma_xor_twice(mixed@, chain@);
            assert forall|t: Seq<u8>| #[trigger] cbc_enc(key@, iv@, out@ + t) == data@.take(i + 16)
                + cbc_enc(key@, block@, t) by {
                let u = plain@ + t;
                assert(out@ + t =~= before + u);
                assert(u.take(16) =~= plain@);
                assert(u.skip(16) =~= t);
                assert(data@.take(i as int) + (block@ + cbc_enc(key@, block@, t)) =~= data@.take(
                    i + 16,
                ) + cbc_enc(key@, block@, t));
            }
        }
        chain = block;
        i += 16;
    }
    proof {
        assert(cbc_dec(key@, chain@, data@.skip(i as int)) =~= Seq::empty());
        assert(out@ + Seq::<u8>::empty() =~= out@);
        assert(data@.take(i as int) + cbc_enc(key@, chain@, Seq::empty()) =~= data@);
    }
    out
}

} // verus!
