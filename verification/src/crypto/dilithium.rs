//! The signature scheme Dilithium.

use crate::bytes;
use crate::crypto::shake;
use vstd::prelude::*;
use vstd::slice::{slice_subrange, slice_to_vec};

verus! {

/// The size of the seed that a key pair is made from.
pub const SEED_SIZE: usize = 32;

/// The modulus of the coefficients.
pub const MODULUS: u32 = 8380417;

/// How many coefficients a polynomial has.
pub const COEFFICIENTS: usize = 256;

/// The size of a public key.
pub const DILITHIUM_PUB_SIZE: usize = 1472;

/// The size of a secret key.
pub const DILITHIUM_SEC_SIZE: usize = 3504;

/// The size of a signature.
pub const DILITHIUM_SIG_SIZE: usize = 2701;

/// The key pair that `dilithium::sign::keypair` makes from a seed: the public
/// and the secret key.
pub uninterp spec fn dilithium_keypair(seed: Seq<u8>) -> ([u8; DILITHIUM_PUB_SIZE], [u8; DILITHIUM_SEC_SIZE]);

/// The signature that `dilithium::sign::sign` makes of a message.
pub uninterp spec fn dilithium_sign(secret: Seq<u8>, message: Seq<u8>) -> [u8; DILITHIUM_SIG_SIZE];

/// Whether `dilithium::sign::verify` accepts a signature of a message.
pub uninterp spec fn dilithium_verify(
    public: Seq<u8>,
    message: Seq<u8>,
    signature: Seq<u8>,
) -> bool;

/// The public key that belongs to a seed.
pub open spec fn public_key(seed: Seq<u8>) -> Seq<u8> {
    dilithium_keypair(seed).0@
}

/// How many numbers of three bytes, least significant byte first and without
/// their highest bit, are below the modulus.
pub open spec fn accepted_candidates(bytes: Seq<u8>) -> nat
    decreases bytes.len(),
{
    if bytes.len() < 3 {
        0
    } else {
        let candidate = bytes[0] + 0x100 * bytes[1] + 0x1_0000 * (bytes[2] % 0x80);
        accepted_candidates(bytes.skip(3)) + if candidate < MODULUS {
            1nat
        } else {
            0nat
        }
    }
}

/// How many halves of bytes are at most twice the bound for short coefficients.
pub open spec fn accepted_nibbles(bytes: Seq<u8>) -> nat
    decreases bytes.len(),
{
    if bytes.len() == 0 {
        0
    } else {
        accepted_nibbles(bytes.skip(1)) + (if bytes[0] % 16 <= 10 {
            1nat
        } else {
            0nat
        }) + (if bytes[0] / 16 <= 10 {
            1nat
        } else {
            0nat
        })
    }
}

/// How many coefficients an entry of the matrix finds among the 280 candidates
/// that it is expanded from.
pub open spec fn matrix_entry(rho: Seq<u8>, i: int, j: int) -> nat {
    accepted_candidates(shake::shake128_output(rho.push((i + 16 * j) as u8), 840))
}

/// How many coefficients a short polynomial finds among the 544 halves of bytes
/// that it is expanded from.
pub open spec fn short_polynomial(rho_prime: Seq<u8>, nonce: int) -> nat {
    accepted_nibbles(shake::shake256_output(rho_prime.push(nonce as u8), 272))
}

/// Whether a key pair can be expanded from a seed: whether each of the 20
/// entries of the matrix, and each of the 9 short polynomials, finds its 256
/// coefficients. Fewer than one in 2^80 seeds cannot be expanded.
pub open spec fn expands(seed: Seq<u8>) -> bool {
    let expanded = shake::shake256_output(seed, 96);
    &&& forall|i: int, j: int|
        0 <= i < 5 && 0 <= j < 4 ==> #[trigger] matrix_entry(expanded.take(32), i, j)
            >= COEFFICIENTS
    &&& forall|nonce: int|
        0 <= nonce < 9 ==> #[trigger] short_polynomial(expanded.subrange(32, 64), nonce)
            >= COEFFICIENTS
}

/// Whether a public key belongs to a seed.
pub open spec fn is_public_key(public: Seq<u8>) -> bool {
    exists|seed: Seq<u8>|
        seed.len() == SEED_SIZE && expands(seed) && public == (#[trigger] dilithium_keypair(
            seed,
        )).0@
}

/// Whether a secret key belongs to a seed.
pub open spec fn is_secret_key(secret: Seq<u8>) -> bool {
    exists|seed: Seq<u8>|
        seed.len() == SEED_SIZE && expands(seed) && secret == (#[trigger] dilithium_keypair(
            seed,
        )).1@
}

/// The signature of a message with the key that belongs to a seed.
pub open spec fn signature(seed: Seq<u8>, message: Seq<u8>) -> Seq<u8> {
    dilithium_sign(dilithium_keypair(seed).1@, message)@
}

/// Whether the counts of hints in a signature stay within it. They are the last
/// five bytes of the section of hints, which has 101.
pub open spec fn hints_in_range(signature: Seq<u8>) -> bool {
    forall|i: int| 2656 <= i < 2661 ==> #[trigger] signature[i] <= 101
}

/// How many candidates in a row of numbers of three bytes are accepted.
pub fn count_candidates(bytes: &[u8; 840]) -> (count: usize)
    ensures
        count == accepted_candidates(bytes@),
        count <= 280,
{
    let mut count: usize = 0;
    let mut pos: usize = 0;
    assert(bytes@.skip(0) =~= bytes@);
    while pos < 840
        invariant
            pos % 3 == 0,
            pos <= 840,
            3 * count <= pos,
            count + accepted_candidates(bytes@.skip(pos as int)) == accepted_candidates(bytes@),
        decreases 840 - pos,
    {
        let ghost rest = bytes@.skip(pos as int);
        let candidate: u32 = bytes[pos] as u32 + 0x100 * bytes[pos + 1] as u32 + 0x1_0000 * (
        bytes[pos + 2] % 0x80) as u32;
        if candidate < MODULUS {
            count += 1;
        }
        assert(rest.skip(3) =~= bytes@.skip(pos + 3));
        pos += 3;
    }
    count
}

/// How many halves of bytes are accepted.
pub fn count_nibbles(bytes: &[u8; 272]) -> (count: usize)
    ensures
        count == accepted_nibbles(bytes@),
        count <= 544,
{
    let mut count: usize = 0;
    let mut pos: usize = 0;
    assert(bytes@.skip(0) =~= bytes@);
    while pos < 272
        invariant
            pos <= 272,
            count <= 2 * pos,
            count + accepted_nibbles(bytes@.skip(pos as int)) == accepted_nibbles(bytes@),
        decreases 272 - pos,
    {
        let ghost rest = bytes@.skip(pos as int);
        if bytes[pos] % 16 <= 10 {
            count += 1;
        }
        if bytes[pos] / 16 <= 10 {
            count += 1;
        }
        assert(rest.skip(1) =~= bytes@.skip(pos + 1));
        pos += 1;
    }
    count
}

/// How many coefficients an entry of the matrix finds.
pub fn count_matrix_entry(rho: &[u8; 32], i: u8, j: u8) -> (count: usize)
    requires
        i < 5,
        j < 4,
    ensures
        count == matrix_entry(rho@, i as int, j as int),
{
    let mut data: Vec<u8> = slice_to_vec(rho);
    data.push(i + 16 * j);
    let mut output: [u8; 840] = [0u8; 840];
    shake::shake128(data.as_slice(), &mut output);
    assert(data@ =~= rho@.push((i + 16 * j) as u8));
    count_candidates(&output)
}

/// How many coefficients a short polynomial finds.
pub fn count_short_polynomial(rho_prime: &[u8; 32], nonce: u8) -> (count: usize)
    ensures
        count == short_polynomial(rho_prime@, nonce as int),
{
    let mut data: Vec<u8> = slice_to_vec(rho_prime);
    data.push(nonce);
    let mut output: [u8; 272] = [0u8; 272];
    shake::shake256(data.as_slice(), &mut output);
    assert(data@ =~= rho_prime@.push(nonce));
    count_nibbles(&output)
}

/// Whether a key pair can be expanded from a seed.
pub fn seed_expands(seed: &[u8; SEED_SIZE]) -> (fits: bool)
    ensures
        fits == expands(seed@),
{
    let mut expanded: [u8; 96] = [0u8; 96];
    shake::shake256(seed, &mut expanded);
    let rho: [u8; 32] = bytes::to_array(slice_subrange(&expanded, 0, 32));
    let rho_prime: [u8; 32] = bytes::to_array(slice_subrange(&expanded, 32, 64));
    assert(rho@ =~= expanded@.take(32));
    assert(rho_prime@ =~= expanded@.subrange(32, 64));
    let mut i: u8 = 0;
    while i < 5
        invariant
            i <= 5,
            rho@ == shake::shake256_output(seed@, 96).take(32),
            forall|k: int, j: int|
                0 <= k < i && 0 <= j < 4 ==> #[trigger] matrix_entry(rho@, k, j) >= COEFFICIENTS,
        decreases 5 - i,
    {
        let mut j: u8 = 0;
        while j < 4
            invariant
                i < 5,
                j <= 4,
                rho@ == shake::shake256_output(seed@, 96).take(32),
                forall|l: int|
                    0 <= l < j ==> #[trigger] matrix_entry(rho@, i as int, l) >= COEFFICIENTS,
            decreases 4 - j,
        {
            if count_matrix_entry(&rho, i, j) < COEFFICIENTS {
                return false;
            }
            j += 1;
        }
        i += 1;
    }
    let mut nonce: u8 = 0;
    while nonce < 9
        invariant
            nonce <= 9,
            rho_prime@ == shake::shake256_output(seed@, 96).subrange(32, 64),
            forall|k: int|
                0 <= k < nonce ==> #[trigger] short_polynomial(rho_prime@, k) >= COEFFICIENTS,
        decreases 9 - nonce,
    {
        if count_short_polynomial(&rho_prime, nonce) < COEFFICIENTS {
            return false;
        }
        nonce += 1;
    }
    true
}

/// Calls `dilithium::sign::keypair` with a generator that yields the seed: the
/// pair is a function of the seed. The call panics where the expansion of the
/// seed runs out of candidates, so the seed has to expand.
#[verifier::external_body]
pub(crate) fn keypair(seed: &[u8; SEED_SIZE]) -> (pair: ([u8; DILITHIUM_PUB_SIZE], [u8; DILITHIUM_SEC_SIZE]))
    requires
        expands(seed@),
    ensures
        pair == dilithium_keypair(seed@),
{
    let mut public = [0u8; DILITHIUM_PUB_SIZE];
    let mut secret = [0u8; DILITHIUM_SEC_SIZE];
    let mut rng = rand::read::ReadRng::new(&seed[..]);
    dilithium::sign::keypair(&mut rng, &mut public, &mut secret);
    (public, secret)
}

/// Calls `dilithium::sign::sign` with a secret key that belongs to a seed: the
/// signature is a function of key and message. Its counts of hints stay within
/// it, and the public key of the same pair accepts it.
#[verifier::external_body]
pub(crate) fn sign(secret: &[u8; DILITHIUM_SEC_SIZE], message: &[u8]) -> (sig: [u8; DILITHIUM_SIG_SIZE])
    requires
        is_secret_key(secret@),
    ensures
        sig == dilithium_sign(secret@, message@),
        hints_in_range(sig@),
        forall|seed: Seq<u8>|
            seed.len() == SEED_SIZE && expands(seed) && secret@ == (#[trigger] dilithium_keypair(
                seed,
            )).1@
                ==> dilithium_verify(dilithium_keypair(seed).0@, message@, sig@),
{
    let mut sig = [0u8; DILITHIUM_SIG_SIZE];
    dilithium::sign::sign(&mut sig, message, secret);
    sig
}

/// Calls `dilithium::sign::verify` with a public key that belongs to a seed:
/// the answer is a function of the key, the message and the signature. It reads
/// as many hints as the signature counts, so the counts have to stay within it.
#[verifier::external_body]
pub(crate) fn verify(public: &[u8; DILITHIUM_PUB_SIZE], message: &[u8], sig: &[u8; DILITHIUM_SIG_SIZE]) -> (valid: bool)
    requires
        is_public_key(public@),
        hints_in_range(sig@),
    ensures
        valid == dilithium_verify(public@, message@, sig@),
{
    dilithium::sign::verify(message, sig, public)
}

} // verus!
