//! What the cryptography is for.

use crate::bytes;
use crate::crypto::aes256;
use crate::crypto::cbc;
use crate::crypto::dilithium;
use crate::crypto::ecdh;
use crate::crypto::ecdsa;
use crate::crypto::hkdf;
use crate::crypto::hmac;
use crate::crypto::hybrid;
use crate::crypto::p256;
use crate::crypto::sha256;
use crate::crypto::shake;
use crate::crypto::software_crypto;
use crate::crypto::software_crypto::{
    SoftwareHybridPublicKey, SoftwareHybridSecretKey, SoftwareHybridSignature,
};
use vstd::prelude::*;

verus! {

/// A hybrid signature is accepted only where both of its parts are: the ECDSA
/// part for the labelled message, and the Dilithium part for the labelled
/// message followed by the ECDSA part.
pub proof fn law_both_parts_have_to_be_accepted(
    public: SoftwareHybridPublicKey,
    message: Seq<u8>,
    signature: SoftwareHybridSignature,
)
    ensures
        hybrid::PublicKey::accepts(&public, message, signature) <==> {
            let label = software_crypto::LABEL@;
            let (x, y) = hybrid::PublicKey::ecdsa_coordinates(&public);
            let (r, s) = signature.ecdsa_part();
            &&& p256::p256_verify(x, y, sha256::sha256(label + message), r, s)
            &&& dilithium::dilithium_verify(
                hybrid::PublicKey::dilithium_bytes(&public),
                label + message + ecdsa::der_signature((r, s)),
                signature.dilithium_part(),
            )
        },
        hybrid::Signature::der(signature) == ecdsa::der_signature(signature.ecdsa_part())
            + signature.dilithium_part(),
        software_crypto::LABEL@ == seq![
            43u8, 253, 32, 250, 19, 51, 24, 237, 138, 49, 47, 182, 4, 194, 133, 183, 177, 218, 115,
            58, 92, 117, 45, 172, 156, 5, 214, 176, 248, 103, 55, 216,
        ],
{
}

/// The bytes of a hybrid key are those of its two keys: a scalar, and a seed.
/// The verifying key is made of the two that belong to them.
pub proof fn law_both_keys_belong(key: SoftwareHybridSecretKey, public: SoftwareHybridPublicKey)
    ensures
        ({
            let bytes = hybrid::SecretKey::key_bytes(&key);
            let point = p256::p256_public_point(bytes.take(32))@;
            hybrid::SecretKey::owns(&key, public) <==> {
                let (x, y) = hybrid::PublicKey::ecdsa_coordinates(&public);
                &&& x == point.take(32)
                &&& y == point.skip(32)
                &&& hybrid::PublicKey::dilithium_bytes(&public) == dilithium::dilithium_keypair(
                    bytes.skip(32),
                ).0@
            }
        }),
        forall|bytes: Seq<u8>| #[trigger]
            <SoftwareHybridSecretKey as hybrid::SecretKey>::is_key(bytes) <==> bytes.len() == 64
                && 0 < bytes::be_nat(bytes.take(32))
                < 0xffffffff00000000ffffffffffffffffbce6faada7179e84f3b9cac2fc632551nat,
{
}

/// The number that three bytes of an expansion spell, least significant byte
/// first, without the highest bit.
pub open spec fn candidate(data: Seq<u8>, i: int) -> int {
    data[3 * i] + 0x100 * data[3 * i + 1] + 0x1_0000 * (data[3 * i + 2] % 0x80)
}

/// The half of a byte of an expansion with a number, the lower half first.
pub open spec fn nibble(data: Seq<u8>, i: int) -> int {
    if i % 2 == 0 {
        data[i / 2] as int % 16
    } else {
        data[i / 2] as int / 16
    }
}

/// The candidates for coefficients are those below the modulus.
pub proof fn law_candidates_are_below_the_modulus(data: Seq<u8>)
    ensures
        dilithium::accepted_candidates(data) == Seq::new(
            data.len() / 3,
            |i: int| candidate(data, i),
        ).filter(|c: int| c < 8380417).len(),
    decreases data.len(),
{
    let fits = |c: int| c < 8380417;
    let all = Seq::new(data.len() / 3, |i: int| candidate(data, i));
    reveal(Seq::filter);
    if data.len() >= 3 {
        let rest = data.skip(3);
        let others = Seq::new(rest.len() / 3, |i: int| candidate(rest, i));
        law_candidates_are_below_the_modulus(rest);
        let first = seq![candidate(data, 0)];
        assert(all =~= first + others) by {
            assert forall|i: int| 0 < i < all.len() implies #[trigger] all[i] == others[i - 1] by {
                assert(rest[3 * (i - 1)] == data[3 * i]);
                assert(rest[3 * (i - 1) + 1] == data[3 * i + 1]);
                assert(rest[3 * (i - 1) + 2] == data[3 * i + 2]);
            }
        }
        Seq::filter_distributes_over_add(first, others, fits);
        assert(first.drop_last() =~= Seq::<int>::empty());
        assert(first.drop_last().filter(fits).len() == 0);
        assert(first.filter(fits).len() == if fits(candidate(data, 0)) {
            1nat
        } else {
            0nat
        });
    }
}

/// The candidates for short coefficients are those up to ten.
pub proof fn law_short_candidates_are_up_to_ten(data: Seq<u8>)
    ensures
        dilithium::accepted_nibbles(data) == Seq::new(
            2 * data.len(),
            |i: int| nibble(data, i),
        ).filter(|c: int| c <= 10).len(),
    decreases data.len(),
{
    let fits = |c: int| c <= 10;
    let all = Seq::new(2 * data.len(), |i: int| nibble(data, i));
    reveal(Seq::filter);
    if data.len() > 0 {
        let rest = data.skip(1);
        let others = Seq::new(2 * rest.len(), |i: int| nibble(rest, i));
        law_short_candidates_are_up_to_ten(rest);
        let low = seq![nibble(data, 0)];
        let high = seq![nibble(data, 1)];
        assert(all =~= low + (high + others)) by {
            assert forall|i: int| 2 <= i < all.len() implies #[trigger] all[i] == others[i - 2] by {
                assert(rest[(i - 2) / 2] == data[i / 2]);
            }
        }
        Seq::filter_distributes_over_add(low, high + others, fits);
        Seq::filter_distributes_over_add(high, others, fits);
        assert(low.drop_last() =~= Seq::<int>::empty());
        assert(high.drop_last() =~= Seq::<int>::empty());
        assert(Seq::<int>::empty().filter(fits).len() == 0);
        assert(low.filter(fits).len() == if fits(nibble(data, 0)) {
            1nat
        } else {
            0nat
        });
        assert(high.filter(fits).len() == if fits(nibble(data, 1)) {
            1nat
        } else {
            0nat
        });
    }
}

/// A hybrid key can be used exactly if each of the twenty entries of the matrix
/// and each of the nine short polynomials finds 256 coefficients in its own
/// expansion of the seed. It signs what its ECDSA key signs.
pub proof fn law_usable_keys_expand(key: SoftwareHybridSecretKey, message: Seq<u8>)
    ensures
        ({
            let bytes = hybrid::SecretKey::key_bytes(&key);
            let expanded = shake::shake256_output(bytes.skip(32), 96);
            hybrid::SecretKey::usable(&key) <==> {
                &&& forall|i: int, j: int|
                    #![trigger expanded.take(32).push((i + 16 * j) as u8)]
                    0 <= i < 5 && 0 <= j < 4 ==> dilithium::accepted_candidates(
                        shake::shake128_output(expanded.take(32).push((i + 16 * j) as u8), 840),
                    ) >= 256
                &&& forall|n: int|
                    #![trigger expanded.subrange(32, 64).push(n as u8)]
                    0 <= n < 9 ==> dilithium::accepted_nibbles(
                        shake::shake256_output(expanded.subrange(32, 64).push(n as u8), 272),
                    ) >= 256
            }
        }),
        hybrid::SecretKey::signs(&key, message) <==> p256::p256_sign(
            hybrid::SecretKey::key_bytes(&key).take(32),
            sha256::sha256(software_crypto::LABEL@ + message),
        ) is Some,
{
    let expanded = shake::shake256_output(hybrid::SecretKey::key_bytes(&key).skip(32), 96);
    let rho = expanded.take(32);
    let rho_prime = expanded.subrange(32, 64);
    assert(forall|i: int, j: int| #[trigger]
        dilithium::matrix_entry(rho, i, j) == dilithium::accepted_candidates(
            shake::shake128_output(rho.push((i + 16 * j) as u8), 840),
        ));
    if hybrid::SecretKey::usable(&key) {
        assert forall|i: int, j: int|
            #![trigger rho.push((i + 16 * j) as u8)]
            0 <= i < 5 && 0 <= j < 4 implies dilithium::accepted_candidates(
            shake::shake128_output(rho.push((i + 16 * j) as u8), 840),
        ) >= 256 by {
            assert(dilithium::matrix_entry(rho, i, j) >= 256);
        }
        assert forall|n: int| #![trigger rho_prime.push(n as u8)] 0 <= n < 9 implies
            dilithium::accepted_nibbles(
            shake::shake256_output(rho_prime.push(n as u8), 272),
        ) >= 256 by {
            assert(dilithium::short_polynomial(rho_prime, n) >= 256);
        }
    }
}

/// A signature is that of the hash of the message; so is what is accepted.
pub proof fn law_hashes_are_signed(
    secret: Seq<u8>,
    public: (Seq<u8>, Seq<u8>),
    message: Seq<u8>,
    halves: (Seq<u8>, Seq<u8>),
)
    ensures
        match p256::p256_sign(secret, sha256::sha256(message)) {
            Some(rs) => ecdsa::signature(secret, message) matches Some(signature)
                && signature.0.len() == 32 && signature.1.len() == 32 && signature.0 + signature.1
                == rs@,
            None => ecdsa::signature(secret, message) is None,
        },
        ecdsa::accepts(public, message, halves) == p256::p256_verify(
            public.0,
            public.1,
            sha256::sha256(message),
            halves.0,
            halves.1,
        ),
{
}

/// A public key is the point that belongs to the secret key; two keys agree on
/// the hash of the coordinate that they share.
pub proof fn law_keys_agree_on_a_hash(secret: Seq<u8>, public: (Seq<u8>, Seq<u8>))
    ensures
        ecdsa::public_key(secret).0.len() == 32,
        ecdsa::public_key(secret).1.len() == 32,
        ecdsa::public_key(secret).0 + ecdsa::public_key(secret).1 == p256::p256_public_point(
            secret,
        )@,
        ecdh::shared_secret(secret, public) == sha256::sha256(
            p256::p256_shared_x(secret, public.0, public.1)@,
        ),
{
}

/// HMAC is a hash of a hash, each of them behind a block that is made from the
/// key and nothing else. Of a key that is longer than a block, the hash counts.
pub proof fn law_mac_is_a_hash_of_a_hash(
    key: Seq<u8>,
    data: Seq<u8>,
    inner: Seq<u8>,
    outer: Seq<u8>,
)
    requires
        inner.len() == 64,
        outer.len() == 64,
        forall|i: int| 0 <= i < 64 && i < key.len() ==> #[trigger] inner[i] == key[i] ^ 0x36,
        forall|i: int| 0 <= i < 64 && i < key.len() ==> #[trigger] outer[i] == key[i] ^ 0x5c,
        forall|i: int| key.len() <= i < 64 ==> #[trigger] inner[i] == 0x36,
        forall|i: int| key.len() <= i < 64 ==> #[trigger] outer[i] == 0x5c,
    ensures
        key.len() <= 64 ==> hmac::hmac_sha256(key, data) == sha256::sha256(
            outer + sha256::sha256(inner + data),
        ),
        key.len() > 64 ==> hmac::hmac_sha256(key, data) == hmac::hmac_sha256(
            sha256::sha256(key),
            data,
        ),
        hmac::hmac_sha256(key, data).len() == 32,
{
    assert(0u8 ^ 0x36u8 == 0x36u8) by (bit_vector);
    assert(0u8 ^ 0x5cu8 == 0x5cu8) by (bit_vector);
    if key.len() <= 64 {
        assert(hmac::padded(hmac::block_key(key), 0x36) =~= inner);
        assert(hmac::padded(hmac::block_key(key), 0x5c) =~= outer);
    } else {
        assert(hmac::block_key(key) =~= hmac::block_key(sha256::sha256(key)));
    }
}

/// What is derived is the HMAC of the info and a one, under the HMAC of the
/// input under the salt.
pub proof fn law_derived_keys_are_macs(input: Seq<u8>, salt: Seq<u8>, info: Seq<u8>)
    ensures
        hkdf::hkdf_sha256(input, salt, info) == hmac::hmac_sha256(
            hmac::hmac_sha256(salt, input),
            info + seq![1u8],
        ),
{
    assert(info.push(1) =~= info + seq![1u8]);
}

/// The block of a byte string with a number.
pub open spec fn block(data: Seq<u8>, i: int) -> Seq<u8> {
    data.subrange(16 * i, 16 * i + 16)
}

/// Whether each byte of a block is xored from two others.
pub open spec fn is_xor(out: Seq<u8>, a: Seq<u8>, b: Seq<u8>) -> bool {
    out.len() == a.len() && forall|k: int|
        0 <= k < out.len() ==> #[trigger] out[k] == a[k] ^ b[k]
}

/// Each block is encrypted once it is mixed with the encrypted block before it,
/// the first one with the initialization vector.
pub proof fn law_blocks_are_chained(key: Seq<u8>, iv: Seq<u8>, data: Seq<u8>, i: int)
    requires
        data.len() % 16 == 0,
        0 <= i,
        16 * i < data.len(),
    ensures
        ({
            let encrypted = cbc::cbc_enc(key, iv, data);
            let before = if i == 0 {
                iv
            } else {
                block(encrypted, i - 1)
            };
            encrypted.len() == data.len() && exists|mixed: Seq<u8>|
                is_xor(mixed, block(data, i), before) && block(encrypted, i)
                    == #[trigger] aes256::aes_enc(key, mixed)
        }),
        ({
            let decrypted = cbc::cbc_dec(key, iv, data);
            let before = if i == 0 {
                iv
            } else {
                block(data, i - 1)
            };
            decrypted.len() == data.len() && is_xor(
                block(decrypted, i),
                aes256::aes_dec(key, block(data, i)),
                before,
            )
        }),
    decreases i,
{
    cbc::lemma_cbc_len(key, iv, data);
    let first = aes256::aes_enc(key, cbc::xor(data.take(16), iv));
    let rest = data.skip(16);
    let encrypted = cbc::cbc_enc(key, iv, data);
    let decrypted = cbc::cbc_dec(key, iv, data);
    assert(data.take(16) =~= block(data, 0));
    if i == 0 {
        assert(block(encrypted, 0) =~= first);
        assert(is_xor(cbc::xor(data.take(16), iv), block(data, 0), iv));
        assert(block(decrypted, 0) =~= cbc::xor(aes256::aes_dec(key, data.take(16)), iv));
    } else {
        law_blocks_are_chained(key, first, rest, i - 1);
        let encrypted_rest = cbc::cbc_enc(key, first, rest);
        assert(block(rest, i - 1) =~= block(data, i));
        assert(block(encrypted_rest, i - 1) =~= block(encrypted, i));
        if i == 1 {
            assert(block(encrypted, 0) =~= first);
        } else {
            assert(block(encrypted_rest, i - 2) =~= block(encrypted, i - 1));
        }
        law_blocks_are_chained(key, data.take(16), rest, i - 1);
        let decrypted_rest = cbc::cbc_dec(key, data.take(16), rest);
        assert(block(decrypted_rest, i - 1) =~= block(decrypted, i));
        if i > 1 {
            assert(block(rest, i - 2) =~= block(data, i - 1));
        }
    }
}

/// Whether bytes are the DER encoding of a number that is not negative: it is
/// marked as a number, its length is right, its first bit is not set, and no
/// byte of it could be left out.
pub open spec fn is_der_number(der: Seq<u8>, n: nat) -> bool {
    &&& der.len() >= 3
    &&& der[0] == 0x02
    &&& der[1] as int == der.len() - 2
    &&& der[2] < 0x80
    &&& der[2] == 0 && der.len() > 3 ==> der[3] >= 0x80
    &&& bytes::be_nat(der.skip(2)) == n
}

proof fn lemma_leading_zero(s: Seq<u8>)
    ensures
        bytes::be_nat(seq![0u8] + s) == bytes::be_nat(s),
    decreases s.len(),
{
    let longer = seq![0u8] + s;
    if s.len() == 0 {
        assert(longer.drop_last() =~= Seq::<u8>::empty());
        assert(longer.last() == 0);
        assert(bytes::be_nat(longer.drop_last()) == 0);
    } else {
        assert(longer.drop_last() =~= seq![0u8] + s.drop_last());
        lemma_leading_zero(s.drop_last());
    }
}

proof fn lemma_trimmed(s: Seq<u8>)
    ensures
        ecdsa::trimmed(s).len() <= s.len(),
        bytes::be_nat(ecdsa::trimmed(s)) == bytes::be_nat(s),
        ecdsa::trimmed(s).len() > 0 ==> ecdsa::trimmed(s)[0] != 0,
    decreases s.len(),
{
    if s.len() > 0 && s[0] == 0 {
        lemma_trimmed(s.skip(1));
        lemma_leading_zero(s.skip(1));
        assert(seq![0u8] + s.skip(1) =~= s);
    }
}

proof fn lemma_der_integer(s: Seq<u8>)
    requires
        s.len() == 32,
    ensures
        is_der_number(ecdsa::der_integer(s), bytes::be_nat(s)),
        ecdsa::der_integer(s).len() <= 35,
{
    lemma_trimmed(s);
    let magnitude = ecdsa::trimmed(s);
    lemma_leading_zero(magnitude);
    let der = ecdsa::der_integer(s);
    if magnitude.len() == 0 || magnitude[0] >= 0x80 {
        assert(der.skip(2) =~= seq![0u8] + magnitude);
    } else {
        assert(der.skip(2) =~= magnitude);
    }
}

/// The encoding of a signature is that of a sequence of the two numbers that
/// its halves spell.
pub proof fn law_encoded_signatures_spell_both_halves(r: Seq<u8>, s: Seq<u8>)
    requires
        r.len() == 32,
        s.len() == 32,
    ensures
        exists|a: Seq<u8>, b: Seq<u8>|
            {
                &&& ecdsa::der_signature((r, s)) == seq![0x30u8, (a.len() + b.len()) as u8] + a + b
                &&& a.len() + b.len() <= 70
                &&& #[trigger] is_der_number(a, bytes::be_nat(r))
                &&& #[trigger] is_der_number(b, bytes::be_nat(s))
            },
{
    lemma_der_integer(r);
    lemma_der_integer(s);
    let a = ecdsa::der_integer(r);
    let b = ecdsa::der_integer(s);
    assert(ecdsa::der_signature((r, s)) =~= seq![0x30u8, (a.len() + b.len()) as u8] + a + b);
    assert(is_der_number(a, bytes::be_nat(r)));
    assert(is_der_number(b, bytes::be_nat(s)));
}

} // verus!
