use opensk::bytes;
use opensk::crypto::cbc::{cbc_decrypt, cbc_encrypt};
use opensk::crypto::dilithium::{
    count_candidates, count_matrix_entry, count_nibbles, count_short_polynomial, seed_expands,
};
use opensk::crypto::ecdh;
use opensk::crypto::ecdsa;
use opensk::crypto::hkdf::hkdf_256;
use opensk::crypto::hmac::{hmac_256, verify_hmac_256, verify_hmac_256_first_128bits};
use opensk::crypto::hybrid::{Hybrid, PublicKey, SecretKey, Signature, HYBRID_SIZE};
use opensk::crypto::p256::Scalar;
use opensk::crypto::rng256::Rng256;
use opensk::crypto::sha256;
use opensk::crypto::software_crypto::{
    dilithium_input, ecdsa_input, Crypto, Ecdh, Ecdsa, SoftwareAes256, SoftwareCrypto,
    SoftwareEcdh, SoftwareEcdhPublicKey, SoftwareEcdhSecretKey, SoftwareEcdsa,
    SoftwareEcdsaPublicKey, SoftwareEcdsaSecretKey, SoftwareEcdsaSignature, SoftwareHkdf256,
    SoftwareHmac256, SoftwareHybrid, SoftwareHybridSecretKey, SoftwareSha256, LABEL,
};
use opensk::text;

struct CountingRng {
    draws: u64,
}

impl Rng256 for CountingRng {
    fn gen_uniform_u8x32(&mut self) -> [u8; 32] {
        self.draws += 1;
        sha256::hash(&self.draws.to_le_bytes())
    }

    fn gen_uniform_scalar(&mut self) -> Scalar {
        loop {
            let bytes = self.gen_uniform_u8x32();
            if let Some(scalar) = Scalar::from_bytes(&bytes) {
                return scalar;
            }
        }
    }
}

fn unhex(s: &str) -> Vec<u8> {
    let digits: Vec<u8> = s
        .chars()
        .filter(|c| !c.is_whitespace())
        .map(|c| c.to_digit(16).unwrap() as u8)
        .collect();
    digits.chunks(2).map(|d| d[0] * 16 + d[1]).collect()
}

fn unhex32(s: &str) -> [u8; 32] {
    let bytes = unhex(s);
    let mut out = [0; 32];
    out.copy_from_slice(&bytes);
    out
}

#[test]
fn sha256_of_abc() {
    assert_eq!(
        sha256::hash(b"abc"),
        unhex32("ba7816bf8f01cfea414140de5dae2223b00361a396177a9cb410ff61f20015ad")
    );
    assert_eq!(
        sha256::hash(b""),
        unhex32("e3b0c44298fc1c149afbf4c8996fb92427ae41e4649b934ca495991b7852b855")
    );
}

#[test]
fn sha256_in_parts_is_sha256_at_once() {
    let mut hasher = SoftwareSha256::new();
    hasher.update(b"a");
    hasher.update(b"");
    hasher.update(b"bc");
    let mut output = [0; 32];
    hasher.finalize(&mut output);
    assert_eq!(output, sha256::hash(b"abc"));
}

#[test]
fn hmac_of_a_published_vector() {
    let key = [0x0b; 20];
    let mac = hmac_256(&key, b"Hi There");
    assert_eq!(
        mac,
        unhex32("b0344c61d8db38535ca8afceaf0bf12b881dc200c9833da726e9376c2e32cff7")
    );
    // A key that is longer than a block is hashed first.
    let long_key = [0xaa; 131];
    let long_mac = hmac_256(
        &long_key,
        b"Test Using Larger Than Block-Size Key - Hash Key First",
    );
    assert_eq!(
        long_mac,
        unhex32("60e431591ee0b67f0d8a26aacbf5b77f8e0bc6213728c5140546040f0ee37f54")
    );
}

#[test]
fn hmac_is_verified() {
    let key = [0x42; 32];
    let mut mac = [0; 32];
    SoftwareHmac256::mac(&key, b"data", &mut mac);
    assert!(SoftwareHmac256::verify(&key, b"data", &mac));
    assert!(verify_hmac_256(&key, b"data", &mac));
    assert!(!SoftwareHmac256::verify(&key, b"Data", &mac));
    let mut half = [0; 16];
    half.copy_from_slice(&mac[..16]);
    assert!(SoftwareHmac256::verify_truncated_left(&key, b"data", &half));
    assert!(verify_hmac_256_first_128bits(&key, b"data", &half));
    half[15] ^= 0x80;
    assert!(!SoftwareHmac256::verify_truncated_left(&key, b"data", &half));
    mac[31] ^= 0x01;
    assert!(!SoftwareHmac256::verify(&key, b"data", &mac));
}

#[test]
fn hkdf_of_a_published_vector() {
    let ikm = [0x0b; 22];
    // The salt of the vector has 13 bytes; as a key of HMAC it is filled up
    // with zeros.
    let mut salt = [0; 32];
    salt[..13].copy_from_slice(&unhex("000102030405060708090a0b0c"));
    let info = unhex("f0f1f2f3f4f5f6f7f8f9");
    let expected = unhex32("3cb25f25faacd57a90434f64d0362f2a2d2d0a90cf1a5a4c5db02d56ecc4c5bf");
    let mut okm = [0; 32];
    hkdf_256(&ikm, &salt, &info, &mut okm);
    assert_eq!(okm, expected);
    let mut okm = [0; 32];
    SoftwareHkdf256::hkdf_256(&ikm, &salt, &info, &mut okm);
    assert_eq!(okm, expected);
}

#[test]
fn aes_of_a_published_vector() {
    let key = unhex32("000102030405060708090a0b0c0d0e0f101112131415161718191a1b1c1d1e1f");
    let aes = SoftwareAes256::new(&key);
    let plain = unhex("00112233445566778899aabbccddeeff");
    let mut block = [0; 16];
    block.copy_from_slice(&plain);
    aes.encrypt_block(&mut block);
    assert_eq!(block.to_vec(), unhex("8ea2b7ca516745bfeafc49904b496089"));
    aes.decrypt_block(&mut block);
    assert_eq!(block.to_vec(), plain);
}

#[test]
fn cbc_of_a_published_vector() {
    let key = unhex32("603deb1015ca71be2b73aef0857d77811f352c073b6108d72d9810a30914dff4");
    let mut iv = [0; 16];
    iv.copy_from_slice(&unhex("000102030405060708090a0b0c0d0e0f"));
    let plain = unhex("6bc1bee22e409f96e93d7e117393172aae2d8a571e03ac9c9eb76fac45af8e51");
    let cipher = unhex("f58c4c04d6e5f1ba779eabfb5f7bfbd69cfc4e967edb808d679f777bc6702c7d");
    assert_eq!(cbc_encrypt(&key, &iv, &plain), cipher);
    assert_eq!(cbc_decrypt(&key, &iv, &cipher), plain);
    assert_eq!(cbc_encrypt(&key, &iv, &[]), Vec::<u8>::new());

    let aes = SoftwareAes256::new(&key);
    let mut data = plain.clone();
    aes.encrypt_cbc(&iv, &mut data);
    assert_eq!(data, cipher);
    aes.decrypt_cbc(&iv, &mut data);
    assert_eq!(data, plain);
}

#[test]
fn scalars_are_in_range() {
    let order = unhex32("ffffffff00000000ffffffffffffffffbce6faada7179e84f3b9cac2fc632551");
    assert!(Scalar::from_bytes(&order).is_none());
    assert!(Scalar::from_bytes(&[0; 32]).is_none());
    assert!(Scalar::from_bytes(&[0xff; 32]).is_none());
    let mut last = order;
    last[31] -= 1;
    assert_eq!(Scalar::from_bytes(&last).unwrap().to_bytes(), last);
    let mut one = [0; 32];
    one[31] = 1;
    assert!(ecdsa::SecKey::from_bytes(&one).is_some());
    assert!(ecdsa::SecKey::from_bytes(&order).is_none());
}

const GENERATOR_X: &str = "6b17d1f2e12c4247f8bce6e563a440f277037d812deb33a0f4a13945d898c296";
const GENERATOR_Y: &str = "4fe342e2fe1a7f9b8ee7eb4a7c0f9e162bce33576b315ececbb6406837bf51f5";

#[test]
fn public_key_of_one_is_the_generator() {
    let mut one = [0; 32];
    one[31] = 1;
    let key = ecdsa::SecKey::from_bytes(&one).unwrap();
    let (mut x, mut y) = ([0; 32], [0; 32]);
    key.genpk().to_coordinates(&mut x, &mut y);
    assert_eq!(x, unhex32(GENERATOR_X));
    assert_eq!(y, unhex32(GENERATOR_Y));
}

#[test]
fn points_are_on_the_curve() {
    let x = unhex32(GENERATOR_X);
    let mut y = unhex32(GENERATOR_Y);
    assert!(ecdsa::PubKey::from_coordinates(&x, &y).is_some());
    assert!(ecdh::PubKey::from_coordinates(&x, &y).is_some());
    y[31] ^= 0x01;
    assert!(ecdsa::PubKey::from_coordinates(&x, &y).is_none());
    assert!(ecdh::PubKey::from_coordinates(&x, &y).is_none());
    assert!(ecdsa::PubKey::from_coordinates(&[0; 32], &[0; 32]).is_none());
    assert!(SoftwareEcdhPublicKey::from_coordinates(&x, &y).is_none());
    assert!(SoftwareEcdsaPublicKey::from_coordinates(&x, &y).is_none());
}

#[test]
fn ecdsa_of_a_published_vector() {
    let key_bytes = unhex32("c9afa9d845ba75166b5c215767b1d6934e50c3db36e89b127b8a622b120f6721");
    let key = SoftwareEcdsaSecretKey::from_slice(&key_bytes).unwrap();
    let signature = key.sign(b"sample").unwrap();
    let r = "efd48b2aacb6a8fd1140dd9cd45e81d69d2c877b56aaf991c34d0ea84eaf3716";
    let s = "f7cb1c942d657c41d436c7a1b6e29f65f3e900dbb9aff4064dc4ab2f843acda8";
    let mut bytes = [0; 64];
    signature.to_slice(&mut bytes);
    assert_eq!(bytes[..32].to_vec(), unhex(r));
    assert_eq!(bytes[32..].to_vec(), unhex(s));
    let mut der = unhex("3046022100");
    der.extend(unhex(r));
    der.extend(unhex("022100"));
    der.extend(unhex(s));
    assert_eq!(signature.to_der(), der);

    let public = key.public_key();
    assert!(public.verify(b"sample", &signature));
    assert!(public.verify_prehash(&sha256::hash(b"sample"), &signature));
    assert!(!public.verify(b"Sample", &signature));
    let again = SoftwareEcdsaSignature::from_slice(&bytes).unwrap();
    assert!(public.verify(b"sample", &again));
    assert!(SoftwareEcdsaSignature::from_slice(&[0; 64]).is_none());
    let mut out = [0; 32];
    key.to_slice(&mut out);
    assert_eq!(out, key_bytes);
}

#[test]
fn der_numbers_are_as_short_as_possible() {
    let mut bytes = [0; 64];
    bytes[30] = 0x01;
    bytes[31] = 0x80;
    bytes[63] = 0x80;
    let signature = ecdsa::Signature::from_bytes(&bytes).unwrap();
    assert_eq!(signature.to_asn1_der(), unhex("30080202018002020080"));
    let mut again = [0; 64];
    signature.to_bytes(&mut again);
    assert_eq!(again.to_vec(), bytes.to_vec());
}

#[test]
fn cose_key_is_encoded() {
    let key = ecdsa::PubKey::from_coordinates(&unhex32(GENERATOR_X), &unhex32(GENERATOR_Y)).unwrap();
    let mut expected = unhex("a5010203262001215820");
    expected.extend(unhex(GENERATOR_X));
    expected.extend(unhex("225820"));
    expected.extend(unhex(GENERATOR_Y));
    assert_eq!(key.to_cose_key(), Some(expected));
}

#[test]
fn ecdh_of_a_published_vector() {
    let i = Scalar::from_bytes(&unhex32(
        "c88f01f510d9ac3f70a292daa2316de544e9aab8afe84049c62a9c57862d1433",
    ))
    .unwrap();
    let r = Scalar::from_bytes(&unhex32(
        "c6ef9c5d78ae012a011164acb397ce2088685d8f06bf9be0b283ab46476bee53",
    ))
    .unwrap();
    let i = ecdh::SecKey::from_scalar(i);
    let r = ecdh::SecKey::from_scalar(r);
    let shared = unhex32("d6840f6b42f6edafd13116e0e12565202fef8e9ece7dce03812464d04b9442de");
    assert_eq!(i.exchange_x(&r.genpk()), shared);
    assert_eq!(r.exchange_x(&i.genpk()), shared);
    assert_eq!(i.exchange_x_sha256(&r.genpk()), sha256::hash(&shared));
}

#[test]
fn software_ecdh_agrees_and_is_wiped() {
    let mut rng = CountingRng { draws: 7 };
    let a = SoftwareEcdhSecretKey::random(&mut rng);
    let b = SoftwareEcdhSecretKey::random(&mut rng);
    let mut ab = a.diffie_hellman(&b.public_key());
    let ba = b.diffie_hellman(&a.public_key());
    let (mut s, mut t) = ([0; 32], [0; 32]);
    ab.raw_secret_bytes(&mut s);
    ba.raw_secret_bytes(&mut t);
    assert_eq!(s, t);
    assert_ne!(s, [0; 32]);
    ab.zeroize();
    ab.raw_secret_bytes(&mut s);
    assert_eq!(s, [0; 32]);

    let (mut x, mut y) = ([0; 32], [0; 32]);
    a.public_key().to_coordinates(&mut x, &mut y);
    assert!(SoftwareEcdhPublicKey::from_coordinates(&x, &y).is_some());
}

#[test]
fn hybrid_inputs_are_labelled() {
    let mut input = LABEL.to_vec();
    input.extend(b"msg");
    assert_eq!(ecdsa_input(b"msg"), input);
    let mut bytes = [0; 64];
    bytes[31] = 1;
    bytes[63] = 2;
    let signature = ecdsa::Signature::from_bytes(&bytes).unwrap();
    input.extend(unhex("3006020101020102"));
    assert_eq!(dilithium_input(b"msg", &signature), input);
}

type HybridKey = <<SoftwareCrypto as Crypto>::Hybrid as Hybrid>::SecretKey;

#[test]
fn hybrid_signatures_verify() {
    let mut rng = CountingRng { draws: 100 };
    let key = HybridKey::random(&mut rng);
    assert!(key.is_usable());
    let public = key.public_key();
    let signature = key.sign(b"message").unwrap();
    assert!(public.verify(b"message", &signature));
    assert!(!public.verify(b"massage", &signature));
    let other = HybridKey::random(&mut rng);
    assert!(other.is_usable());
    assert!(!other.public_key().verify(b"message", &signature));

    // The ECDSA part stands first, the other part behind it.
    let der = signature.into_der();
    assert_eq!(der[0], 0x30);
    assert_eq!(der.len(), 2 + der[1] as usize + 2701);
}

#[test]
fn hybrid_key_is_read_back() {
    let mut rng = CountingRng { draws: 200 };
    let key = SoftwareHybridSecretKey::random(&mut rng);
    let mut bytes = [0; HYBRID_SIZE];
    key.to_slice(&mut bytes);
    let again = SoftwareHybridSecretKey::from_slice(&bytes).unwrap();
    assert!(key.is_usable() && again.is_usable());
    let mut written = [0; HYBRID_SIZE];
    again.to_slice(&mut written);
    assert_eq!(bytes.to_vec(), written.to_vec());
    assert!(again
        .public_key()
        .verify(b"m", &key.sign(b"m").unwrap()));

    let (mut x, mut y) = ([0; 32], [0; 32]);
    key.public_key().ecdsa_to_coordinates(&mut x, &mut y);
    let ecdsa_part = ecdsa::SecKey::from_bytes(&bytes::to_array(&bytes[..32])).unwrap();
    let (mut u, mut v) = ([0; 32], [0; 32]);
    ecdsa_part.genpk().to_coordinates(&mut u, &mut v);
    assert_eq!((x, y), (u, v));

    let mut first = [0; 1472];
    key.public_key().dilithium_to_bytes(&mut first);
    let mut second = [0; 1472];
    again.public_key().dilithium_to_bytes(&mut second);
    assert_eq!(first.to_vec(), second.to_vec());
    assert_ne!(first.to_vec(), [0; 1472].to_vec());
}

fn repeated(candidate: [u8; 3]) -> [u8; 840] {
    let mut bytes = [0; 840];
    for (i, byte) in bytes.iter_mut().enumerate() {
        *byte = candidate[i % 3];
    }
    bytes
}

#[test]
fn candidates_below_the_modulus_are_accepted() {
    assert_eq!(count_candidates(&[0; 840]), 280);
    assert_eq!(count_candidates(&[0xff; 840]), 0);
    // The highest number below the modulus, with and without its highest bit,
    // and the modulus itself.
    assert_eq!(count_candidates(&repeated([0x00, 0xe0, 0x7f])), 280);
    assert_eq!(count_candidates(&repeated([0x00, 0xe0, 0xff])), 280);
    assert_eq!(count_candidates(&repeated([0x01, 0xe0, 0x7f])), 0);
    let mut one = repeated([0x01, 0xe0, 0x7f]);
    one[837] = 0x00;
    assert_eq!(count_candidates(&one), 1);
}

#[test]
fn nibbles_up_to_the_bound_are_accepted() {
    assert_eq!(count_nibbles(&[0xaa; 272]), 544);
    assert_eq!(count_nibbles(&[0xbb; 272]), 0);
    assert_eq!(count_nibbles(&[0xba; 272]), 272);
    assert_eq!(count_nibbles(&[0xab; 272]), 272);
}

#[test]
fn expansions_are_counted() {
    assert_eq!(count_matrix_entry(&[7; 32], 0, 0), 280);
    assert_eq!(count_matrix_entry(&[7; 32], 1, 1), 278);
    assert_eq!(count_matrix_entry(&[7; 32], 1, 3), 279);
    assert_eq!(count_matrix_entry(&[22; 32], 4, 1), 277);
    let counts: Vec<usize> = (0..9)
        .map(|nonce| count_short_polynomial(&[7; 32], nonce))
        .collect();
    assert_eq!(counts, vec![332, 385, 384, 371, 375, 367, 376, 375, 352]);
}

#[test]
fn ordinary_seeds_expand() {
    for i in 0..=20 {
        assert!(seed_expands(&[i; 32]));
    }
}

#[test]
fn checked_hybrid_key_does_the_same() {
    let mut rng = CountingRng { draws: 300 };
    let key = SoftwareHybridSecretKey::random(&mut rng);
    let public = key.checked_public_key().unwrap();
    let signature = key.checked_sign(b"message").unwrap();
    assert!(public.verify(b"message", &signature));
    assert_eq!(
        signature.into_der(),
        key.sign(b"message").unwrap().into_der()
    );
    let (mut a, mut b) = ([0; 1472], [0; 1472]);
    public.dilithium_to_bytes(&mut a);
    key.public_key().dilithium_to_bytes(&mut b);
    assert_eq!(a.to_vec(), b.to_vec());
}

#[test]
fn hybrid_key_takes_any_seed() {
    for seed in [0, 1, 0x80, 0xff] {
        let mut bytes = [seed; HYBRID_SIZE];
        bytes[..32].fill(1);
        let key = SoftwareHybridSecretKey::from_slice(&bytes).unwrap();
        let mut written = [0; HYBRID_SIZE];
        key.to_slice(&mut written);
        assert_eq!(bytes.to_vec(), written.to_vec());
        assert_eq!(key.is_usable(), seed_expands(&[seed; 32]));
    }
}

#[test]
fn hybrid_key_needs_an_ecdsa_key() {
    let mut bytes = [0; HYBRID_SIZE];
    assert!(SoftwareHybridSecretKey::from_slice(&bytes).is_none());
    bytes[32..].fill(1);
    assert!(SoftwareHybridSecretKey::from_slice(&bytes).is_none());
}

#[test]
fn containers_name_their_types() {
    let mut rng = CountingRng { draws: 300 };
    let ecdh_key = <SoftwareEcdh as Ecdh>::SecretKey::random(&mut rng);
    let ecdsa_key = <SoftwareEcdsa as Ecdsa>::SecretKey::random(&mut rng);
    let hybrid_key = <SoftwareHybrid as Hybrid>::SecretKey::random(&mut rng);
    let _ = ecdh_key.public_key();
    assert!(ecdsa_key
        .public_key()
        .verify(b"m", &ecdsa_key.sign(b"m").unwrap()));
    let (mut x, mut y) = ([0; 32], [0; 32]);
    hybrid_key.public_key().ecdsa_to_coordinates(&mut x, &mut y);
    assert!(SoftwareEcdsaPublicKey::from_coordinates(&x, &y).is_some());
}

#[test]
fn texts_are_truncated_between_characters() {
    assert_eq!(text::truncate_to_char_boundary("short", 64), "short");
    assert_eq!(text::truncate_to_char_boundary("short", 5), "short");
    assert_eq!(text::truncate_to_char_boundary("short", 3), "sho");
    assert_eq!(text::truncate_to_char_boundary("short", 0), "");
    // Two, three and four bytes.
    assert_eq!(text::truncate_to_char_boundary("aé", 2), "a");
    assert_eq!(text::truncate_to_char_boundary("aé", 3), "aé");
    assert_eq!(text::truncate_to_char_boundary("€€", 5), "€");
    assert_eq!(text::truncate_to_char_boundary("😀", 3), "");
    assert_eq!(text::truncate_to_char_boundary("", 0), "");
}

#[test]
fn texts_are_compared() {
    assert!(text::equal("example.com", "example.com"));
    assert!(!text::equal("example.com", "example.org"));
    assert!(!text::equal("example.com", "example.co"));
}
