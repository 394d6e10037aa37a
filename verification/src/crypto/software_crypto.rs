//! Cryptography in software. Secrets are not wiped from memory, but for those
//! with a method for it.

use crate::bytes;
use crate::crypto::aes256;
use crate::crypto::cbc;
use crate::crypto::dilithium;
use crate::crypto::dilithium::{DILITHIUM_PUB_SIZE, DILITHIUM_SIG_SIZE, SEED_SIZE};
use crate::crypto::ecdh;
use crate::crypto::ecdsa;
use crate::crypto::hkdf;
use crate::crypto::hmac;
use crate::crypto::hybrid;
use crate::crypto::hybrid::HYBRID_SIZE;
use crate::crypto::p256;
use crate::crypto::p256::{EC_FIELD_SIZE, EC_SIGNATURE_SIZE};
use crate::crypto::rng256::Rng256;
use crate::crypto::sha256;
use crate::crypto::sha256::HASH_SIZE;
use vstd::prelude::*;
use vstd::slice::{slice_subrange, slice_to_vec};
use zeroize::Zeroize;

verus! {

/// The size of a key for HMAC.
pub const HMAC_KEY_SIZE: usize = 32;

/// The size of a truncated HMAC.
pub const TRUNCATED_HMAC_SIZE: usize = 16;

/// All cryptography that an authenticator needs.
pub trait Crypto {
    type Aes256;

    type Ecdh: Ecdh;

    type Ecdsa: Ecdsa;

    type Hybrid: hybrid::Hybrid;

    type Sha256;

    type Hmac256;

    type Hkdf256;
}

/// Container for all ECDH cryptographic material.
pub trait Ecdh {
    type SecretKey;

    type PublicKey;

    type SharedSecret;
}

/// Container for all ECDSA cryptographic material.
pub trait Ecdsa {
    type SecretKey;

    type PublicKey;

    type Signature;
}

/// Cryptography in software.
pub struct SoftwareCrypto;

/// ECDH in software.
pub struct SoftwareEcdh;

/// ECDSA in software.
pub struct SoftwareEcdsa;

/// Hybrid signatures in software.
pub struct SoftwareHybrid;

impl Crypto for SoftwareCrypto {
    type Aes256 = SoftwareAes256;

    type Ecdh = SoftwareEcdh;

    type Ecdsa = SoftwareEcdsa;

    type Hybrid = SoftwareHybrid;

    type Sha256 = SoftwareSha256;

    type Hmac256 = SoftwareHmac256;

    type Hkdf256 = SoftwareHkdf256;
}

impl Ecdh for SoftwareEcdh {
    type SecretKey = SoftwareEcdhSecretKey;

    type PublicKey = SoftwareEcdhPublicKey;

    type SharedSecret = SoftwareEcdhSharedSecret;
}

/// A secret key for ECDH.
pub struct SoftwareEcdhSecretKey {
    sec_key: ecdh::SecKey,
}

/// A public key for ECDH.
pub struct SoftwareEcdhPublicKey {
    pub_key: ecdh::PubKey,
}

/// What two keys for ECDH agree on.
pub struct SoftwareEcdhSharedSecret {
    shared_secret: [u8; EC_FIELD_SIZE],
}

impl View for SoftwareEcdhSecretKey {
    type V = Seq<u8>;

    closed spec fn view(&self) -> Seq<u8> {
        self.sec_key@
    }
}

impl View for SoftwareEcdhPublicKey {
    type V = (Seq<u8>, Seq<u8>);

    closed spec fn view(&self) -> (Seq<u8>, Seq<u8>) {
        self.pub_key@
    }
}

impl View for SoftwareEcdhSharedSecret {
    type V = Seq<u8>;

    closed spec fn view(&self) -> Seq<u8> {
        self.shared_secret@
    }
}

impl SoftwareEcdhSecretKey {
    /// Draws a secret key.
    pub fn random<R: Rng256>(rng: &mut R) -> (key: Self)
        ensures
            p256::is_scalar(key@),
            old(rng).draws_scalar(key@, *final(rng)),
    {
        SoftwareEcdhSecretKey { sec_key: ecdh::SecKey::gensk(rng) }
    }

    /// The public key that belongs to the key.
    pub fn public_key(&self) -> (key: SoftwareEcdhPublicKey)
        ensures
            key@ == ecdsa::public_key(self@),
    {
        SoftwareEcdhPublicKey { pub_key: self.sec_key.genpk() }
    }

    /// What the key and a public key agree on. The owner of the public key
    /// comes to the same with the public key that belongs to the key.
    pub fn diffie_hellman(&self, public_key: &SoftwareEcdhPublicKey) -> (shared:
        SoftwareEcdhSharedSecret)
        ensures
            shared@ == ecdh::shared_coordinate(self@, public_key@),
            forall|owner: Seq<u8>|
                p256::is_scalar(owner) && public_key@ == #[trigger] ecdsa::public_key(owner)
                    ==> shared@ == ecdh::shared_coordinate(owner, ecdsa::public_key(self@)),
    {
        SoftwareEcdhSharedSecret { shared_secret: self.sec_key.exchange_x(&public_key.pub_key) }
    }
}

impl SoftwareEcdhPublicKey {
    /// The public key with these coordinates, if they are those of a point.
    pub fn from_coordinates(x: &[u8; EC_FIELD_SIZE], y: &[u8; EC_FIELD_SIZE]) -> (key: Option<Self>)
        ensures
            key is Some <==> p256::is_point(x@, y@),
            key matches Some(k) ==> k@ == (x@, y@),
    {
        match ecdh::PubKey::from_coordinates(x, y) {
            Some(pub_key) => Some(SoftwareEcdhPublicKey { pub_key }),
            None => None,
        }
    }

    /// Writes the coordinates of the key.
    pub fn to_coordinates(&self, x: &mut [u8; EC_FIELD_SIZE], y: &mut [u8; EC_FIELD_SIZE])
        ensures
            (final(x)@, final(y)@) == self@,
    {
        self.pub_key.to_coordinates(x, y);
    }
}

/// Calls `zeroize::Zeroize::zeroize` on an array of bytes: all of them are zero
/// afterwards. That the compiler cannot leave this out is not part of the
/// contract.
#[verifier::external_body]
fn wipe(secret: &mut [u8; 32])
    ensures
        final(secret)@ == bytes::zeros(32),
{
    secret.zeroize();
}

impl SoftwareEcdhSharedSecret {
    /// Writes the secret.
    pub fn raw_secret_bytes(&self, secret: &mut [u8; EC_FIELD_SIZE])
        ensures
            final(secret)@ == self@,
    {
        *secret = self.shared_secret;
    }

    /// Wipes the secret.
    pub fn zeroize(&mut self)
        ensures
            final(self)@ == bytes::zeros(32),
    {
        wipe(&mut self.shared_secret);
    }
}

impl Ecdsa for SoftwareEcdsa {
    type SecretKey = SoftwareEcdsaSecretKey;

    type PublicKey = SoftwareEcdsaPublicKey;

    type Signature = SoftwareEcdsaSignature;
}

/// A signing key for ECDSA.
pub struct SoftwareEcdsaSecretKey {
    sec_key: ecdsa::SecKey,
}

/// A verifying key for ECDSA.
pub struct SoftwareEcdsaPublicKey {
    pub_key: ecdsa::PubKey,
}

/// A signature of ECDSA.
pub struct SoftwareEcdsaSignature {
    signature: ecdsa::Signature,
}

impl View for SoftwareEcdsaSecretKey {
    type V = Seq<u8>;

    closed spec fn view(&self) -> Seq<u8> {
        self.sec_key@
    }
}

impl View for SoftwareEcdsaPublicKey {
    type V = (Seq<u8>, Seq<u8>);

    closed spec fn view(&self) -> (Seq<u8>, Seq<u8>) {
        self.pub_key@
    }
}

impl View for SoftwareEcdsaSignature {
    type V = (Seq<u8>, Seq<u8>);

    closed spec fn view(&self) -> (Seq<u8>, Seq<u8>) {
        self.signature@
    }
}

impl SoftwareEcdsaSecretKey {
    /// Draws a signing key.
    pub fn random<R: Rng256>(rng: &mut R) -> (key: Self)
        ensures
            p256::is_scalar(key@),
            old(rng).draws_scalar(key@, *final(rng)),
    {
        SoftwareEcdsaSecretKey { sec_key: ecdsa::SecKey::gensk(rng) }
    }

    /// The signing key that bytes spell, if they spell one.
    pub fn from_slice(bytes: &[u8; EC_FIELD_SIZE]) -> (key: Option<Self>)
        ensures
            key is Some <==> p256::is_scalar(bytes@),
            key matches Some(k) ==> k@ == bytes@,
    {
        match ecdsa::SecKey::from_bytes(bytes) {
            Some(sec_key) => Some(SoftwareEcdsaSecretKey { sec_key }),
            None => None,
        }
    }

    /// The verifying key that belongs to the key.
    pub fn public_key(&self) -> (key: SoftwareEcdsaPublicKey)
        ensures
            key@ == ecdsa::public_key(self@),
    {
        SoftwareEcdsaPublicKey { pub_key: self.sec_key.genpk() }
    }

    /// Signs a message, if there is a signature. The verifying key accepts it.
    pub fn sign(&self, message: &[u8]) -> (signature: Option<SoftwareEcdsaSignature>)
        ensures
            signature is Some <==> ecdsa::signature(self@, message@) is Some,
            signature matches Some(s) ==> Some(s@) == ecdsa::signature(self@, message@)
                && ecdsa::accepts(ecdsa::public_key(self@), message@, s@),
    {
        match self.sec_key.sign_rfc6979(message) {
            Some(signature) => Some(SoftwareEcdsaSignature { signature }),
            None => None,
        }
    }

    /// Writes the bytes that spell the key.
    pub fn to_slice(&self, bytes: &mut [u8; EC_FIELD_SIZE])
        ensures
            final(bytes)@ == self@,
    {
        self.sec_key.to_bytes(bytes);
    }
}

impl SoftwareEcdsaPublicKey {
    /// The verifying key with these coordinates, if they are those of a point.
    pub fn from_coordinates(x: &[u8; EC_FIELD_SIZE], y: &[u8; EC_FIELD_SIZE]) -> (key: Option<Self>)
        ensures
            key is Some <==> p256::is_point(x@, y@),
            key matches Some(k) ==> k@ == (x@, y@),
    {
        match ecdsa::PubKey::from_coordinates(x, y) {
            Some(pub_key) => Some(SoftwareEcdsaPublicKey { pub_key }),
            None => None,
        }
    }

    /// Whether the key accepts a signature of a message.
    pub fn verify(&self, message: &[u8], signature: &SoftwareEcdsaSignature) -> (valid: bool)
        ensures
            valid == ecdsa::accepts(self@, message@, signature@),
    {
        self.pub_key.verify_vartime(message, &signature.signature)
    }

    /// Whether the key accepts a signature of a hash.
    pub fn verify_prehash(
        &self,
        prehash: &[u8; HASH_SIZE],
        signature: &SoftwareEcdsaSignature,
    ) -> (valid: bool)
        ensures
            valid == ecdsa::accepts_hash(self@, prehash@, signature@),
    {
        self.pub_key.verify_hash_vartime(prehash, &signature.signature)
    }

    /// Writes the coordinates of the key.
    pub fn to_coordinates(&self, x: &mut [u8; EC_FIELD_SIZE], y: &mut [u8; EC_FIELD_SIZE])
        ensures
            (final(x)@, final(y)@) == self@,
    {
        self.pub_key.to_coordinates(x, y);
    }
}

impl SoftwareEcdsaSignature {
    /// The signature that bytes spell, if both halves are nonzero scalars.
    pub fn from_slice(bytes: &[u8; EC_SIGNATURE_SIZE]) -> (signature: Option<Self>)
        ensures
            signature is Some <==> p256::is_scalar(bytes@.take(32)) && p256::is_scalar(
                bytes@.skip(32),
            ),
            signature matches Some(s) ==> s@ == (bytes@.take(32), bytes@.skip(32)),
    {
        match ecdsa::Signature::from_bytes(bytes) {
            Some(signature) => Some(SoftwareEcdsaSignature { signature }),
            None => None,
        }
    }

    /// Writes the two halves of the signature, one after the other.
    pub fn to_slice(&self, bytes: &mut [u8; EC_SIGNATURE_SIZE])
        ensures
            final(bytes)@ == self@.0 + self@.1,
    {
        self.signature.to_bytes(bytes);
    }

    /// The DER encoding of the signature.
    pub fn to_der(&self) -> (der: Vec<u8>)
        ensures
            der@ == ecdsa::der_signature(self@),
    {
        self.signature.to_asn1_der()
    }
}

impl hybrid::Hybrid for SoftwareHybrid {
    type SecretKey = SoftwareHybridSecretKey;

    type PublicKey = SoftwareHybridPublicKey;

    type Signature = SoftwareHybridSignature;
}

/// A label generated uniformly at random from the output space of SHA-256.
pub const LABEL: [u8; 32] = [
    43, 253, 32, 250, 19, 51, 24, 237, 138, 49, 47, 182, 4, 194, 133, 183, 177, 218, 115, 58, 92,
    117, 45, 172, 156, 5, 214, 176, 248, 103, 55, 216,
];

/// What is signed with ECDSA: the message behind the label.
pub fn ecdsa_input(message: &[u8]) -> (input: Vec<u8>)
    ensures
        input@ == LABEL@ + message@,
{
    bytes::concat(&LABEL, message)
}

/// What is signed with Dilithium: the message behind the label, and the ECDSA
/// signature behind it.
pub open spec fn dilithium_message(message: Seq<u8>, ecdsa_sign: (Seq<u8>, Seq<u8>)) -> Seq<u8> {
    LABEL@ + message + ecdsa::der_signature(ecdsa_sign)
}

/// What is signed with Dilithium.
pub fn dilithium_input(message: &[u8], ecdsa_sign: &ecdsa::Signature) -> (input: Vec<u8>)
    ensures
        input@ == dilithium_message(message@, ecdsa_sign@),
{
    let mut input: Vec<u8> = bytes::concat(&LABEL, message);
    bytes::append(&mut input, ecdsa_sign.to_asn1_der().as_slice());
    input
}

/// A hybrid signing key.
pub struct SoftwareHybridSecretKey {
    ecdsa_key: ecdsa::SecKey,
    dilithium_seed: [u8; SEED_SIZE],
}

/// A hybrid verifying key.
pub struct SoftwareHybridPublicKey {
    ecdsa_pk: ecdsa::PubKey,
    dilithium_pk: [u8; DILITHIUM_PUB_SIZE],
}

impl SoftwareHybridPublicKey {
    #[verifier::type_invariant]
    spec fn valid(self) -> bool {
        dilithium::is_public_key(self.dilithium_pk@)
    }
}

/// A hybrid signature.
pub struct SoftwareHybridSignature {
    ecdsa_signature: ecdsa::Signature,
    dilithium_signature: Vec<u8>,
}

impl SoftwareHybridSignature {
    #[verifier::type_invariant]
    spec fn valid(self) -> bool {
        self.dilithium_signature@.len() == DILITHIUM_SIG_SIZE && dilithium::hints_in_range(
            self.dilithium_signature@,
        )
    }

    /// The ECDSA part.
    pub closed spec fn ecdsa_part(self) -> (Seq<u8>, Seq<u8>) {
        self.ecdsa_signature@
    }

    /// The Dilithium part.
    pub closed spec fn dilithium_part(self) -> Seq<u8> {
        self.dilithium_signature@
    }
}

impl hybrid::SecretKey for SoftwareHybridSecretKey {
    type PublicKey = SoftwareHybridPublicKey;

    type Signature = SoftwareHybridSignature;

    closed spec fn key_bytes(&self) -> Seq<u8> {
        self.ecdsa_key@ + self.dilithium_seed@
    }

    open spec fn is_key(bytes: Seq<u8>) -> bool {
        bytes.len() == 64 && p256::is_scalar(bytes.take(32))
    }

    /// A Dilithium key can be expanded from all but very few seeds.
    open spec fn usable(&self) -> bool {
        dilithium::expands(self.key_bytes().skip(32))
    }

    open spec fn signs(&self, message: Seq<u8>) -> bool {
        ecdsa::signature(self.key_bytes().take(32), LABEL@ + message) is Some
    }

    open spec fn owns(&self, public: SoftwareHybridPublicKey) -> bool {
        &&& hybrid::PublicKey::ecdsa_coordinates(&public) == ecdsa::public_key(
            self.key_bytes().take(32),
        )
        &&& hybrid::PublicKey::dilithium_bytes(&public) == dilithium::public_key(
            self.key_bytes().skip(32),
        )
    }

    fn random<R: Rng256>(rng: &mut R) -> (key: Self)
        ensures
            exists|between: R| #[trigger]
                old(rng).draws_scalar(key.key_bytes().take(32), between) && between.draws(
                    key.key_bytes().skip(32),
                    *final(rng),
                ),
    {
        let ecdsa_key: ecdsa::SecKey = ecdsa::SecKey::gensk(rng);
        let ghost between = *rng;
        let dilithium_seed: [u8; SEED_SIZE] = rng.gen_uniform_u8x32();
        let key = SoftwareHybridSecretKey { ecdsa_key, dilithium_seed };
        proof {
            assert(key.key_bytes().take(32) =~= ecdsa_key@);
            assert(key.key_bytes().skip(32) =~= dilithium_seed@);
            assert(old(rng).draws_scalar(key.key_bytes().take(32), between));
        }
        key
    }

    fn from_slice(bytes: &[u8; HYBRID_SIZE]) -> (key: Option<Self>) {
        let ecdsa_bytes: [u8; 32] = bytes::to_array(slice_subrange(bytes, 0, 32));
        let dilithium_seed: [u8; SEED_SIZE] = bytes::to_array(slice_subrange(bytes, 32, 64));
        assert(ecdsa_bytes@ =~= bytes@.take(32));
        assert(ecdsa_bytes@ + dilithium_seed@ =~= bytes@);
        match ecdsa::SecKey::from_bytes(&ecdsa_bytes) {
            Some(ecdsa_key) => Some(SoftwareHybridSecretKey { ecdsa_key, dilithium_seed }),
            None => None,
        }
    }

    fn is_usable(&self) -> (usable: bool) {
        proof {
            use_type_invariant(&self.ecdsa_key);
            self.ecdsa_key.lemma_valid();
            assert(self.key_bytes().skip(32) =~= self.dilithium_seed@);
        }
        dilithium::seed_expands(&self.dilithium_seed)
    }

    fn public_key(&self) -> (public: SoftwareHybridPublicKey) {
        let ecdsa_pk: ecdsa::PubKey = self.ecdsa_key.genpk();
        assert(self.key_bytes().take(32) =~= self.ecdsa_key@);
        assert(self.key_bytes().skip(32) =~= self.dilithium_seed@);
        let (dilithium_pk, _) = dilithium::keypair(&self.dilithium_seed);
        SoftwareHybridPublicKey { ecdsa_pk, dilithium_pk }
    }

    fn sign(&self, message: &[u8]) -> (signature: Option<SoftwareHybridSignature>)
        ensures
            ({
                let ecdsa_key = self.key_bytes().take(32);
                let seed = self.key_bytes().skip(32);
                match (signature, ecdsa::signature(ecdsa_key, LABEL@ + message@)) {
                    (Some(s), Some(e)) => s.ecdsa_part() == e && s.dilithium_part()
                        == dilithium::signature(seed, dilithium_message(message@, e)),
                    (None, None) => true,
                    _ => false,
                }
            }),
    {
        let ecdsa_signature: ecdsa::Signature = match self.ecdsa_key.sign_rfc6979(
            ecdsa_input(message).as_slice(),
        ) {
            Some(signature) => signature,
            None => {
                assert(self.key_bytes().take(32) =~= self.ecdsa_key@);
                return None;
            },
        };
        assert(self.key_bytes().take(32) =~= self.ecdsa_key@);
        assert(self.key_bytes().skip(32) =~= self.dilithium_seed@);
        let (_, dilithium_sk) = dilithium::keypair(&self.dilithium_seed);
        let dilithium_signature: [u8; DILITHIUM_SIG_SIZE] = dilithium::sign(
            &dilithium_sk,
            dilithium_input(message, &ecdsa_signature).as_slice(),
        );
        Some(
            SoftwareHybridSignature {
                ecdsa_signature,
                dilithium_signature: slice_to_vec(&dilithium_signature),
            },
        )
    }

    fn to_slice(&self, bytes: &mut [u8; HYBRID_SIZE]) {
        let mut ecdsa_bytes: [u8; 32] = [0u8; 32];
        self.ecdsa_key.to_bytes(&mut ecdsa_bytes);
        let joined: Vec<u8> = bytes::concat(&ecdsa_bytes, &self.dilithium_seed);
        assert(self.key_bytes().take(32) =~= self.ecdsa_key@);
        assert(self.key_bytes().skip(32) =~= self.dilithium_seed@);
        *bytes = bytes::to_array(joined.as_slice());
    }
}

impl SoftwareHybridSecretKey {
    /// The verifying key that belongs to the key, if the key can be used.
    pub fn checked_public_key(&self) -> (public: Option<SoftwareHybridPublicKey>)
        ensures
            public is Some <==> hybrid::SecretKey::usable(self),
            public matches Some(p) ==> hybrid::SecretKey::owns(self, p),
    {
        if hybrid::SecretKey::is_usable(self) {
            Some(hybrid::SecretKey::public_key(self))
        } else {
            None
        }
    }

    /// Signs the message, if the key can be used and there is a signature.
    pub fn checked_sign(&self, message: &[u8]) -> (signature: Option<SoftwareHybridSignature>)
        ensures
            ({
                let key = hybrid::SecretKey::key_bytes(self);
                match signature {
                    Some(s) => {
                        &&& hybrid::SecretKey::usable(self)
                        &&& ecdsa::signature(key.take(32), LABEL@ + message@) == Some(
                            s.ecdsa_part(),
                        )
                        &&& s.dilithium_part() == dilithium::signature(
                            key.skip(32),
                            dilithium_message(message@, s.ecdsa_part()),
                        )
                        &&& forall|public: SoftwareHybridPublicKey| #[trigger]
                            hybrid::SecretKey::owns(self, public)
                                ==> hybrid::PublicKey::accepts(&public, message@, s)
                    },
                    None => !hybrid::SecretKey::usable(self) || !hybrid::SecretKey::signs(
                        self,
                        message@,
                    ),
                }
            }),
    {
        if hybrid::SecretKey::is_usable(self) {
            hybrid::SecretKey::sign(self, message)
        } else {
            None
        }
    }
}

impl hybrid::PublicKey for SoftwareHybridPublicKey {
    type Signature = SoftwareHybridSignature;

    open spec fn accepts(&self, message: Seq<u8>, signature: SoftwareHybridSignature) -> bool {
        &&& ecdsa::accepts(self.ecdsa_coordinates(), LABEL@ + message, signature.ecdsa_part())
        &&& dilithium::dilithium_verify(
            self.dilithium_bytes(),
            dilithium_message(message, signature.ecdsa_part()),
            signature.dilithium_part(),
        )
    }

    closed spec fn ecdsa_coordinates(&self) -> (Seq<u8>, Seq<u8>) {
        self.ecdsa_pk@
    }

    closed spec fn dilithium_bytes(&self) -> Seq<u8> {
        self.dilithium_pk@
    }

    fn verify(&self, message: &[u8], signature: &SoftwareHybridSignature) -> (valid: bool) {
        proof {
            use_type_invariant(self);
            use_type_invariant(signature);
        }
        let sig: [u8; DILITHIUM_SIG_SIZE] = bytes::to_array(signature.dilithium_signature.as_slice());
        self.ecdsa_pk.verify_vartime(ecdsa_input(message).as_slice(), &signature.ecdsa_signature)
            && dilithium::verify(
            &self.dilithium_pk,
            dilithium_input(message, &signature.ecdsa_signature).as_slice(),
            &sig,
        )
    }

    fn ecdsa_to_coordinates(&self, x: &mut [u8; EC_FIELD_SIZE], y: &mut [u8; EC_FIELD_SIZE]) {
        self.ecdsa_pk.to_coordinates(x, y);
    }

    fn dilithium_to_bytes(&self, bytes: &mut [u8; DILITHIUM_PUB_SIZE]) {
        *bytes = self.dilithium_pk;
    }
}

impl hybrid::Signature for SoftwareHybridSignature {
    open spec fn der(self) -> Seq<u8> {
        ecdsa::der_signature(self.ecdsa_part()) + self.dilithium_part()
    }

    fn into_der(self) -> (der: Vec<u8>) {
        let mut der: Vec<u8> = self.ecdsa_signature.to_asn1_der();
        bytes::append(&mut der, self.dilithium_signature.as_slice());
        der
    }
}

/// SHA-256 of data that comes in parts.
pub struct SoftwareSha256 {
    data: Vec<u8>,
}

impl View for SoftwareSha256 {
    type V = Seq<u8>;

    /// The data that came so far.
    closed spec fn view(&self) -> Seq<u8> {
        self.data@
    }
}

impl SoftwareSha256 {
    /// Starts with no data.
    pub fn new() -> (hasher: Self)
        ensures
            hasher@ == Seq::<u8>::empty(),
    {
        SoftwareSha256 { data: Vec::new() }
    }

    /// Takes the next part of the data.
    pub fn update(&mut self, data: &[u8])
        ensures
            final(self)@ == old(self)@ + data@,
    {
        bytes::append(&mut self.data, data);
    }

    /// Writes the hash of the data that came.
    pub fn finalize(self, output: &mut [u8; HASH_SIZE])
        ensures
            final(output)@ == sha256::sha256(self@),
    {
        *output = sha256::hash(self.data.as_slice());
    }
}

/// HMAC-SHA-256.
pub struct SoftwareHmac256;

impl SoftwareHmac256 {
    /// Writes the HMAC of data.
    pub fn mac(key: &[u8; HMAC_KEY_SIZE], data: &[u8], output: &mut [u8; HASH_SIZE])
        ensures
            final(output)@ == hmac::hmac_sha256(key@, data@),
    {
        *output = hmac::hmac_256(key, data);
    }

    /// Whether `mac` is the HMAC of data.
    pub fn verify(key: &[u8; HMAC_KEY_SIZE], data: &[u8], mac: &[u8; HASH_SIZE]) -> (valid: bool)
        ensures
            valid == (hmac::hmac_sha256(key@, data@) == mac@),
    {
        hmac::verify_hmac_256(key, data, mac)
    }

    /// Whether `mac` is the first half of the HMAC of data.
    pub fn verify_truncated_left(
        key: &[u8; HMAC_KEY_SIZE],
        data: &[u8],
        mac: &[u8; TRUNCATED_HMAC_SIZE],
    ) -> (valid: bool)
        ensures
            valid == (hmac::hmac_sha256(key@, data@).take(16) == mac@),
    {
        hmac::verify_hmac_256_first_128bits(key, data, mac)
    }
}

/// HKDF-SHA-256.
pub struct SoftwareHkdf256;

impl SoftwareHkdf256 {
    /// Derives 32 bytes.
    pub fn hkdf_256(ikm: &[u8], salt: &[u8; HASH_SIZE], info: &[u8], okm: &mut [u8; HASH_SIZE])
        ensures
            final(okm)@ == hkdf::hkdf_sha256(ikm@, salt@, info@),
    {
        hkdf::hkdf_256(ikm, salt, info, okm);
    }
}

/// AES-256 with one key.
pub struct SoftwareAes256 {
    key: [u8; 32],
}

impl View for SoftwareAes256 {
    type V = Seq<u8>;

    /// The key.
    closed spec fn view(&self) -> Seq<u8> {
        self.key@
    }
}

impl SoftwareAes256 {
    /// Takes a key.
    pub fn new(key: &[u8; 32]) -> (aes: Self)
        ensures
            aes@ == key@,
    {
        SoftwareAes256 { key: *key }
    }

    /// Encrypts a block.
    pub fn encrypt_block(&self, block: &mut [u8; 16])
        ensures
            final(block)@ == aes256::aes_enc(self@, old(block)@),
            aes256::aes_dec(self@, final(block)@) == old(block)@,
    {
        *block = aes256::encrypt_block(&self.key, block);
    }

    /// Decrypts a block.
    pub fn decrypt_block(&self, block: &mut [u8; 16])
        ensures
            final(block)@ == aes256::aes_dec(self@, old(block)@),
            aes256::aes_enc(self@, final(block)@) == old(block)@,
    {
        *block = aes256::decrypt_block(&self.key, block);
    }

    /// Encrypts whole blocks, each chained to the one before.
    pub fn encrypt_cbc(&self, iv: &[u8; 16], plaintext: &mut [u8])
        requires
            old(plaintext)@.len() % 16 == 0,
        ensures
            final(plaintext)@ == cbc::cbc_enc(self@, iv@, old(plaintext)@),
            cbc::cbc_dec(self@, iv@, final(plaintext)@) == old(plaintext)@,
    {
        let encrypted: Vec<u8> = cbc::cbc_encrypt(&self.key, iv, plaintext);
        overwrite(plaintext, encrypted.as_slice());
    }

    /// Decrypts whole blocks, each chained to the one before.
    pub fn decrypt_cbc(&self, iv: &[u8; 16], ciphertext: &mut [u8])
        requires
            old(ciphertext)@.len() % 16 == 0,
        ensures
            final(ciphertext)@ == cbc::cbc_dec(self@, iv@, old(ciphertext)@),
            cbc::cbc_enc(self@, iv@, final(ciphertext)@) == old(ciphertext)@,
    {
        let plain: Vec<u8> = cbc::cbc_decrypt(&self.key, iv, ciphertext);
        overwrite(ciphertext, plain.as_slice());
    }
}

/// Overwrites bytes with as many others.
fn overwrite(target: &mut [u8], source: &[u8])
    requires
        old(target)@.len() == source@.len(),
    ensures
        final(target)@ == source@,
{
    let mut i: usize = 0;
    while i < source.len()
        invariant
            i <= source@.len(),
            target@.len() == source@.len(),
            forall|j: int| 0 <= j < i ==> target@[j] == source@[j],
        decreases source@.len() - i,
    {
        target[i] = source[i];
        i += 1;
    }
    assert(target@ =~= source@);
}

} // verus!
