//! Signatures of which both an ECDSA and a Dilithium key have to accept their
//! part.

use crate::crypto::dilithium::DILITHIUM_PUB_SIZE;
use crate::crypto::p256::EC_FIELD_SIZE;
use crate::crypto::rng256::Rng256;
use vstd::prelude::*;

verus! {

/// The size of a signing key: an ECDSA key and a seed for a Dilithium key.
pub const HYBRID_SIZE: usize = 64;

/// Container for all hybrid ECDSA and Dilithium cryptographic material.
pub trait Hybrid {
    type SecretKey: SecretKey<PublicKey = Self::PublicKey, Signature = Self::Signature>;

    type PublicKey: PublicKey<Signature = Self::Signature>;

    type Signature: Signature;
}

/// Hybrid ECDSA and Dilithium signing key.
pub trait SecretKey: Sized {
    type PublicKey: PublicKey<Signature = Self::Signature>;

    type Signature: Signature;

    /// The bytes that stand for the key.
    spec fn key_bytes(&self) -> Seq<u8>;

    /// Whether bytes stand for a key.
    spec fn is_key(bytes: Seq<u8>) -> bool;

    /// Whether a verifying key belongs to the key.
    spec fn owns(&self, public: Self::PublicKey) -> bool;

    /// Whether the key can be used: whether its verifying key can be computed.
    spec fn usable(&self) -> bool;

    /// Whether there is a signature of a message.
    spec fn signs(&self, message: Seq<u8>) -> bool;

    /// Generates a new random signing key.
    fn random<R: Rng256>(rng: &mut R) -> (key: Self)
        ensures
            Self::is_key(key.key_bytes()),
    ;

    /// Creates a signing key from its representation in bytes.
    fn from_slice(bytes: &[u8; HYBRID_SIZE]) -> (key: Option<Self>)
        ensures
            key is Some <==> Self::is_key(bytes@),
            key matches Some(k) ==> k.key_bytes() == bytes@,
    ;

    /// Tells whether the key can be used.
    fn is_usable(&self) -> (usable: bool)
        ensures
            usable == self.usable(),
    ;

    /// Computes the verifying key that belongs to the key.
    fn public_key(&self) -> (public: Self::PublicKey)
        requires
            self.usable(),
        ensures
            self.owns(public),
    ;

    /// Signs the message, if there is a signature. The verifying key accepts
    /// it.
    fn sign(&self, message: &[u8]) -> (signature: Option<Self::Signature>)
        requires
            self.usable(),
        ensures
            signature is Some <==> self.signs(message@),
            signature matches Some(s) ==> forall|public: Self::PublicKey| #[trigger]
                self.owns(public) ==> public.accepts(message@, s),
    ;

    /// Writes the bytes of the key. They stand for a key.
    fn to_slice(&self, bytes: &mut [u8; HYBRID_SIZE])
        ensures
            final(bytes)@ == self.key_bytes(),
            Self::is_key(self.key_bytes()),
    ;
}

/// Hybrid ECDSA and Dilithium verifying key.
pub trait PublicKey: Sized {
    type Signature: Signature;

    /// Whether the key accepts a signature of a message.
    spec fn accepts(&self, message: Seq<u8>, signature: Self::Signature) -> bool;

    /// The coordinates of the ECDSA key.
    spec fn ecdsa_coordinates(&self) -> (Seq<u8>, Seq<u8>);

    /// The bytes of the Dilithium key.
    spec fn dilithium_bytes(&self) -> Seq<u8>;

    /// Verifies if the signature matches the message.
    fn verify(&self, message: &[u8], signature: &Self::Signature) -> (valid: bool)
        ensures
            valid == self.accepts(message@, *signature),
    ;

    /// Writes the coordinates of the ECDSA key.
    fn ecdsa_to_coordinates(&self, x: &mut [u8; EC_FIELD_SIZE], y: &mut [u8; EC_FIELD_SIZE])
        ensures
            (final(x)@, final(y)@) == self.ecdsa_coordinates(),
    ;

    /// Writes the bytes of the Dilithium key.
    fn dilithium_to_bytes(&self, bytes: &mut [u8; DILITHIUM_PUB_SIZE])
        ensures
            final(bytes)@ == self.dilithium_bytes(),
    ;
}

/// Hybrid ECDSA and Dilithium signature.
pub trait Signature: Sized {
    /// The encoding of the signature.
    spec fn der(self) -> Seq<u8>;

    /// Encodes the signature: the ECDSA part as ASN.1 DER, the Dilithium part
    /// behind it.
    fn into_der(self) -> (der: Vec<u8>)
        ensures
            der@ == self.der(),
    ;
}

} // verus!
