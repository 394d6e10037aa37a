//! Cryptography.

pub mod aes256;
pub mod cbc;
pub(crate) mod ct_eq;
pub mod dilithium;
pub mod ecdh;
pub mod ecdsa;
pub mod hkdf;
pub mod hmac;
pub mod hybrid;
pub mod laws;
pub mod p256;
pub mod rng256;
pub mod sha256;
pub mod shake;
pub mod software_crypto;
