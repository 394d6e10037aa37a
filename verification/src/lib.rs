//! A FIDO2 authenticator: commands, credentials, PIN protocol and the
//! cryptography under them.

pub mod bytes;
pub mod cbor;
pub mod crypto;
pub mod ctap;
pub mod text;
