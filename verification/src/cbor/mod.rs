//! The subset of CBOR that the authenticator speaks, in canonical form.

pub mod builder;
pub mod laws;
pub mod model;
pub mod reader;
pub mod writer;
