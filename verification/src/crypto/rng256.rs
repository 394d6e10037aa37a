//! Randomness.

use crate::crypto::p256::Scalar;
use vstd::prelude::*;

verus! {

/// A source of randomness. Nothing is promised of how what it draws is
/// distributed. What a source may draw, and what state it is in then, has a
/// name, so that a contract can say that a value was drawn, and when. A source
/// that says nothing of itself may draw anything.
pub trait Rng256: Sized {
    /// Whether the source may draw these bytes, and be in state `after` then.
    open spec fn draws(self, bytes: Seq<u8>, after: Self) -> bool {
        true
    }

    /// Whether the source may draw the scalar that these bytes spell, and be in
    /// state `after` then.
    open spec fn draws_scalar(self, bytes: Seq<u8>, after: Self) -> bool {
        true
    }

    /// 32 bytes, drawn uniformly.
    fn gen_uniform_u8x32(&mut self) -> (bytes: [u8; 32])
        ensures
            old(self).draws(bytes@, *final(self)),
    ;

    /// A nonzero scalar of P-256, drawn uniformly. Draw 32 bytes until
    /// `Scalar::from_bytes` accepts them.
    fn gen_uniform_scalar(&mut self) -> (scalar: Scalar)
        ensures
            old(self).draws_scalar(scalar@, *final(self)),
    ;
}

} // verus!
