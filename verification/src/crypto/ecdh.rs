//! Diffie-Hellman key agreement over P-256.

use crate::bytes;
use crate::crypto::ecdsa;
use crate::crypto::p256;
use crate::crypto::p256::Scalar;
use crate::crypto::rng256::Rng256;
use crate::crypto::sha256;
use vstd::prelude::*;
use vstd::slice::slice_subrange;

verus! {

/// The coordinate that a secret key and a public key agree on.
pub open spec fn shared_coordinate(secret: Seq<u8>, public: (Seq<u8>, Seq<u8>)) -> Seq<u8> {
    p256::p256_shared_x(secret, public.0, public.1)@
}

/// The secret that is derived from that coordinate.
pub open spec fn shared_secret(secret: Seq<u8>, public: (Seq<u8>, Seq<u8>)) -> Seq<u8> {
    sha256::sha256(shared_coordinate(secret, public))
}

/// A secret key.
#[derive(Clone, Copy, Debug, PartialEq, Eq)]
pub struct SecKey {
    scalar: Scalar,
}

/// A public key: a point of the curve.
#[derive(Clone, Copy, Debug, PartialEq, Eq)]
pub struct PubKey {
    x: [u8; 32],
    y: [u8; 32],
}

impl View for SecKey {
    type V = Seq<u8>;

    closed spec fn view(&self) -> Seq<u8> {
        self.scalar@
    }
}

impl View for PubKey {
    type V = (Seq<u8>, Seq<u8>);

    closed spec fn view(&self) -> (Seq<u8>, Seq<u8>) {
        (self.x@, self.y@)
    }
}

impl SecKey {
    /// Draws a secret key.
    pub fn gensk<R: Rng256>(rng: &mut R) -> (key: SecKey)
        ensures
            p256::is_scalar(key@),
            old(rng).draws_scalar(key@, *final(rng)),
    {
        let scalar: Scalar = rng.gen_uniform_scalar();
        proof {
            use_type_invariant(&scalar);
            scalar.lemma_valid();
        }
        SecKey { scalar }
    }

    /// The secret key that a scalar is.
    pub fn from_scalar(scalar: Scalar) -> (key: SecKey)
        ensures
            key@ == scalar@,
    {
        SecKey { scalar }
    }

    /// The public key that belongs to the key.
    pub fn genpk(&self) -> (key: PubKey)
        ensures
            key@ == ecdsa::public_key(self@),
    {
        let point: [u8; 64] = p256::public_point(&self.scalar.to_bytes());
        let x: [u8; 32] = bytes::to_array(slice_subrange(&point, 0, 32));
        let y: [u8; 32] = bytes::to_array(slice_subrange(&point, 32, 64));
        assert(x@ =~= point@.take(32));
        assert(y@ =~= point@.skip(32));
        PubKey { x, y }
    }

    /// The coordinate that the key and a public key agree on. The owner of the
    /// public key comes to the same with the public key that belongs to the
    /// key.
    pub fn exchange_x(&self, other: &PubKey) -> (shared: [u8; 32])
        ensures
            shared@ == shared_coordinate(self@, other@),
            forall|owner: Seq<u8>|
                p256::is_scalar(owner) && other@ == #[trigger] ecdsa::public_key(owner) ==> shared@
                    == shared_coordinate(owner, ecdsa::public_key(self@)),
    {
        proof {
            use_type_invariant(other);
            assert forall|owner: Seq<u8>|
                other@ == #[trigger] ecdsa::public_key(owner) implies p256::p256_public_point(
                owner,
            )@ == other.x@ + other.y@ by {
                let point = p256::p256_public_point(owner)@;
                assert(point =~= point.take(32) + point.skip(32));
            }
        }
        p256::shared_x(&self.scalar.to_bytes(), &other.x, &other.y)
    }

    /// The secret that the key and a public key agree on. The owner of the
    /// public key comes to the same.
    pub fn exchange_x_sha256(&self, other: &PubKey) -> (shared: [u8; 32])
        ensures
            shared@ == shared_secret(self@, other@),
            forall|owner: Seq<u8>|
                p256::is_scalar(owner) && other@ == #[trigger] ecdsa::public_key(owner) ==> shared@
                    == shared_secret(owner, ecdsa::public_key(self@)),
    {
        let x: [u8; 32] = self.exchange_x(other);
        sha256::hash(&x)
    }
}

impl PubKey {
    #[verifier::type_invariant]
    spec fn valid(self) -> bool {
        p256::is_point(self.x@, self.y@)
    }

    /// The public key with these coordinates, if they are those of a point.
    pub fn from_coordinates(x: &[u8; 32], y: &[u8; 32]) -> (key: Option<PubKey>)
        ensures
            key is Some <==> p256::is_point(x@, y@),
            key matches Some(k) ==> k@ == (x@, y@),
    {
        if p256::valid_point(x, y) {
            Some(PubKey { x: *x, y: *y })
        } else {
            None
        }
    }

    /// Writes the coordinates of the key.
    pub fn to_coordinates(&self, x: &mut [u8; 32], y: &mut [u8; 32])
        ensures
            (final(x)@, final(y)@) == self@,
            p256::is_point(self@.0, self@.1),
    {
        proof {
            use_type_invariant(self);
        }
        *x = self.x;
        *y = self.y;
    }
}

} // verus!
