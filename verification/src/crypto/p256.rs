//! The curve NIST P-256: scalars, points, and the calls that compute on them.

use crypto::elliptic_curve::ecdh::diffie_hellman;
use crypto::elliptic_curve::sec1::{FromEncodedPoint, ToEncodedPoint};
use crypto::signature::hazmat::{PrehashSigner, PrehashVerifier};
use vstd::prelude::*;

verus! {

/// The number of bytes of a coordinate or a scalar.
pub const EC_FIELD_SIZE: usize = 32;

/// The number of bytes of a signature: two scalars.
pub const EC_SIGNATURE_SIZE: usize = 64;

/// The prime of the field that coordinates lie in.
pub open spec fn field_prime() -> nat {
    0xffffffff00000001000000000000000000000000ffffffffffffffffffffffffnat
}

/// The order of the group of points.
pub open spec fn group_order() -> nat {
    0xffffffff00000000ffffffffffffffffbce6faada7179e84f3b9cac2fc632551nat
}

/// The constant term of the curve equation.
pub open spec fn curve_b() -> nat {
    0x5ac635d8aa3a93e7b3ebbd55769886bc651d06b0cc53b0f63bce3c3e27d2604bnat
}

/// Whether 32 bytes spell a nonzero scalar of the curve.
pub open spec fn is_scalar(bytes: Seq<u8>) -> bool {
    bytes.len() == 32 && 0 < crate::bytes::be_nat(bytes) < group_order()
}

/// Whether two byte strings of 32 bytes spell the coordinates of a point:
/// both are reduced, and they satisfy `y^2 = x^3 - 3x + b`.
pub open spec fn is_point(x: Seq<u8>, y: Seq<u8>) -> bool {
    let p = field_prime() as int;
    let nx = crate::bytes::be_nat(x) as int;
    let ny = crate::bytes::be_nat(y) as int;
    x.len() == 32 && y.len() == 32 && nx < p && ny < p && (ny * ny - (nx * nx * nx - 3 * nx
        + curve_b())) % p == 0
}

/// The coordinates of the generator times a scalar, one after the other, as
/// `p256::SecretKey::public_key` computes them.
pub uninterp spec fn p256_public_point(scalar: Seq<u8>) -> [u8; 64];

/// The first coordinate of a point times a scalar, as
/// `elliptic_curve::ecdh::diffie_hellman` computes it on P-256.
pub uninterp spec fn p256_shared_x(scalar: Seq<u8>, x: Seq<u8>, y: Seq<u8>) -> [u8; 32];

/// The ECDSA signature of a hash under a scalar with the nonce of RFC 6979, as
/// `p256::ecdsa::SigningKey::sign_prehash` computes it; `None` if one of its
/// two halves would be zero.
pub uninterp spec fn p256_sign(scalar: Seq<u8>, hash: Seq<u8>) -> Option<[u8; 64]>;

/// Whether `p256::ecdsa::VerifyingKey::verify_prehash` accepts the signature
/// `r`, `s` of a hash under the point `x`, `y`.
pub uninterp spec fn p256_verify(
    x: Seq<u8>,
    y: Seq<u8>,
    hash: Seq<u8>,
    r: Seq<u8>,
    s: Seq<u8>,
) -> bool;

/// Calls `p256::SecretKey::from_slice`, which accepts 32 bytes exactly when
/// they spell a number above zero and below the group order.
#[verifier::external_body]
pub(crate) fn valid_scalar(bytes: &[u8; 32]) -> (valid: bool)
    ensures
        valid == is_scalar(bytes@),
{
    p256::SecretKey::from_slice(bytes).is_ok()
}

/// Calls `p256::PublicKey::from_encoded_point` on an uncompressed point, which
/// accepts it exactly when both coordinates are reduced and the curve equation
/// holds.
#[verifier::external_body]
pub(crate) fn valid_point(x: &[u8; 32], y: &[u8; 32]) -> (valid: bool)
    ensures
        valid == is_point(x@, y@),
{
    let point = p256::EncodedPoint::from_affine_coordinates(x.into(), y.into(), false);
    p256::PublicKey::from_encoded_point(&point).is_some().into()
}

/// Calls `p256::SecretKey::public_key`: the result is a function of the scalar,
/// and a point of the curve.
#[verifier::external_body]
pub(crate) fn public_point(scalar: &[u8; 32]) -> (point: [u8; 64])
    requires
        is_scalar(scalar@),
    ensures
        point == p256_public_point(scalar@),
        is_point(point@.take(32), point@.skip(32)),
{
    let key = p256::SecretKey::from_slice(scalar).unwrap();
    let point = key.public_key().to_encoded_point(false);
    point.as_bytes()[1..].try_into().unwrap()
}

/// Calls `elliptic_curve::ecdh::diffie_hellman`: the shared coordinate is a
/// function of the scalar and the point. Where the point is the public one of
/// another scalar, that scalar and the public point of this one share the same
/// coordinate: both are the generator times both scalars.
#[verifier::external_body]
pub(crate) fn shared_x(scalar: &[u8; 32], x: &[u8; 32], y: &[u8; 32]) -> (shared: [u8; 32])
    requires
        is_scalar(scalar@),
        is_point(x@, y@),
    ensures
        shared == p256_shared_x(scalar@, x@, y@),
        forall|other: Seq<u8>|
            is_scalar(other) && (#[trigger] p256_public_point(other))@ == x@ + y@ ==> shared
                == p256_shared_x(
                other,
                p256_public_point(scalar@)@.take(32),
                p256_public_point(scalar@)@.skip(32),
            ),
{
    let key = p256::SecretKey::from_slice(scalar).unwrap();
    let point = p256::EncodedPoint::from_affine_coordinates(x.into(), y.into(), false);
    let public = p256::PublicKey::from_encoded_point(&point).unwrap();
    let shared = diffie_hellman(key.to_nonzero_scalar(), public.as_affine());
    (*shared.raw_secret_bytes()).into()
}

/// Calls `p256::ecdsa::SigningKey::sign_prehash`: the signature is a function
/// of the scalar and the hash. Where there is one, its halves are nonzero
/// scalars, and it verifies under the public point of the scalar.
#[verifier::external_body]
pub(crate) fn sign_prehash(scalar: &[u8; 32], hash: &[u8; 32]) -> (signature: Option<[u8; 64]>)
    requires
        is_scalar(scalar@),
    ensures
        signature == p256_sign(scalar@, hash@),
        signature matches Some(rs) ==> {
            &&& is_scalar(rs@.take(32))
            &&& is_scalar(rs@.skip(32))
            &&& p256_verify(
                p256_public_point(scalar@)@.take(32),
                p256_public_point(scalar@)@.skip(32),
                hash@,
                rs@.take(32),
                rs@.skip(32),
            )
        },
{
    let key = p256::ecdsa::SigningKey::from_slice(scalar).unwrap();
    let signature: Result<p256::ecdsa::Signature, _> = key.sign_prehash(hash);
    match signature {
        Ok(rs) => Some(rs.to_bytes().into()),
        Err(_) => None,
    }
}

/// Calls `p256::ecdsa::VerifyingKey::verify_prehash`: the answer is a function
/// of the point, the hash and the signature.
#[verifier::external_body]
pub(crate) fn verify_prehash(
    x: &[u8; 32],
    y: &[u8; 32],
    hash: &[u8; 32],
    r: &[u8; 32],
    s: &[u8; 32],
) -> (valid: bool)
    requires
        is_point(x@, y@),
        is_scalar(r@),
        is_scalar(s@),
    ensures
        valid == p256_verify(x@, y@, hash@, r@, s@),
{
    let point = p256::EncodedPoint::from_affine_coordinates(x.into(), y.into(), false);
    let key = p256::ecdsa::VerifyingKey::from_encoded_point(&point).unwrap();
    let signature = p256::ecdsa::Signature::from_scalars(*r, *s).unwrap();
    key.verify_prehash(hash, &signature).is_ok()
}

/// A nonzero scalar of the curve.
#[derive(Clone, Copy, Debug, PartialEq, Eq)]
pub struct Scalar {
    bytes: [u8; 32],
}

impl View for Scalar {
    type V = Seq<u8>;

    closed spec fn view(&self) -> Seq<u8> {
        self.bytes@
    }
}

impl Scalar {
    #[verifier::type_invariant]
    pub(crate) closed spec fn valid(self) -> bool {
        is_scalar(self.bytes@)
    }

    /// The bytes of a scalar spell one.
    pub(crate) proof fn lemma_valid(self)
        requires
            self.valid(),
        ensures
            is_scalar(self@),
    {
    }

    /// The scalar that 32 bytes spell, most significant byte first. There is
    /// none for zero and for numbers that reach the group order.
    pub fn from_bytes(bytes: &[u8; 32]) -> (scalar: Option<Scalar>)
        ensures
            scalar is Some <==> is_scalar(bytes@),
            scalar matches Some(s) ==> s@ == bytes@,
    {
        if valid_scalar(bytes) {
            Some(Scalar { bytes: *bytes })
        } else {
            None
        }
    }

    /// The bytes that spell the scalar.
    pub fn to_bytes(&self) -> (bytes: [u8; 32])
        ensures
            bytes@ == self@,
            is_scalar(self@),
    {
        proof {
            use_type_invariant(self);
        }
        self.bytes
    }
}

} // verus!
