//! ECDSA over P-256 with SHA-256.

use crate::bytes;
use crate::cbor::model::Value;
use crate::cbor::{model, writer};
use crate::crypto::p256;
use crate::crypto::p256::Scalar;
use crate::crypto::rng256::Rng256;
use crate::crypto::sha256;
use vstd::prelude::*;
use vstd::slice::slice_subrange;

verus! {

/// The coordinates of the public key of a secret key.
pub open spec fn public_key(secret: Seq<u8>) -> (Seq<u8>, Seq<u8>) {
    let point = p256::p256_public_point(secret)@;
    (point.take(32), point.skip(32))
}

/// The signature of a message, if there is one.
pub open spec fn signature(secret: Seq<u8>, message: Seq<u8>) -> Option<(Seq<u8>, Seq<u8>)> {
    match p256::p256_sign(secret, sha256::sha256(message)) {
        Some(rs) => Some((rs@.take(32), rs@.skip(32))),
        None => None,
    }
}

/// Whether a public key accepts a signature of a hash.
pub open spec fn accepts_hash(
    public: (Seq<u8>, Seq<u8>),
    hash: Seq<u8>,
    signature: (Seq<u8>, Seq<u8>),
) -> bool {
    p256::p256_verify(public.0, public.1, hash, signature.0, signature.1)
}

/// Whether a public key accepts a signature of a message.
pub open spec fn accepts(
    public: (Seq<u8>, Seq<u8>),
    message: Seq<u8>,
    signature: (Seq<u8>, Seq<u8>),
) -> bool {
    accepts_hash(public, sha256::sha256(message), signature)
}

/// The COSE key of a point, for the algorithm `-1 - alg`.
pub open spec fn cose_item(alg: u64, x: Seq<u8>, y: Seq<u8>) -> model::Item {
    model::Item::Table(
        seq![
            (model::Item::Unsigned(1), model::Item::Unsigned(2)),
            (model::Item::Unsigned(3), model::Item::Negative(alg)),
            (model::Item::Negative(0), model::Item::Unsigned(1)),
            (model::Item::Negative(1), model::Item::ByteString(x)),
            (model::Item::Negative(2), model::Item::ByteString(y)),
        ],
    )
}

/// The COSE key of a point, for the algorithm `-1 - alg`.
pub(crate) fn cose_value(alg: u64, x: &[u8; 32], y: &[u8; 32]) -> (value: Value)
    ensures
        value@ == cose_item(alg, x@, y@),
        model::nested_at_most(value@, 1),
{
    let pairs: Vec<(Value, Value)> = vec![
        (Value::Unsigned(1), Value::Unsigned(2)),
        (Value::Unsigned(3), Value::Negative(alg)),
        (Value::Negative(0), Value::Unsigned(1)),
        (Value::Negative(1), Value::ByteString(vstd::slice::slice_to_vec(x))),
        (Value::Negative(2), Value::ByteString(vstd::slice::slice_to_vec(y))),
    ];
    proof {
        model::lemma_entries_index(pairs@);
        assert(model::entries(pairs@) =~= cose_item(alg, x@, y@)->Table_0);
        let list = cose_item(alg, x@, y@)->Table_0;
        model::lemma_entries_nested(list, 0);
    }
    Value::Table(pairs)
}

/// COSE names the algorithm ES256 by the number -7.
pub const ES256_NEGATED: u64 = 6;

/// A signing key.
#[derive(Clone, Copy, Debug, PartialEq, Eq)]
pub struct SecKey {
    scalar: Scalar,
}

/// A verifying key: a point of the curve.
#[derive(Clone, Copy, Debug, PartialEq, Eq)]
pub struct PubKey {
    x: [u8; 32],
    y: [u8; 32],
}

/// A signature.
#[derive(Clone, Copy, Debug, PartialEq, Eq)]
pub struct Signature {
    r: Scalar,
    s: Scalar,
}

impl View for SecKey {
    type V = Seq<u8>;

    closed spec fn view(&self) -> Seq<u8> {
        self.scalar@
    }
}

impl View for PubKey {
    type V = (Seq<u8>, Seq<u8>);

    closed spec fn view(&self) -> (Seq<u8>, Seq<u8>) {
        (self.x@, self.y@)
    }
}

impl View for Signature {
    type V = (Seq<u8>, Seq<u8>);

    closed spec fn view(&self) -> (Seq<u8>, Seq<u8>) {
        (self.r@, self.s@)
    }
}

impl SecKey {
    #[verifier::type_invariant]
    pub(crate) closed spec fn valid(self) -> bool {
        self.scalar.valid()
    }

    /// The bytes of a signing key spell a scalar.
    pub(crate) proof fn lemma_valid(self)
        requires
            self.valid(),
        ensures
            p256::is_scalar(self@),
    {
        self.scalar.lemma_valid();
    }

    /// Draws a signing key.
    pub fn gensk<R: Rng256>(rng: &mut R) -> (key: SecKey)
        ensures
            p256::is_scalar(key@),
            old(rng).draws_scalar(key@, *final(rng)),
    {
        let scalar: Scalar = rng.gen_uniform_scalar();
        proof {
            use_type_invariant(&scalar);
            scalar.lemma_valid();
        }
        SecKey { scalar }
    }

    /// The signing key that 32 bytes spell, if they spell one.
    pub fn from_bytes(bytes: &[u8; 32]) -> (key: Option<SecKey>)
        ensures
            key is Some <==> p256::is_scalar(bytes@),
            key matches Some(k) ==> k@ == bytes@,
    {
        match Scalar::from_bytes(bytes) {
            Some(scalar) => {
                proof {
                    use_type_invariant(&scalar);
                }
                Some(SecKey { scalar })
            },
            None => None,
        }
    }

    /// Writes the bytes that spell the key.
    pub fn to_bytes(&self, bytes: &mut [u8; 32])
        ensures
            final(bytes)@ == self@,
            p256::is_scalar(self@),
    {
        *bytes = self.scalar.to_bytes();
    }

    /// The verifying key that belongs to the key.
    pub fn genpk(&self) -> (key: PubKey)
        ensures
            key@ == public_key(self@),
            p256::is_scalar(self@),
    {
        let point: [u8; 64] = p256::public_point(&self.scalar.to_bytes());
        let x: [u8; 32] = bytes::to_array(slice_subrange(&point, 0, 32));
        let y: [u8; 32] = bytes::to_array(slice_subrange(&point, 32, 64));
        assert(x@ =~= point@.take(32));
        assert(y@ =~= point@.skip(32));
        PubKey { x, y }
    }

    /// Signs a message, with the nonce of RFC 6979. There is no signature if
    /// one of its halves would be zero. Where there is one, the verifying key
    /// accepts it.
    pub fn sign_rfc6979(&self, message: &[u8]) -> (sig: Option<Signature>)
        ensures
            p256::is_scalar(self@),
            sig is Some <==> signature(self@, message@) is Some,
            sig matches Some(s) ==> Some(s@) == signature(self@, message@) && accepts(
                public_key(self@),
                message@,
                s@,
            ),
    {
        let hash: [u8; 32] = sha256::hash(message);
        match p256::sign_prehash(&self.scalar.to_bytes(), &hash) {
            Some(rs) => {
                let r: [u8; 32] = bytes::to_array(slice_subrange(&rs, 0, 32));
                let s: [u8; 32] = bytes::to_array(slice_subrange(&rs, 32, 64));
                assert(r@ =~= rs@.take(32));
                assert(s@ =~= rs@.skip(32));
                match (Scalar::from_bytes(&r), Scalar::from_bytes(&s)) {
                    (Some(r), Some(s)) => Some(Signature { r, s }),
                    _ => None,
                }
            },
            None => None,
        }
    }
}

impl PubKey {
    #[verifier::type_invariant]
    spec fn valid(self) -> bool {
        p256::is_point(self.x@, self.y@)
    }

    /// The verifying key with these coordinates, if they are those of a point.
    pub fn from_coordinates(x: &[u8; 32], y: &[u8; 32]) -> (key: Option<PubKey>)
        ensures
            key is Some <==> p256::is_point(x@, y@),
            key matches Some(k) ==> k@ == (x@, y@),
    {
        if p256::valid_point(x, y) {
            Some(PubKey { x: *x, y: *y })
        } else {
            None
        }
    }

    /// Writes the coordinates of the key.
    pub fn to_coordinates(&self, x: &mut [u8; 32], y: &mut [u8; 32])
        ensures
            (final(x)@, final(y)@) == self@,
            p256::is_point(self@.0, self@.1),
    {
        proof {
            use_type_invariant(self);
        }
        *x = self.x;
        *y = self.y;
    }

    /// Whether the key accepts a signature of a message.
    pub fn verify_vartime(&self, message: &[u8], sig: &Signature) -> (valid: bool)
        ensures
            valid == accepts(self@, message@, sig@),
    {
        let hash: [u8; 32] = sha256::hash(message);
        self.verify_hash_vartime(&hash, sig)
    }

    /// Whether the key accepts a signature of a hash.
    pub fn verify_hash_vartime(&self, hash: &[u8; 32], sig: &Signature) -> (valid: bool)
        ensures
            valid == accepts_hash(self@, hash@, sig@),
    {
        proof {
            use_type_invariant(self);
        }
        p256::verify_prehash(&self.x, &self.y, hash, &sig.r.to_bytes(), &sig.s.to_bytes())
    }

    /// The key as an encoded COSE key for ES256. It can always be encoded.
    pub fn to_cose_key(&self) -> (encoded: Option<Vec<u8>>)
        ensures
            encoded matches Some(e) && e@ == model::encode(
                cose_item(ES256_NEGATED, self@.0, self@.1),
            ),
    {
        let value: Value = cose_value(ES256_NEGATED, &self.x, &self.y);
        let mut encoded: Vec<u8> = Vec::new();
        proof {
            model::lemma_nested_monotone(value@, 1, 4);
        }
        if writer::write(value, &mut encoded) {
            assert(encoded@ =~= model::encode(cose_item(ES256_NEGATED, self@.0, self@.1)));
            Some(encoded)
        } else {
            None
        }
    }
}

/// A byte string without its leading zeros.
pub open spec fn trimmed(s: Seq<u8>) -> Seq<u8>
    decreases s.len(),
{
    if s.len() > 0 && s[0] == 0 {
        trimmed(s.skip(1))
    } else {
        s
    }
}

/// The DER encoding of a number that is not negative, given by bytes that
/// spell it: as few bytes as possible, the first of them below 0x80.
pub open spec fn der_integer(s: Seq<u8>) -> Seq<u8> {
    let magnitude = trimmed(s);
    let contents = if magnitude.len() == 0 || magnitude[0] >= 0x80 {
        seq![0u8] + magnitude
    } else {
        magnitude
    };
    seq![0x02u8, contents.len() as u8] + contents
}

/// The DER encoding of a signature: a sequence of two numbers.
pub open spec fn der_signature(signature: (Seq<u8>, Seq<u8>)) -> Seq<u8> {
    let contents = der_integer(signature.0) + der_integer(signature.1);
    seq![0x30u8, contents.len() as u8] + contents
}

/// Appends the DER encoding of a number.
fn push_der_integer(out: &mut Vec<u8>, s: &[u8; 32])
    ensures
        final(out)@ == old(out)@ + der_integer(s@),
        der_integer(s@).len() <= 35,
{
    let mut start: usize = 0;
    assert(s@.skip(0) =~= s@);
    while start < 32 && s[start] == 0
        invariant
            start <= 32,
            trimmed(s@) == trimmed(s@.skip(start as int)),
        decreases 32 - start,
    {
        assert(s@.skip(start as int).skip(1) =~= s@.skip(start + 1));
        start += 1;
    }
    let ghost magnitude = s@.skip(start as int);
    let ghost before = out@;
    assert(trimmed(s@) == magnitude);
    let len: u8 = 32 - start as u8;
    out.push(0x02);
    if start == 32 || s[start] >= 0x80 {
        out.push(len + 1);
        out.push(0);
        bytes::append(out, slice_subrange(s, start, 32));
    } else {
        out.push(len);
        bytes::append(out, slice_subrange(s, start, 32));
    }
    assert(s@.subrange(start as int, 32) =~= magnitude);
    assert(out@ =~= before + der_integer(s@));
}

impl Signature {
    /// The signature that 64 bytes spell, if both halves are nonzero scalars.
    pub fn from_bytes(bytes: &[u8; 64]) -> (sig: Option<Signature>)
        ensures
            sig is Some <==> p256::is_scalar(bytes@.take(32)) && p256::is_scalar(bytes@.skip(32)),
            sig matches Some(s) ==> s@ == (bytes@.take(32), bytes@.skip(32)),
    {
        let r: [u8; 32] = bytes::to_array(slice_subrange(bytes, 0, 32));
        let s: [u8; 32] = bytes::to_array(slice_subrange(bytes, 32, 64));
        assert(r@ =~= bytes@.take(32));
        assert(s@ =~= bytes@.skip(32));
        match (Scalar::from_bytes(&r), Scalar::from_bytes(&s)) {
            (Some(r), Some(s)) => Some(Signature { r, s }),
            _ => None,
        }
    }

    /// Writes the two halves of the signature, one after the other.
    pub fn to_bytes(&self, bytes: &mut [u8; 64])
        ensures
            final(bytes)@ == self@.0 + self@.1,
            p256::is_scalar(self@.0),
            p256::is_scalar(self@.1),
    {
        let joined: Vec<u8> = bytes::concat(&self.r.to_bytes(), &self.s.to_bytes());
        *bytes = bytes::to_array(joined.as_slice());
    }

    /// The DER encoding of the signature.
    pub fn to_asn1_der(&self) -> (der: Vec<u8>)
        ensures
            der@ == der_signature(self@),
            der@.len() <= 72,
    {
        let mut contents: Vec<u8> = Vec::new();
        push_der_integer(&mut contents, &self.r.to_bytes());
        push_der_integer(&mut contents, &self.s.to_bytes());
        let mut der: Vec<u8> = vec![0x30, contents.len() as u8];
        bytes::append(&mut der, contents.as_slice());
        assert(der@ =~= der_signature(self@));
        der
    }
}

} // verus!
