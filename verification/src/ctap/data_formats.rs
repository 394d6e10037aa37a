//! The data that requests and responses are made of.

use crate::crypto::ecdh;
use crate::crypto::ecdsa;
use crate::ctap::status_code::Ctap2StatusCode;
use vstd::prelude::*;
use vstd::slice::slice_to_vec;

verus! {

/// A relying party.
#[derive(Clone, Debug, PartialEq, Eq)]
pub struct PublicKeyCredentialRpEntity {
    pub rp_id: String,
    pub rp_name: Option<String>,
    pub rp_icon: Option<String>,
}

/// A user.
#[derive(Clone, Debug, PartialEq, Eq)]
pub struct PublicKeyCredentialUserEntity {
    pub user_id: Vec<u8>,
    pub user_name: Option<String>,
    pub user_display_name: Option<String>,
    pub user_icon: Option<String>,
}

/// What kind of credential is meant.
#[derive(Clone, Copy, Debug, PartialEq, Eq, Structural)]
pub enum PublicKeyCredentialType {
    PublicKey,
    /// Any kind that is not known here. Such credentials are passed over.
    Unknown,
}

/// Which algorithm signs.
#[derive(Clone, Copy, Debug, PartialEq, Eq, Structural)]
pub enum SignatureAlgorithm {
    ES256,
    /// Any algorithm that is not known here.
    Unknown,
}

impl SignatureAlgorithm {
    /// The number that COSE gives the algorithm; zero, which it gives to none,
    /// for an algorithm that is not known here.
    pub open spec fn number(self) -> int {
        match self {
            SignatureAlgorithm::ES256 => -7,
            SignatureAlgorithm::Unknown => 0,
        }
    }

    /// The number that COSE gives the algorithm.
    pub fn to_i64(self) -> (number: i64)
        ensures
            number == self.number(),
    {
        match self {
            SignatureAlgorithm::ES256 => -7,
            SignatureAlgorithm::Unknown => 0,
        }
    }
}

/// A kind of credential, and the algorithm that it signs with.
#[derive(Clone, Copy, Debug, PartialEq, Eq, Structural)]
pub struct PublicKeyCredentialParameter {
    pub cred_type: PublicKeyCredentialType,
    pub alg: SignatureAlgorithm,
}

/// How an authenticator is reached.
#[derive(Clone, Copy, Debug, PartialEq, Eq, Structural)]
pub enum AuthenticatorTransport {
    Usb,
    Nfc,
    Ble,
    Internal,
}

/// A credential that a relying party names.
#[derive(Clone, Debug, PartialEq, Eq)]
pub struct PublicKeyCredentialDescriptor {
    pub key_type: PublicKeyCredentialType,
    pub key_id: Vec<u8>,
    pub transports: Option<Vec<AuthenticatorTransport>>,
}

/// When a credential may be used and found, from the loosest rule to the
/// strictest.
#[derive(Clone, Copy, Debug, PartialEq, Eq, Structural)]
pub enum CredentialProtectionPolicy {
    UserVerificationOptional,
    UserVerificationOptionalWithCredentialIdList,
    UserVerificationRequired,
}

impl CredentialProtectionPolicy {
    /// The number of the policy: the higher, the stricter.
    pub open spec fn level(self) -> u64 {
        match self {
            CredentialProtectionPolicy::UserVerificationOptional => 1,
            CredentialProtectionPolicy::UserVerificationOptionalWithCredentialIdList => 2,
            CredentialProtectionPolicy::UserVerificationRequired => 3,
        }
    }

    /// The number of the policy: the higher, the stricter.
    pub fn to_level(self) -> (level: u64)
        ensures
            level == self.level(),
    {
        match self {
            CredentialProtectionPolicy::UserVerificationOptional => 1,
            CredentialProtectionPolicy::UserVerificationOptionalWithCredentialIdList => 2,
            CredentialProtectionPolicy::UserVerificationRequired => 3,
        }
    }
}

/// The extensions that a credential may be made with.
#[derive(Clone, Copy, Debug, PartialEq, Eq, Structural)]
pub struct MakeCredentialExtensions {
    pub hmac_secret: bool,
    pub cred_protect: Option<CredentialProtectionPolicy>,
}

/// The extensions that a credential may be used with.
#[derive(Clone, Debug, PartialEq, Eq)]
pub struct GetAssertionExtensions {
    pub hmac_secret: Option<GetAssertionHmacSecretInput>,
}

/// What the hmac-secret extension is asked to compute on.
#[derive(Clone, Debug, PartialEq, Eq)]
pub struct GetAssertionHmacSecretInput {
    pub key_agreement: CoseKey,
    pub salt_enc: Vec<u8>,
    pub salt_auth: Vec<u8>,
}

/// Options for making a credential.
#[derive(Clone, Copy, Debug, PartialEq, Eq, Structural)]
pub struct MakeCredentialOptions {
    pub rk: bool,
    pub uv: bool,
}

/// Options for using a credential.
#[derive(Clone, Copy, Debug, PartialEq, Eq, Structural)]
pub struct GetAssertionOptions {
    pub up: bool,
    pub uv: bool,
}

/// What attests that a credential was made here.
#[derive(Clone, Debug, PartialEq, Eq)]
pub struct PackedAttestationStatement {
    pub alg: i64,
    pub sig: Vec<u8>,
    pub x5c: Option<Vec<Vec<u8>>>,
    pub ecdaa_key_id: Option<Vec<u8>>,
}

/// What a request about the PIN asks for.
#[derive(Clone, Copy, Debug, PartialEq, Eq, Structural)]
pub enum ClientPinSubCommand {
    GetPinRetries,
    GetKeyAgreement,
    SetPin,
    ChangePin,
    GetPinToken,
    GetPinUvAuthTokenUsingUvWithPermissions,
    GetUvRetries,
    SetMinPinLength,
    GetPinUvAuthTokenUsingPinWithPermissions,
}

/// A credential with all that is kept of it.
#[derive(Debug, PartialEq, Eq)]
pub struct PublicKeyCredentialSource {
    pub key_type: PublicKeyCredentialType,
    pub credential_id: Vec<u8>,
    pub private_key: ecdsa::SecKey,
    pub rp_id: String,
    pub user_handle: Vec<u8>,
    pub other_ui: Option<String>,
    pub cred_random: Option<Vec<u8>>,
    pub cred_protect_policy: Option<CredentialProtectionPolicy>,
}

/// What a credential source holds.
pub struct CredentialModel {
    pub key_type: PublicKeyCredentialType,
    pub credential_id: Seq<u8>,
    pub private_key: Seq<u8>,
    pub rp_id: Seq<char>,
    pub user_handle: Seq<u8>,
    pub other_ui: Option<Seq<char>>,
    pub cred_random: Option<Seq<u8>>,
    pub cred_protect_policy: Option<CredentialProtectionPolicy>,
}

/// The text that an optional string holds.
pub open spec fn text_model(s: Option<String>) -> Option<Seq<char>> {
    match s {
        Some(t) => Some(t@),
        None => None,
    }
}

/// The bytes that an optional byte string holds.
pub open spec fn bytes_model(s: Option<Vec<u8>>) -> Option<Seq<u8>> {
    match s {
        Some(t) => Some(t@),
        None => None,
    }
}

impl View for PublicKeyCredentialSource {
    type V = CredentialModel;

    open spec fn view(&self) -> CredentialModel {
        CredentialModel {
            key_type: self.key_type,
            credential_id: self.credential_id@,
            private_key: self.private_key@,
            rp_id: self.rp_id@,
            user_handle: self.user_handle@,
            other_ui: text_model(self.other_ui),
            cred_random: bytes_model(self.cred_random),
            cred_protect_policy: self.cred_protect_policy,
        }
    }
}

impl CredentialModel {
    /// Whether the credential may be found by a request that does not name it.
    pub open spec fn discoverable(self) -> bool {
        self.cred_protect_policy is None || self.cred_protect_policy == Some(
            CredentialProtectionPolicy::UserVerificationOptional,
        )
    }

    /// Whether the credential may only be used once the user is verified.
    pub open spec fn needs_verification(self) -> bool {
        self.cred_protect_policy == Some(CredentialProtectionPolicy::UserVerificationRequired)
    }
}

impl Clone for PublicKeyCredentialSource {
    fn clone(&self) -> (copy: Self)
        ensures
            copy@ == self@,
    {
        PublicKeyCredentialSource {
            key_type: self.key_type,
            credential_id: slice_to_vec(self.credential_id.as_slice()),
            private_key: self.private_key,
            rp_id: self.rp_id.clone(),
            user_handle: slice_to_vec(self.user_handle.as_slice()),
            other_ui: match &self.other_ui {
                Some(s) => Some(s.clone()),
                None => None,
            },
            cred_random: match &self.cred_random {
                Some(s) => Some(slice_to_vec(s.as_slice())),
                None => None,
            },
            cred_protect_policy: self.cred_protect_policy,
        }
    }
}

impl PublicKeyCredentialSource {
    /// Whether the credential may be found by a request that does not name it.
    pub fn is_discoverable(&self) -> (discoverable: bool)
        ensures
            discoverable == self@.discoverable(),
    {
        match self.cred_protect_policy {
            None => true,
            Some(policy) => policy == CredentialProtectionPolicy::UserVerificationOptional,
        }
    }
}

/// A public key for key agreement: the coordinates that a client sent, not
/// known to be those of a point yet.
#[derive(Clone, Copy, Debug, PartialEq, Eq)]
pub struct CoseKey {
    pub x: [u8; 32],
    pub y: [u8; 32],
}

impl CoseKey {
    /// The coordinates of a public key.
    pub fn from(key: ecdh::PubKey) -> (cose: CoseKey)
        ensures
            (cose.x@, cose.y@) == key@,
            crate::crypto::p256::is_point(cose.x@, cose.y@),
    {
        let mut x: [u8; 32] = [0u8; 32];
        let mut y: [u8; 32] = [0u8; 32];
        key.to_coordinates(&mut x, &mut y);
        CoseKey { x, y }
    }

    /// The public key with the coordinates, if they are those of a point.
    pub fn try_into(self) -> (key: Result<ecdh::PubKey, Ctap2StatusCode>)
        ensures
            match key {
                Ok(k) => crate::crypto::p256::is_point(self.x@, self.y@) && k@ == (self.x@, self.y@),
                Err(e) => !crate::crypto::p256::is_point(self.x@, self.y@) && e
                    == Ctap2StatusCode::CTAP1_ERR_INVALID_PARAMETER,
            },
    {
        match ecdh::PubKey::from_coordinates(&self.x, &self.y) {
            Some(key) => Ok(key),
            None => Err(Ctap2StatusCode::CTAP1_ERR_INVALID_PARAMETER),
        }
    }
}

} // verus!
