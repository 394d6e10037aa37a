//! Making credentials.

use crate::bytes;
use crate::cbor::builder;
use crate::cbor::model;
use crate::cbor::model::{Item, Value};
use crate::cbor::writer;
use crate::crypto::ecdsa;
use crate::crypto::p256;
use crate::crypto::rng256::Rng256;
use crate::crypto::sha256;
use crate::ctap::command::{AuthenticatorMakeCredentialParameters, MakeCredentialModel};
use crate::ctap::credential_id;
use crate::ctap::data_formats::{
    CredentialModel, CredentialProtectionPolicy, PackedAttestationStatement,
    PublicKeyCredentialParameter, PublicKeyCredentialSource, PublicKeyCredentialType,
    SignatureAlgorithm,
};
use crate::ctap::hid::ChannelID;
use crate::ctap::key_material::AAGUID;
use crate::ctap::parse;
use crate::ctap::pin;
use crate::ctap::response::{AuthenticatorMakeCredentialResponse, ResponseData};
use crate::ctap::state;
use crate::ctap::state::{CtapState, StateModel, DEFAULT_CRED_PROTECT};
use crate::ctap::status_code::Ctap2StatusCode;
use crate::ctap::storage;
use crate::ctap::storage::StoreModel;
use crate::text;
use vstd::prelude::*;
use vstd::slice::{slice_subrange, slice_to_vec};

verus! {

/// Whether a client accepts the one kind of credential that is made.
pub open spec fn accepts_es256(list: Seq<PublicKeyCredentialParameter>) -> bool {
    exists|i: int| 0 <= i < list.len() && state::is_es256(#[trigger] list[i])
}

/// Whether a client accepts the one kind of credential that is made.
fn contains_es256(list: &Vec<PublicKeyCredentialParameter>) -> (contains: bool)
    ensures
        contains == accepts_es256(list@),
{
    let mut i: usize = 0;
    while i < list.len()
        invariant
            i <= list@.len(),
            forall|j: int| 0 <= j < i ==> !state::is_es256(#[trigger] list@[j]),
        decreases list@.len() - i,
    {
        if list[i] == state::es256_cred_param() {
            return true;
        }
        i += 1;
    }
    false
}

/// The level of a policy; that of the loosest where there is none.
pub open spec fn level_of(policy: Option<CredentialProtectionPolicy>) -> u64 {
    match policy {
        Some(p) => p.level(),
        None => CredentialProtectionPolicy::UserVerificationOptional.level(),
    }
}

/// The policy of a credential: the one that is asked for, unless the one by
/// default is stricter.
pub open spec fn effective_policy(
    asked: Option<CredentialProtectionPolicy>,
    default: Option<CredentialProtectionPolicy>,
) -> Option<CredentialProtectionPolicy> {
    if level_of(asked) < level_of(default) {
        default
    } else {
        asked
    }
}

/// The policy of a credential.
pub fn choose_policy(
    asked: Option<CredentialProtectionPolicy>,
    default: Option<CredentialProtectionPolicy>,
) -> (policy: Option<CredentialProtectionPolicy>)
    ensures
        policy == effective_policy(asked, default),
{
    let asked_level: u64 = match asked {
        Some(p) => p.to_level(),
        None => CredentialProtectionPolicy::UserVerificationOptional.to_level(),
    };
    let default_level: u64 = match default {
        Some(p) => p.to_level(),
        None => CredentialProtectionPolicy::UserVerificationOptional.to_level(),
    };
    if asked_level < default_level {
        default
    } else {
        asked
    }
}

/// Whether the hmac-secret extension is asked for.
pub open spec fn uses_hmac(params: MakeCredentialModel) -> bool {
    params.extensions matches Some(e) && e.hmac_secret
}

/// The policy that the credential gets.
pub open spec fn policy(params: MakeCredentialModel) -> Option<
    CredentialProtectionPolicy,
> {
    match params.extensions {
        Some(e) => effective_policy(e.cred_protect, DEFAULT_CRED_PROTECT),
        None => None,
    }
}

/// Whether the answer speaks of extensions.
pub open spec fn has_extension(params: MakeCredentialModel) -> bool {
    uses_hmac(params) || policy(params) is Some
}

/// Whether the hmac-secret extension is asked for.
fn asks_for_hmac(params: &AuthenticatorMakeCredentialParameters) -> (asks: bool)
    ensures
        asks == uses_hmac(params@),
{
    match &params.extensions {
        Some(e) => e.hmac_secret,
        None => false,
    }
}

/// The policy that the credential gets.
fn policy_for(params: &AuthenticatorMakeCredentialParameters) -> (chosen: Option<
    CredentialProtectionPolicy,
>)
    ensures
        chosen == policy(params@),
{
    match &params.extensions {
        Some(e) => choose_policy(e.cred_protect, DEFAULT_CRED_PROTECT),
        None => None,
    }
}

/// Why a request is refused that asks for what is not on offer.
pub open spec fn request_refusal(
    state: StateModel,
    params: MakeCredentialModel,
) -> Option<Ctap2StatusCode> {
    match pin::auth_param_refusal(state, params.pin_uv_auth_param, params.pin_uv_auth_protocol) {
        Some(code) => Some(code),
        None => if !accepts_es256(params.pub_key_cred_params) {
            Some(Ctap2StatusCode::CTAP2_ERR_UNSUPPORTED_ALGORITHM)
        } else if uses_hmac(params) && !params.options.rk {
            Some(Ctap2StatusCode::CTAP2_ERR_UNSUPPORTED_EXTENSION)
        } else {
            None
        },
    }
}

/// Whether the client excludes a credential that is stored. Unless the request
/// is authenticated, those that need user verification do not count.
pub open spec fn excluded(state: StateModel, params: MakeCredentialModel) -> bool {
    params.exclude_list matches Some(list) && exists|i: int|
        0 <= i < list.len() && storage::found(
            state.store.credentials,
            params.rp.rp_id,
            (#[trigger] list[i]).key_id,
            params.pin_uv_auth_param is None,
        ) is Some
}

/// Why a request is refused by who makes it: with a PIN, it needs to be
/// authenticated; without one, it cannot be.
pub open spec fn verification_refusal(
    state: StateModel,
    params: MakeCredentialModel,
) -> Option<Ctap2StatusCode> {
    match params.pin_uv_auth_param {
        Some(pin_auth) => if state.store.pin_hash is None {
            Some(Ctap2StatusCode::CTAP2_ERR_PIN_NOT_SET)
        } else if !pin::authenticated(state.pin_token, params.client_data_hash, pin_auth) {
            Some(Ctap2StatusCode::CTAP2_ERR_PIN_AUTH_INVALID)
        } else {
            None
        },
        None => if state.store.pin_hash is Some {
            Some(Ctap2StatusCode::CTAP2_ERR_PIN_REQUIRED)
        } else if params.options.uv {
            Some(Ctap2StatusCode::CTAP2_ERR_INVALID_OPTION)
        } else {
            None
        },
    }
}

/// What is drawn to make a credential: its private key, 32 bytes for its ID,
/// and its secret for the hmac-secret extension.
pub struct Draws {
    pub private_key: Seq<u8>,
    pub id: Seq<u8>,
    pub cred_random: Option<Seq<u8>>,
}

/// The hash of the relying party's ID.
pub open spec fn rp_id_hash(rp_id: Seq<char>) -> Seq<u8> {
    sha256::sha256(vstd::utf8::encode_utf8(rp_id))
}

/// How many bytes of a user's name are stored.
pub const MAX_NAME_LENGTH: usize = 64;

/// The name that is stored of a user, cropped if it is long.
pub open spec fn stored_name(name: Option<Seq<char>>) -> Option<Seq<char>> {
    match name {
        Some(s) => Some(text::truncated(s, MAX_NAME_LENGTH as nat)),
        None => None,
    }
}

/// The credential that is stored.
pub open spec fn new_credential(
    params: MakeCredentialModel,
    draws: Draws,
) -> CredentialModel {
    CredentialModel {
        key_type: PublicKeyCredentialType::PublicKey,
        credential_id: draws.id,
        private_key: draws.private_key,
        rp_id: params.rp.rp_id,
        user_handle: params.user.user_id,
        other_ui: stored_name(params.user.user_display_name),
        cred_random: draws.cred_random,
        cred_protect_policy: policy(params),
    }
}

/// The ID of the new credential: drawn for one that is stored, and else one
/// that holds the credential.
pub open spec fn new_credential_id(
    state: StateModel,
    params: MakeCredentialModel,
    draws: Draws,
) -> Seq<u8> {
    if params.options.rk {
        draws.id
    } else {
        credential_id::key_handle(
            state.store,
            draws.id.take(16),
            draws.private_key,
            rp_id_hash(params.rp.rp_id),
        )
    }
}

/// What tells of a credential: the model of authenticator, the credential's ID
/// behind its length, and its public key.
pub open spec fn credential_data(id: Seq<u8>, public_key: (Seq<u8>, Seq<u8>)) -> Seq<u8> {
    AAGUID@ + seq![0u8, id.len() as u8] + id + model::encode(
        ecdsa::cose_item(ecdsa::ES256_NEGATED, public_key.0, public_key.1),
    )
}

/// What tells of a credential. Its ID has to fit into 255 bytes.
pub fn attested_credential_data(id: &[u8], public_key: &ecdsa::PubKey) -> (data: Result<
    Vec<u8>,
    Ctap2StatusCode,
>)
    ensures
        match data {
            Ok(d) => id@.len() <= 0xff && d@ == credential_data(id@, public_key@),
            Err(e) => id@.len() > 0xff && e == Ctap2StatusCode::CTAP2_ERR_VENDOR_RESPONSE_TOO_LONG,
        },
{
    if id.len() > 0xff {
        return Err(Ctap2StatusCode::CTAP2_ERR_VENDOR_RESPONSE_TOO_LONG);
    }
    let mut data: Vec<u8> = slice_to_vec(&AAGUID);
    data.push(0x00);
    data.push(id.len() as u8);
    bytes::append(&mut data, id);
    let cose_key: Vec<u8> = match public_key.to_cose_key() {
        Some(key) => key,
        None => {
            return Err(Ctap2StatusCode::CTAP2_ERR_VENDOR_RESPONSE_CANNOT_WRITE_CBOR);
        },
    };
    bytes::append(&mut data, cose_key.as_slice());
    assert(data@ =~= credential_data(id@, public_key@));
    Ok(data)
}

/// What the answer says of extensions.
pub open spec fn extension_item(
    hmac_secret: bool,
    policy: Option<CredentialProtectionPolicy>,
) -> Item {
    Item::Table(
        builder::optional_entry(
            Item::TextString("credProtect"@),
            match policy {
                Some(p) => Some(Item::Unsigned(p.level())),
                None => None,
            },
        ) + builder::optional_entry(
            Item::TextString("hmac-secret"@),
            if hmac_secret {
                Some(builder::bool_item(true))
            } else {
                None
            },
        ),
    )
}

/// What the answer says of extensions.
fn extension_value(hmac_secret: bool, policy: Option<CredentialProtectionPolicy>) -> (value: Value)
    ensures
        value@ == extension_item(hmac_secret, policy),
        model::nested_at_most(value@, 4),
{
    let mut pairs: Vec<(Value, Value)> = Vec::new();
    let protect: Option<Value> = match policy {
        Some(p) => Some(Value::Unsigned(p.to_level())),
        None => None,
    };
    let hmac: Option<Value> = if hmac_secret {
        Some(builder::boolean(true))
    } else {
        None
    };
    proof {
        builder::lemma_optional_monotone(hmac, 0, 3);
    }
    builder::push_optional(&mut pairs, builder::text("credProtect"), protect);
    builder::push_optional(&mut pairs, builder::text("hmac-secret"), hmac);
    assert(builder::flat(pairs@, 3));
    assert(model::entries(pairs@) =~= extension_item(hmac_secret, policy)->Table_0);
    Value::Table(pairs)
}

/// The data that the new credential is attested in.
pub open spec fn new_auth_data(
    state: StateModel,
    params: MakeCredentialModel,
    draws: Draws,
) -> Seq<u8> {
    state::auth_data(
        rp_id_hash(params.rp.rp_id),
        state::flag_byte(
            true,
            params.pin_uv_auth_param is Some,
            true,
            has_extension(params),
        ),
        state.store.counter,
    ) + credential_data(
        new_credential_id(state, params, draws),
        ecdsa::public_key(draws.private_key),
    ) + (if has_extension(params) {
        model::encode(extension_item(uses_hmac(params), policy(params)))
    } else {
        Seq::empty()
    })
}

/// A key that attests a batch of authenticators, with its certificate.
pub struct BatchKey {
    pub key: ecdsa::SecKey,
    pub certificate: Vec<u8>,
}

/// Whether a statement attests to data, if there is one.
pub open spec fn attests(
    private_key: Seq<u8>,
    batch: Option<BatchKey>,
    data: Seq<u8>,
    statement: Option<PackedAttestationStatement>,
) -> bool {
    let signer = match batch {
        Some(b) => b.key@,
        None => private_key,
    };
    match (statement, ecdsa::signature(signer, data)) {
        (Some(s), Some(sig)) => {
            &&& s.alg == -7
            &&& s.sig@ == ecdsa::der_signature(sig)
            &&& ecdsa::accepts(ecdsa::public_key(signer), data, sig)
            &&& s.ecdaa_key_id is None
            &&& match (batch, s.x5c) {
                (Some(b), Some(x5c)) => x5c@.len() == 1 && x5c@[0]@ == b.certificate@,
                (None, None) => true,
                _ => false,
            }
        },
        (None, None) => true,
        _ => false,
    }
}

/// Attests to data: with the key of the batch where there is one, and else with
/// the key of the credential itself. There is no statement if there is no
/// signature.
pub fn attest(private_key: &ecdsa::SecKey, batch: Option<BatchKey>, data: &[u8]) -> (statement:
    Option<PackedAttestationStatement>)
    ensures
        ({
            let signer = match batch {
                Some(b) => b.key@,
                None => private_key@,
            };
            match (statement, ecdsa::signature(signer, data@)) {
                (Some(s), Some(sig)) => {
                    &&& s.alg == -7
                    &&& s.sig@ == ecdsa::der_signature(sig)
                    &&& ecdsa::accepts(ecdsa::public_key(signer), data@, sig)
                    &&& s.ecdaa_key_id is None
                    &&& match (batch, s.x5c) {
                        (Some(b), Some(x5c)) => x5c@.len() == 1 && x5c@[0]@ == b.certificate@,
                        (None, None) => true,
                        _ => false,
                    }
                },
                (None, None) => true,
                _ => false,
            }
        }),
        attests(private_key@, batch, data@, statement),
{
    let (signer, x5c): (ecdsa::SecKey, Option<Vec<Vec<u8>>>) = match batch {
        Some(b) => {
            let mut certificates: Vec<Vec<u8>> = Vec::new();
            certificates.push(b.certificate);
            (b.key, Some(certificates))
        },
        None => (*private_key, None),
    };
    match signer.sign_rfc6979(data) {
        Some(signature) => Some(
            PackedAttestationStatement {
                alg: SignatureAlgorithm::ES256.to_i64(),
                sig: signature.to_asn1_der(),
                x5c,
                ecdaa_key_id: None,
            },
        ),
        None => None,
    }
}

/// Whether a result holds a new credential with the given data and signature.
pub open spec fn is_made(
    result: Result<ResponseData, Ctap2StatusCode>,
    auth_data: Seq<u8>,
    signature: (Seq<u8>, Seq<u8>),
) -> bool {
    result matches Ok(ResponseData::AuthenticatorMakeCredential(r)) && {
        &&& r.fmt@ == "packed"@
        &&& r.auth_data@ == auth_data
        &&& r.att_stmt.alg == -7
        &&& r.att_stmt.sig@ == ecdsa::der_signature(signature)
        &&& r.att_stmt.x5c is None
        &&& r.att_stmt.ecdaa_key_id is None
    }
}

/// What comes of a request that was not refused, once the user was present and
/// everything was drawn. The signature of a new credential is accepted by its
/// public key, and the ID of one that is not stored gives its private key back.
pub open spec fn made_with(
    pre: StateModel,
    params: MakeCredentialModel,
    draws: Draws,
    result: Result<ResponseData, Ctap2StatusCode>,
    post: StateModel,
) -> bool {
    let credential = new_credential(params, draws);
    if params.options.rk && !storage::can_store(pre.store.credentials, credential) {
        result == Err::<ResponseData, _>(Ctap2StatusCode::CTAP2_ERR_KEY_STORE_FULL) && post == pre
    } else {
        let auth_data = new_auth_data(pre, params, draws);
        let signed = auth_data + params.client_data_hash;
        &&& post == (if params.options.rk {
            pin::with_store(
                pre,
                StoreModel {
                    credentials: storage::with_credential(pre.store.credentials, credential),
                    ..pre.store
                },
            )
        } else {
            pre
        })
        &&& !params.options.rk ==> credential_id::opened(
            pre.store,
            new_credential_id(pre, params, draws),
            rp_id_hash(params.rp.rp_id),
        ) == Some(draws.private_key)
        &&& match ecdsa::signature(draws.private_key, signed) {
            Some(signature) => {
                &&& is_made(result, auth_data, signature)
                &&& ecdsa::accepts(ecdsa::public_key(draws.private_key), signed, signature)
            },
            None => result == Err::<ResponseData, _>(Ctap2StatusCode::CTAP1_ERR_OTHER),
        }
    }
}

/// Whether a request draws a secret first: it does where it asks for the
/// hmac-secret extension.
pub open spec fn drew_secret<R: Rng256>(
    rng: R,
    params: MakeCredentialModel,
    secret: Option<Seq<u8>>,
    after: R,
) -> bool {
    match secret {
        Some(s) => uses_hmac(params) && s.len() == 32 && rng.draws(s, after),
        None => !uses_hmac(params) && after == rng,
    }
}

/// Whether a private key and then an ID were drawn.
pub open spec fn drew_credential<R: Rng256>(rng: R, draws: Draws, after: R) -> bool {
    &&& p256::is_scalar(draws.private_key)
    &&& draws.id.len() == 32
    &&& exists|between: R| #[trigger]
        rng.draws_scalar(draws.private_key, between) && between.draws(draws.id, after)
}

/// What a request for a credential does that asks for what is on offer, once
/// its secret was drawn if it needs one. Nothing more is drawn if it is refused.
pub open spec fn did_make_offered<
    R: Rng256,
    C: Fn(ChannelID) -> Result<(), Ctap2StatusCode>,
>(
    pre: StateModel,
    rng: R,
    check: C,
    cid: ChannelID,
    params: MakeCredentialModel,
    secret: Option<Seq<u8>>,
    result: Result<ResponseData, Ctap2StatusCode>,
    post: StateModel,
    after: R,
) -> bool {
    if excluded(pre, params) {
        exists|presence: Result<(), Ctap2StatusCode>| #[trigger]
            call_ensures(check, (cid,), presence) && post == pre && after == rng && result == Err::<
                ResponseData,
                _,
            >(
                match presence {
                    Ok(_) => Ctap2StatusCode::CTAP2_ERR_CREDENTIAL_EXCLUDED,
                    Err(e) => e,
                },
            )
    } else if let Some(code) = verification_refusal(pre, params) {
        result == Err::<ResponseData, _>(code) && post == pre && after == rng
    } else {
        exists|presence: Result<(), Ctap2StatusCode>| #[trigger]
            call_ensures(check, (cid,), presence) && match presence {
                Err(e) => result == Err::<ResponseData, _>(e) && post == pre && after == rng,
                Ok(_) => exists|draws: Draws|
                    draws.cred_random == secret && drew_credential(rng, draws, after)
                        && #[trigger] made_with(pre, params, draws, result, post),
            }
    }
}

/// What a request for a credential does.
pub open spec fn did_make_credential<
    R: Rng256,
    C: Fn(ChannelID) -> Result<(), Ctap2StatusCode>,
>(
    pre: StateModel,
    rng: R,
    check: C,
    cid: ChannelID,
    params: MakeCredentialModel,
    result: Result<ResponseData, Ctap2StatusCode>,
    post: StateModel,
    after: R,
) -> bool {
    if let Some(code) = request_refusal(pre, params) {
        result == Err::<ResponseData, _>(code) && post == pre && after == rng
    } else {
        exists|secret: Option<Seq<u8>>, first: R| #[trigger]
            drew_secret(rng, params, secret, first) && did_make_offered(
                pre,
                first,
                check,
                cid,
                params,
                secret,
                result,
                post,
                after,
            )
    }
}

impl<'a, R, CheckUserPresence> CtapState<'a, R, CheckUserPresence> where
    R: Rng256,
    CheckUserPresence: Fn(ChannelID) -> Result<(), Ctap2StatusCode>,
 {
    /// Whether the client excludes a credential that is stored.
    fn is_excluded(&self, params: &AuthenticatorMakeCredentialParameters) -> (answer: bool)
        ensures
            answer == excluded(self@, params@),
    {
        if let Some(list) = &params.exclude_list {
            let ghost names = params@.exclude_list->Some_0;
            let mut i: usize = 0;
            while i < list.len()
                invariant
                    i <= list@.len(),
                    params.exclude_list == Some(*list),
                    names == parse::views(list@),
                    forall|j: int|
                        0 <= j < i ==> storage::found(
                            self@.store.credentials,
                            params.rp.rp_id@,
                            (#[trigger] names[j]).key_id,
                            params.pin_uv_auth_param is None,
                        ) is None,
                decreases list@.len() - i,
            {
                assert(names[i as int] == list@[i as int]@);
                if self.persistent_store.find_credential(
                    params.rp.rp_id.as_str(),
                    list[i].key_id.as_slice(),
                    params.pin_uv_auth_param.is_none(),
                ).is_some() {
                    return true;
                }
                i += 1;
            }
        }
        false
    }

    /// Checks who makes a request.
    fn check_verification(&self, params: &AuthenticatorMakeCredentialParameters) -> (result: Result<
        (),
        Ctap2StatusCode,
    >)
        ensures
            match result {
                Ok(_) => verification_refusal(self@, params@) is None,
                Err(e) => verification_refusal(self@, params@) == Some(e),
            },
    {
        match &params.pin_uv_auth_param {
            Some(pin_auth) => {
                if self.persistent_store.pin_hash().is_none() {
                    return Err(Ctap2StatusCode::CTAP2_ERR_PIN_NOT_SET);
                }
                if !pin::check_pin_auth(
                    &self.pin_uv_auth_token,
                    params.client_data_hash.as_slice(),
                    pin_auth.as_slice(),
                ) {
                    return Err(Ctap2StatusCode::CTAP2_ERR_PIN_AUTH_INVALID);
                }
            },
            None => {
                if self.persistent_store.pin_hash().is_some() {
                    return Err(Ctap2StatusCode::CTAP2_ERR_PIN_REQUIRED);
                }
                if params.options.uv {
                    return Err(Ctap2StatusCode::CTAP2_ERR_INVALID_OPTION);
                }
            },
        }
        Ok(())
    }

    /// Checks what a request asks for.
    fn check_request(&self, params: &AuthenticatorMakeCredentialParameters) -> (result: Result<
        (),
        Ctap2StatusCode,
    >)
        ensures
            match result {
                Ok(_) => request_refusal(self@, params@) is None,
                Err(e) => request_refusal(self@, params@) == Some(e),
            },
    {
        self.check_auth_param(&params.pin_uv_auth_param, params.pin_uv_auth_protocol)?;
        if !contains_es256(&params.pub_key_cred_params) {
            return Err(Ctap2StatusCode::CTAP2_ERR_UNSUPPORTED_ALGORITHM);
        }
        if asks_for_hmac(params) && !params.options.rk {
            return Err(Ctap2StatusCode::CTAP2_ERR_UNSUPPORTED_EXTENSION);
        }
        Ok(())
    }

    /// Makes a credential, for a request that was not refused, out of what was
    /// drawn: its private key, 32 bytes for its ID, and its secret for the
    /// hmac-secret extension.
    pub fn make_credential_with(
        &mut self,
        params: &AuthenticatorMakeCredentialParameters,
        private_key: ecdsa::SecKey,
        id: [u8; 32],
        cred_random: Option<Vec<u8>>,
    ) -> (result: Result<ResponseData, Ctap2StatusCode>)
        requires
            old(self)@.valid(),
        ensures
            final(self)@.valid(),
            final(self).check_user_presence == old(self).check_user_presence,
            *final(self).rng == *old(self).rng,
            made_with(
                old(self)@,
                params@,
                (Draws {
                    private_key: private_key@,
                    id: id@,
                    cred_random: crate::ctap::data_formats::bytes_model(cred_random),
                }),
                result,
                final(self)@,
            ),
    {
        let ghost pre = self@;
        let ghost draws = Draws {
            private_key: private_key@,
            id: id@,
            cred_random: crate::ctap::data_formats::bytes_model(cred_random),
        };
        let use_hmac: bool = asks_for_hmac(params);
        let cred_protect_policy: Option<CredentialProtectionPolicy> = policy_for(params);
        let has_extension_output: bool = use_hmac || cred_protect_policy.is_some();
        let hash: [u8; 32] = sha256::hash(params.rp.rp_id.as_str().as_bytes());
        let credential_id: Vec<u8> = if params.options.rk {
            let source = PublicKeyCredentialSource {
                key_type: PublicKeyCredentialType::PublicKey,
                credential_id: slice_to_vec(&id),
                private_key,
                rp_id: params.rp.rp_id.clone(),
                user_handle: slice_to_vec(params.user.user_id.as_slice()),
                other_ui: match &params.user.user_display_name {
                    Some(name) => Some(
                        text::truncate_to_char_boundary(
                            name.as_str(),
                            MAX_NAME_LENGTH,
                        ).to_owned(),
                    ),
                    None => None,
                },
                cred_random,
                cred_protect_policy,
            };
            assert(source@ == new_credential(params@, draws));
            match self.persistent_store.store_credential(source) {
                Ok(_) => {},
                Err(e) => {
                    return Err(e);
                },
            }
            slice_to_vec(&id)
        } else {
            let iv: [u8; 16] = bytes::to_array(slice_subrange(&id, 0, 16));
            assert(iv@ =~= id@.take(16));
            self.encrypt_key_handle_with(&iv, private_key, &hash)
        };
        assert(credential_id@ == new_credential_id(pre, params@, draws));
        let flags: u8 = state::make_flags(
            true,
            params.pin_uv_auth_param.is_some(),
            true,
            has_extension_output,
        );
        let mut auth_data: Vec<u8> = self.generate_auth_data(&hash, flags);
        let public_key: ecdsa::PubKey = private_key.genpk();
        let data: Vec<u8> = attested_credential_data(credential_id.as_slice(), &public_key)?;
        bytes::append(&mut auth_data, data.as_slice());
        if has_extension_output {
            if !writer::write(extension_value(use_hmac, cred_protect_policy), &mut auth_data) {
                return Err(Ctap2StatusCode::CTAP2_ERR_VENDOR_RESPONSE_CANNOT_WRITE_CBOR);
            }
        }
        assert(auth_data@ =~= new_auth_data(pre, params@, draws));
        let signature_data: Vec<u8> = bytes::concat(
            auth_data.as_slice(),
            params.client_data_hash.as_slice(),
        );
        match attest(&private_key, None, signature_data.as_slice()) {
            Some(att_stmt) => Ok(
                ResponseData::AuthenticatorMakeCredential(
                    AuthenticatorMakeCredentialResponse {
                        fmt: "packed".to_owned(),
                        auth_data,
                        att_stmt,
                    },
                ),
            ),
            None => Err(Ctap2StatusCode::CTAP1_ERR_OTHER),
        }
    }

    /// Answers a request for a credential.
    pub fn process_make_credential(
        &mut self,
        params: AuthenticatorMakeCredentialParameters,
        cid: ChannelID,
    ) -> (result: Result<ResponseData, Ctap2StatusCode>)
        requires
            old(self)@.valid(),
            call_requires(old(self).check_user_presence, (cid,)),
        ensures
            final(self)@.valid(),
            final(self).check_user_presence == old(self).check_user_presence,
            did_make_credential(
                old(self)@,
                *old(self).rng,
                old(self).check_user_presence,
                cid,
                params@,
                result,
                final(self)@,
                *final(self).rng,
            ),
    {
        self.check_request(&params)?;
        let ghost start = *self.rng;
        let cred_random: Option<Vec<u8>> = if asks_for_hmac(&params) {
            let drawn: [u8; 32] = self.rng.gen_uniform_u8x32();
            Some(slice_to_vec(&drawn))
        } else {
            None
        };
        let ghost secret = crate::ctap::data_formats::bytes_model(cred_random);
        let ghost first = *self.rng;
        assert(drew_secret(start, params@, secret, first));
        if self.is_excluded(&params) {
            // Without this, exclude lists could be tried out behind the
            // user's back.
            let presence: Result<(), Ctap2StatusCode> = (self.check_user_presence)(cid);
            match presence {
                Ok(_) => {
                    return Err(Ctap2StatusCode::CTAP2_ERR_CREDENTIAL_EXCLUDED);
                },
                Err(e) => {
                    return Err(e);
                },
            }
        }
        self.check_verification(&params)?;
        let presence: Result<(), Ctap2StatusCode> = (self.check_user_presence)(cid);
        match presence {
            Ok(_) => {},
            Err(e) => {
                return Err(e);
            },
        }
        let private_key: ecdsa::SecKey = ecdsa::SecKey::gensk(self.rng);
        let ghost second = *self.rng;
        let id: [u8; 32] = self.rng.gen_uniform_u8x32();
        let ghost draws = Draws {
            private_key: private_key@,
            id: id@,
            cred_random: crate::ctap::data_formats::bytes_model(cred_random),
        };
        assert(first.draws_scalar(draws.private_key, second));
        assert(drew_credential(first, draws, *self.rng));
        self.make_credential_with(&params, private_key, id, cred_random)
    }
}

} // verus!
