//! The PIN protocol.

use crate::bytes;
use crate::crypto::cbc;
use crate::crypto::ct_eq::ct_eq;
use crate::crypto::ecdh;
use crate::crypto::ecdsa;
use crate::crypto::hmac;
use crate::crypto::p256;
use crate::crypto::rng256::Rng256;
use crate::crypto::sha256;
use crate::ctap::command::{AuthenticatorClientPinParameters, ClientPinModel};
use crate::ctap::data_formats;
use crate::ctap::data_formats::{ClientPinSubCommand, CoseKey};
use crate::ctap::hid::ChannelID;
use crate::ctap::response::{AuthenticatorClientPinResponse, ResponseData};
use crate::ctap::state::{
    CtapState, StateModel, MAX_CONSECUTIVE_MISMATCHES, PIN_AUTH_LENGTH, PIN_PADDED_LENGTH,
    PIN_PROTOCOL_VERSION, PIN_TOKEN_LENGTH,
};
use crate::ctap::status_code::Ctap2StatusCode;
use crate::ctap::storage::{StoreModel, MAX_PIN_RETRIES};
use vstd::prelude::*;
use vstd::slice::{slice_subrange, slice_to_vec};

verus! {

/// Whether a request is authenticated: by the first half of the HMAC of its
/// contents.
pub open spec fn authenticated(
    hmac_key: Seq<u8>,
    hmac_contents: Seq<u8>,
    pin_auth: Seq<u8>,
) -> bool {
    pin_auth.len() == PIN_AUTH_LENGTH && hmac::hmac_sha256(hmac_key, hmac_contents).take(16)
        == pin_auth
}

/// Whether a request is authenticated.
pub fn check_pin_auth(hmac_key: &[u8], hmac_contents: &[u8], pin_auth: &[u8]) -> (valid: bool)
    ensures
        valid == authenticated(hmac_key@, hmac_contents@, pin_auth@),
{
    if pin_auth.len() != PIN_AUTH_LENGTH {
        return false;
    }
    let mac: [u8; 16] = bytes::to_array(pin_auth);
    hmac::verify_hmac_256_first_128bits(hmac_key, hmac_contents, &mac)
}

/// Why a request is refused by what it says of its authentication, before that
/// is checked.
pub open spec fn auth_param_refusal(
    state: StateModel,
    pin_uv_auth_param: Option<Seq<u8>>,
    pin_uv_auth_protocol: Option<u64>,
) -> Option<Ctap2StatusCode> {
    match pin_uv_auth_param {
        None => None,
        Some(param) => if param.len() == 0 {
            if state.store.pin_hash is None {
                Some(Ctap2StatusCode::CTAP2_ERR_PIN_NOT_SET)
            } else {
                Some(Ctap2StatusCode::CTAP2_ERR_PIN_INVALID)
            }
        } else {
            match pin_uv_auth_protocol {
                None => Some(Ctap2StatusCode::CTAP2_ERR_MISSING_PARAMETER),
                Some(protocol) => if protocol != PIN_PROTOCOL_VERSION {
                    Some(Ctap2StatusCode::CTAP2_ERR_PIN_AUTH_INVALID)
                } else {
                    None
                },
            }
        },
    }
}

/// Decryption with the vector that the PIN protocol asks for: all zeros.
pub open spec fn decrypted(secret: Seq<u8>, data: Seq<u8>) -> Seq<u8> {
    cbc::cbc_dec(secret, bytes::zeros(16), data)
}

/// Encryption with the vector that the PIN protocol asks for: all zeros.
pub open spec fn encrypted(secret: Seq<u8>, data: Seq<u8>) -> Seq<u8> {
    cbc::cbc_enc(secret, bytes::zeros(16), data)
}

/// Decrypts whole blocks with a shared secret.
pub(crate) fn decrypt(secret: &[u8; 32], data: &[u8]) -> (plain: Vec<u8>)
    requires
        data@.len() % 16 == 0,
    ensures
        plain@ == decrypted(secret@, data@),
        plain@.len() == data@.len(),
{
    let iv: [u8; 16] = [0u8; 16];
    assert(iv@ =~= bytes::zeros(16));
    cbc::cbc_decrypt(secret, &iv, data)
}

/// Encrypts whole blocks with a shared secret. What comes out decrypts to what
/// went in.
pub(crate) fn encrypt(secret: &[u8; 32], plain: &[u8]) -> (data: Vec<u8>)
    requires
        plain@.len() % 16 == 0,
    ensures
        data@ == encrypted(secret@, plain@),
        data@.len() == plain@.len(),
        decrypted(secret@, data@) == plain@,
{
    let iv: [u8; 16] = [0u8; 16];
    assert(iv@ =~= bytes::zeros(16));
    cbc::cbc_encrypt(secret, &iv, plain)
}

/// The HMACs of one or two salts of 32 bytes, one after the other.
pub open spec fn salted(cred_random: Seq<u8>, salts: Seq<u8>) -> Seq<u8> {
    if salts.len() == 32 {
        hmac::hmac_sha256(cred_random, salts)
    } else {
        hmac::hmac_sha256(cred_random, salts.take(32)) + hmac::hmac_sha256(
            cred_random,
            salts.skip(32),
        )
    }
}

/// Decrypts one or two salts, computes their HMACs with the secret of the
/// credential, and encrypts those.
pub fn encrypt_hmac_secret_output(
    shared_secret: &[u8; 32],
    salt_enc: &[u8],
    cred_random: &[u8],
) -> (output: Result<Vec<u8>, Ctap2StatusCode>)
    ensures
        match output {
            Ok(out) => {
                let outputs = salted(cred_random@, decrypted(shared_secret@, salt_enc@));
                &&& salt_enc@.len() == 32 || salt_enc@.len() == 64
                &&& cred_random@.len() == 32
                &&& out@ == encrypted(shared_secret@, outputs)
                &&& out@.len() == salt_enc@.len()
                &&& decrypted(shared_secret@, out@) == outputs
            },
            Err(e) => {
                &&& e == Ctap2StatusCode::CTAP2_ERR_UNSUPPORTED_EXTENSION
                &&& salt_enc@.len() != 32 && salt_enc@.len() != 64 || cred_random@.len() != 32
            },
        },
{
    if salt_enc.len() != 32 && salt_enc.len() != 64 {
        return Err(Ctap2StatusCode::CTAP2_ERR_UNSUPPORTED_EXTENSION);
    }
    if cred_random.len() != 32 {
        // At least 32 bytes are needed; exactly 32 are expected.
        return Err(Ctap2StatusCode::CTAP2_ERR_UNSUPPORTED_EXTENSION);
    }
    let salts: Vec<u8> = decrypt(shared_secret, salt_enc);
    let output1: [u8; 32] = hmac::hmac_256(cred_random, slice_subrange(salts.as_slice(), 0, 32));
    let mut outputs: Vec<u8> = slice_to_vec(&output1);
    assert(salts@.subrange(0, 32) =~= salts@.take(32));
    if salts.len() == 64 {
        let output2: [u8; 32] = hmac::hmac_256(
            cred_random,
            slice_subrange(salts.as_slice(), 32, 64),
        );
        assert(salts@.subrange(32, 64) =~= salts@.skip(32));
        bytes::append(&mut outputs, &output2);
    } else {
        assert(salts@.take(32) =~= salts@);
    }
    Ok(encrypt(shared_secret, outputs.as_slice()))
}

/// A byte string up to its first zero.
pub open spec fn until_zero(s: Seq<u8>) -> Seq<u8>
    decreases s.len(),
{
    if s.len() == 0 || s[0] == 0 {
        Seq::empty()
    } else {
        seq![s[0]] + until_zero(s.skip(1))
    }
}

/// The PIN in an encrypted, filled up PIN, if there is one that may be set: one
/// of at least 4 bytes, with a zero after it.
pub open spec fn new_pin(secret: Seq<u8>, new_pin_enc: Seq<u8>) -> Option<Seq<u8>> {
    let pin = until_zero(decrypted(secret, new_pin_enc));
    if new_pin_enc.len() != PIN_PADDED_LENGTH || pin.len() < 4 || pin.len() == PIN_PADDED_LENGTH {
        None
    } else {
        Some(pin)
    }
}

/// What is kept of a PIN.
pub open spec fn pin_digest(pin: Seq<u8>) -> Seq<u8> {
    sha256::sha256(pin).take(16)
}

/// A state with another store.
pub open spec fn with_store(state: StateModel, store: StoreModel) -> StateModel {
    StateModel { store, ..state }
}

/// A state in which one try for the PIN was taken.
pub open spec fn tried(state: StateModel) -> StateModel {
    with_store(
        state,
        StoreModel {
            pin_retries: if state.store.pin_retries == 0 {
                0
            } else {
                (state.store.pin_retries - 1) as u8
            },
            ..state.store
        },
    )
}

/// What the check of an encrypted PIN hash comes to.
pub enum PinCheck {
    /// The PIN is right.
    Right,
    /// The check was not made, or not to its end.
    Refused(Ctap2StatusCode),
    /// The PIN is wrong.
    Wrong,
}

/// What the check of an encrypted PIN hash comes to.
pub open spec fn pin_check(state: StateModel, secret: Seq<u8>, pin_hash_enc: Seq<u8>) -> PinCheck {
    match state.store.pin_hash {
        None => PinCheck::Refused(Ctap2StatusCode::CTAP2_ERR_PIN_REQUIRED),
        Some(pin_hash) => if state.mismatches >= MAX_CONSECUTIVE_MISMATCHES {
            PinCheck::Refused(Ctap2StatusCode::CTAP2_ERR_PIN_AUTH_BLOCKED)
        } else if pin_hash_enc.len() != PIN_AUTH_LENGTH {
            PinCheck::Refused(Ctap2StatusCode::CTAP2_ERR_PIN_INVALID)
        } else if decrypted(secret, pin_hash_enc) == pin_hash {
            PinCheck::Right
        } else {
            PinCheck::Wrong
        },
    }
}

/// Whether the check of a PIN takes a try.
pub open spec fn takes_try(state: StateModel) -> bool {
    state.store.pin_hash is Some && state.mismatches < MAX_CONSECUTIVE_MISMATCHES
}

/// What a wrong PIN is answered, by the state after the try was taken.
pub open spec fn mismatch_error(state: StateModel) -> Ctap2StatusCode {
    if state.store.pin_retries == 0 {
        Ctap2StatusCode::CTAP2_ERR_PIN_BLOCKED
    } else if state.mismatches + 1 >= MAX_CONSECUTIVE_MISMATCHES {
        Ctap2StatusCode::CTAP2_ERR_PIN_AUTH_BLOCKED
    } else {
        Ctap2StatusCode::CTAP2_ERR_PIN_INVALID
    }
}

/// The state after a wrong PIN, from the one after the try was taken: there is
/// a new key for key agreement, and the mismatch is counted unless no tries
/// are left.
pub open spec fn after_mismatch(state: StateModel, fresh_key: Seq<u8>) -> StateModel {
    StateModel {
        key_agreement_key: fresh_key,
        mismatches: if state.store.pin_retries == 0 {
            state.mismatches
        } else {
            (state.mismatches + 1) as u64
        },
        ..state
    }
}

/// The state after the right PIN: all tries are given back, and no mismatch is
/// counted.
pub open spec fn after_match(state: StateModel) -> StateModel {
    StateModel {
        mismatches: 0,
        ..with_store(state, StoreModel { pin_retries: MAX_PIN_RETRIES, ..state.store })
    }
}

/// The answer to an encrypted PIN hash, and the state after it, given the key
/// that is drawn if the PIN is wrong.
pub open spec fn pin_checked(
    state: StateModel,
    secret: Seq<u8>,
    pin_hash_enc: Seq<u8>,
    fresh_key: Seq<u8>,
) -> (Result<(), Ctap2StatusCode>, StateModel) {
    let after_try = if takes_try(state) {
        tried(state)
    } else {
        state
    };
    match pin_check(state, secret, pin_hash_enc) {
        PinCheck::Right => (Ok(()), after_match(state)),
        PinCheck::Refused(code) => (Err(code), after_try),
        PinCheck::Wrong => (Err(mismatch_error(after_try)), after_mismatch(after_try, fresh_key)),
    }
}

/// The state once a PIN was set.
pub open spec fn with_pin(state: StateModel, pin: Seq<u8>) -> StateModel {
    with_store(state, StoreModel { pin_hash: Some(pin_digest(pin)), ..state.store })
}

/// The secret that the state shares with a client.
pub open spec fn secret_with(state: StateModel, key: (Seq<u8>, Seq<u8>)) -> Seq<u8> {
    ecdh::shared_secret(state.key_agreement_key, key)
}

/// The answer to a request to set a PIN, and the state after it.
pub open spec fn pin_set(
    state: StateModel,
    key_agreement: (Seq<u8>, Seq<u8>),
    pin_auth: Seq<u8>,
    new_pin_enc: Seq<u8>,
) -> (Result<(), Ctap2StatusCode>, StateModel) {
    let secret = secret_with(state, key_agreement);
    if state.store.pin_hash is Some {
        (Err(Ctap2StatusCode::CTAP2_ERR_PIN_AUTH_INVALID), state)
    } else if !p256::is_point(key_agreement.0, key_agreement.1) {
        (Err(Ctap2StatusCode::CTAP1_ERR_INVALID_PARAMETER), state)
    } else if !authenticated(secret, new_pin_enc, pin_auth) {
        (Err(Ctap2StatusCode::CTAP2_ERR_PIN_AUTH_INVALID), state)
    } else {
        match new_pin(secret, new_pin_enc) {
            None => (Err(Ctap2StatusCode::CTAP2_ERR_PIN_POLICY_VIOLATION), state),
            Some(pin) => {
                let set = with_pin(state, pin);
                (Ok(()), with_store(set, StoreModel { pin_retries: MAX_PIN_RETRIES, ..set.store }))
            },
        }
    }
}

/// The answer to a request to change the PIN, and the state after it, given
/// the key that is drawn if the PIN is wrong and the token that is drawn if it
/// is changed.
pub open spec fn pin_changed(
    state: StateModel,
    key_agreement: (Seq<u8>, Seq<u8>),
    pin_auth: Seq<u8>,
    new_pin_enc: Seq<u8>,
    pin_hash_enc: Seq<u8>,
    fresh_key: Seq<u8>,
    fresh_token: Seq<u8>,
) -> (Result<(), Ctap2StatusCode>, StateModel) {
    let secret = secret_with(state, key_agreement);
    if state.store.pin_retries == 0 {
        (Err(Ctap2StatusCode::CTAP2_ERR_PIN_BLOCKED), state)
    } else if !p256::is_point(key_agreement.0, key_agreement.1) {
        (Err(Ctap2StatusCode::CTAP1_ERR_INVALID_PARAMETER), state)
    } else if !authenticated(secret, new_pin_enc + pin_hash_enc, pin_auth) {
        (Err(Ctap2StatusCode::CTAP2_ERR_PIN_AUTH_INVALID), state)
    } else {
        let checked = pin_checked(state, secret, pin_hash_enc, fresh_key);
        match checked.0 {
            Err(e) => checked,
            Ok(_) => match new_pin(secret, new_pin_enc) {
                None => (Err(Ctap2StatusCode::CTAP2_ERR_PIN_POLICY_VIOLATION), checked.1),
                Some(pin) => (
                    Ok(()),
                    StateModel { pin_token: fresh_token, ..with_pin(checked.1, pin) },
                ),
            },
        }
    }
}

/// Whether a request to change the PIN gets as far as the check of the old one.
pub open spec fn change_admitted(
    state: StateModel,
    key_agreement: (Seq<u8>, Seq<u8>),
    pin_auth: Seq<u8>,
    new_pin_enc: Seq<u8>,
    pin_hash_enc: Seq<u8>,
) -> bool {
    &&& state.store.pin_retries != 0
    &&& p256::is_point(key_agreement.0, key_agreement.1)
    &&& authenticated(
        secret_with(state, key_agreement),
        new_pin_enc + pin_hash_enc,
        pin_auth,
    )
}

/// Whether a request to change the PIN draws a key: the old PIN is wrong.
pub open spec fn change_draws_key(
    state: StateModel,
    key_agreement: (Seq<u8>, Seq<u8>),
    pin_auth: Seq<u8>,
    new_pin_enc: Seq<u8>,
    pin_hash_enc: Seq<u8>,
) -> bool {
    &&& change_admitted(state, key_agreement, pin_auth, new_pin_enc, pin_hash_enc)
    &&& pin_check(state, secret_with(state, key_agreement), pin_hash_enc) is Wrong
}

/// Whether a request to change the PIN draws a token: the PIN is changed.
pub open spec fn change_draws_token(
    state: StateModel,
    key_agreement: (Seq<u8>, Seq<u8>),
    pin_auth: Seq<u8>,
    new_pin_enc: Seq<u8>,
    pin_hash_enc: Seq<u8>,
) -> bool {
    &&& change_admitted(state, key_agreement, pin_auth, new_pin_enc, pin_hash_enc)
    &&& pin_check(state, secret_with(state, key_agreement), pin_hash_enc) is Right
    &&& new_pin(secret_with(state, key_agreement), new_pin_enc) is Some
}

/// Whether a request for the token draws a key: the PIN is wrong.
pub open spec fn token_draws_key(
    state: StateModel,
    key_agreement: (Seq<u8>, Seq<u8>),
    pin_hash_enc: Seq<u8>,
) -> bool {
    &&& state.store.pin_retries != 0
    &&& p256::is_point(key_agreement.0, key_agreement.1)
    &&& pin_check(state, secret_with(state, key_agreement), pin_hash_enc) is Wrong
}

/// Whether what a request about the PIN draws was drawn: a key, a token, or
/// nothing.
pub open spec fn drew_for_pin<R: Rng256>(
    rng: R,
    draws_key: bool,
    fresh_key: Seq<u8>,
    draws_token: bool,
    fresh_token: Seq<u8>,
    after: R,
) -> bool {
    if draws_key {
        p256::is_scalar(fresh_key) && rng.draws_scalar(fresh_key, after)
    } else if draws_token {
        fresh_token.len() == PIN_TOKEN_LENGTH && rng.draws(fresh_token, after)
    } else {
        after == rng
    }
}

/// What a request about the PIN is answered.
pub struct PinAnswer {
    pub key_agreement: Option<(Seq<u8>, Seq<u8>)>,
    pub pin_token: Option<Seq<u8>>,
    pub retries: Option<u64>,
}

impl View for AuthenticatorClientPinResponse {
    type V = PinAnswer;

    open spec fn view(&self) -> PinAnswer {
        PinAnswer {
            key_agreement: match self.key_agreement {
                Some(key) => Some((key.x@, key.y@)),
                None => None,
            },
            pin_token: data_formats::bytes_model(self.pin_token),
            retries: self.retries,
        }
    }
}

/// The answer that tells how many tries are left.
pub open spec fn retries_answer(retries: u64) -> PinAnswer {
    PinAnswer { key_agreement: None, pin_token: None, retries: Some(retries) }
}

/// The answer that holds an encrypted token.
pub open spec fn token_answer(token: Seq<u8>) -> PinAnswer {
    PinAnswer { key_agreement: None, pin_token: Some(token), retries: None }
}

/// The answer to a request for the token, and the state after it, given the
/// key that is drawn if the PIN is wrong.
pub open spec fn token_given(
    state: StateModel,
    key_agreement: (Seq<u8>, Seq<u8>),
    pin_hash_enc: Seq<u8>,
    fresh_key: Seq<u8>,
) -> (Result<PinAnswer, Ctap2StatusCode>, StateModel) {
    let secret = secret_with(state, key_agreement);
    if state.store.pin_retries == 0 {
        (Err(Ctap2StatusCode::CTAP2_ERR_PIN_BLOCKED), state)
    } else if !p256::is_point(key_agreement.0, key_agreement.1) {
        (Err(Ctap2StatusCode::CTAP1_ERR_INVALID_PARAMETER), state)
    } else {
        let checked = pin_checked(state, secret, pin_hash_enc, fresh_key);
        match checked.0 {
            Err(e) => (Err(e), checked.1),
            Ok(_) => (Ok(token_answer(encrypted(secret, state.pin_token))), checked.1),
        }
    }
}

/// What a result says.
pub open spec fn answered(result: Result<AuthenticatorClientPinResponse, Ctap2StatusCode>) -> Result<
    PinAnswer,
    Ctap2StatusCode,
> {
    match result {
        Ok(response) => Ok(response@),
        Err(e) => Err(e),
    }
}

/// The answer to a request about the PIN, and the state after it. Requests that
/// have no answer are answered `None`.
pub open spec fn client_pin(
    state: StateModel,
    params: ClientPinModel,
    fresh_key: Seq<u8>,
    fresh_token: Seq<u8>,
) -> (Result<Option<PinAnswer>, Ctap2StatusCode>, StateModel) {
    let missing = (Err(Ctap2StatusCode::CTAP2_ERR_MISSING_PARAMETER), state);
    if params.pin_protocol != PIN_PROTOCOL_VERSION {
        (Err(Ctap2StatusCode::CTAP2_ERR_PIN_AUTH_INVALID), state)
    } else {
        match params.sub_command {
            ClientPinSubCommand::GetPinRetries => (
                Ok(Some(retries_answer(state.store.pin_retries as u64))),
                state,
            ),
            ClientPinSubCommand::GetKeyAgreement => (
                Ok(
                    Some(
                        PinAnswer {
                            key_agreement: Some(ecdsa::public_key(state.key_agreement_key)),
                            pin_token: None,
                            retries: None,
                        },
                    ),
                ),
                state,
            ),
            ClientPinSubCommand::SetPin => match (
                params.key_agreement,
                params.pin_auth,
                params.new_pin_enc,
            ) {
                (Some(key), Some(auth), Some(pin)) => silent(pin_set(state, key, auth, pin)),
                _ => missing,
            },
            ClientPinSubCommand::ChangePin => match (
                params.key_agreement,
                params.pin_auth,
                params.new_pin_enc,
                params.pin_hash_enc,
            ) {
                (Some(key), Some(auth), Some(pin), Some(hash)) => silent(
                    pin_changed(state, key, auth, pin, hash, fresh_key, fresh_token),
                ),
                _ => missing,
            },
            ClientPinSubCommand::GetPinToken => match (params.key_agreement, params.pin_hash_enc) {
                (Some(key), Some(hash)) => {
                    let given = token_given(state, key, hash, fresh_key);
                    match given.0 {
                        Ok(answer) => (Ok(Some(answer)), given.1),
                        Err(e) => (Err(e), given.1),
                    }
                },
                _ => missing,
            },
            ClientPinSubCommand::GetPinUvAuthTokenUsingUvWithPermissions => if params.key_agreement
                is Some {
                (Ok(Some(token_answer(Seq::empty()))), state)
            } else {
                missing
            },
            ClientPinSubCommand::GetUvRetries => (Ok(Some(retries_answer(0))), state),
            ClientPinSubCommand::SetMinPinLength => if params.min_pin_length is Some
                && params.min_pin_length_rp_ids is Some && params.pin_auth is Some {
                (Ok(None), state)
            } else {
                missing
            },
            ClientPinSubCommand::GetPinUvAuthTokenUsingPinWithPermissions => if params.key_agreement
                is Some && params.pin_hash_enc is Some && params.permissions is Some
                && params.permissions_rp_id is Some {
                (Ok(None), state)
            } else {
                missing
            },
        }
    }
}

/// Whether a request about the PIN draws a key.
pub open spec fn draws_key(state: StateModel, params: ClientPinModel) -> bool {
    &&& params.pin_protocol == PIN_PROTOCOL_VERSION
    &&& match (
        params.sub_command,
        params.key_agreement,
        params.pin_auth,
        params.new_pin_enc,
        params.pin_hash_enc,
    ) {
        (
            ClientPinSubCommand::ChangePin,
            Some(key),
            Some(auth),
            Some(pin),
            Some(hash),
        ) => change_draws_key(state, key, auth, pin, hash),
        (ClientPinSubCommand::GetPinToken, Some(key), _, _, Some(hash)) => token_draws_key(
            state,
            key,
            hash,
        ),
        _ => false,
    }
}

/// Whether a request about the PIN draws a token.
pub open spec fn draws_token(state: StateModel, params: ClientPinModel) -> bool {
    &&& params.pin_protocol == PIN_PROTOCOL_VERSION
    &&& match (
        params.sub_command,
        params.key_agreement,
        params.pin_auth,
        params.new_pin_enc,
        params.pin_hash_enc,
    ) {
        (
            ClientPinSubCommand::ChangePin,
            Some(key),
            Some(auth),
            Some(pin),
            Some(hash),
        ) => change_draws_token(state, key, auth, pin, hash),
        _ => false,
    }
}

/// An outcome without an answer.
pub open spec fn silent(outcome: (Result<(), Ctap2StatusCode>, StateModel)) -> (
    Result<Option<PinAnswer>, Ctap2StatusCode>,
    StateModel,
) {
    match outcome.0 {
        Ok(_) => (Ok(None), outcome.1),
        Err(e) => (Err(e), outcome.1),
    }
}

/// Whether a result gives an answer.
pub open spec fn gives_answer(
    result: Result<ResponseData, Ctap2StatusCode>,
    answer: Result<Option<PinAnswer>, Ctap2StatusCode>,
) -> bool {
    match (result, answer) {
        (Ok(ResponseData::AuthenticatorClientPin(Some(response))), Ok(Some(a))) => response@ == a,
        (Ok(ResponseData::AuthenticatorClientPin(None)), Ok(None)) => true,
        (Err(e), Err(f)) => e == f,
        _ => false,
    }
}

impl<'a, R, CheckUserPresence> CtapState<'a, R, CheckUserPresence> where
    R: Rng256,
    CheckUserPresence: Fn(ChannelID) -> Result<(), Ctap2StatusCode>,
 {
    /// Checks what a request says of its authentication.
    pub fn check_auth_param(
        &self,
        pin_uv_auth_param: &Option<Vec<u8>>,
        pin_uv_auth_protocol: Option<u64>,
    ) -> (result: Result<(), Ctap2StatusCode>)
        ensures
            ({
                let refusal = auth_param_refusal(
                    self@,
                    data_formats::bytes_model(*pin_uv_auth_param),
                    pin_uv_auth_protocol,
                );
                match result {
                    Ok(_) => refusal is None,
                    Err(e) => refusal == Some(e),
                }
            }),
    {
        if let Some(auth_param) = pin_uv_auth_param {
            if auth_param.len() == 0 {
                if self.persistent_store.pin_hash().is_none() {
                    return Err(Ctap2StatusCode::CTAP2_ERR_PIN_NOT_SET);
                } else {
                    return Err(Ctap2StatusCode::CTAP2_ERR_PIN_INVALID);
                }
            }
            match pin_uv_auth_protocol {
                Some(protocol) => {
                    if protocol != PIN_PROTOCOL_VERSION {
                        return Err(Ctap2StatusCode::CTAP2_ERR_PIN_AUTH_INVALID);
                    }
                },
                None => {
                    return Err(Ctap2StatusCode::CTAP2_ERR_MISSING_PARAMETER);
                },
            }
        }
        Ok(())
    }

    /// Sets the PIN to the one that a client encrypted, if it may be set.
    pub fn check_and_store_new_pin(&mut self, secret: &[u8; 32], new_pin_enc: &[u8]) -> (set: bool)
        requires
            old(self)@.valid(),
        ensures
            final(self)@.valid(),
            final(self).check_user_presence == old(self).check_user_presence,
            set <==> new_pin(secret@, new_pin_enc@) is Some,
            *final(self).rng == *old(self).rng,
            match new_pin(secret@, new_pin_enc@) {
                Some(pin) => final(self)@ == with_pin(old(self)@, pin),
                None => final(self)@ == old(self)@,
            },
    {
        if new_pin_enc.len() != PIN_PADDED_LENGTH {
            return false;
        }
        let plain: Vec<u8> = decrypt(secret, new_pin_enc);
        let mut len: usize = 0;
        proof {
            assert(plain@.skip(0) =~= plain@);
            assert(plain@.take(0) + until_zero(plain@) =~= until_zero(plain@));
        }
        while len < plain.len() && plain[len] != 0
            invariant
                len <= plain@.len(),
                until_zero(plain@) == plain@.take(len as int) + until_zero(plain@.skip(len as int)),
            decreases plain@.len() - len,
        {
            proof {
                let rest = plain@.skip(len as int);
                assert(rest.skip(1) =~= plain@.skip(len + 1));
                assert(plain@.take(len + 1) =~= plain@.take(len as int).push(plain@[len as int]));
                assert(plain@.take(len as int) + (seq![rest[0]] + until_zero(rest.skip(1)))
                    =~= plain@.take(len + 1) + until_zero(rest.skip(1)));
            }
            len += 1;
        }
        let pin: &[u8] = slice_subrange(plain.as_slice(), 0, len);
        assert(pin@ =~= until_zero(plain@));
        if pin.len() < 4 || pin.len() == PIN_PADDED_LENGTH {
            return false;
        }
        let hash: [u8; 32] = sha256::hash(pin);
        let pin_hash: [u8; 16] = bytes::to_array(slice_subrange(&hash, 0, 16));
        assert(pin_hash@ =~= pin_digest(pin@));
        self.persistent_store.set_pin_hash(&pin_hash);
        true
    }

    /// Takes a try and compares the PIN hash that a client encrypted. If it is
    /// wrong, nothing is done but that the try is taken.
    pub fn compare_pin_hash_enc(&mut self, secret: &[u8; 32], pin_hash_enc: &[u8]) -> (check:
        PinCheck)
        requires
            old(self)@.valid(),
        ensures
            final(self)@.valid(),
            final(self).check_user_presence == old(self).check_user_presence,
            check == pin_check(old(self)@, secret@, pin_hash_enc@),
            *final(self).rng == *old(self).rng,
            final(self)@ == (if check is Right {
                after_match(old(self)@)
            } else if takes_try(old(self)@) {
                tried(old(self)@)
            } else {
                old(self)@
            }),
    {
        let pin_hash: [u8; 16] = match self.persistent_store.pin_hash() {
            Some(hash) => *hash,
            None => {
                return PinCheck::Refused(Ctap2StatusCode::CTAP2_ERR_PIN_REQUIRED);
            },
        };
        if self.consecutive_pin_mismatches >= MAX_CONSECUTIVE_MISMATCHES {
            return PinCheck::Refused(Ctap2StatusCode::CTAP2_ERR_PIN_AUTH_BLOCKED);
        }
        self.persistent_store.decr_pin_retries();
        if pin_hash_enc.len() != PIN_AUTH_LENGTH {
            return PinCheck::Refused(Ctap2StatusCode::CTAP2_ERR_PIN_INVALID);
        }
        let plain: Vec<u8> = decrypt(secret, pin_hash_enc);
        if !ct_eq(&pin_hash, plain.as_slice()) {
            return PinCheck::Wrong;
        }
        self.persistent_store.reset_pin_retries();
        self.consecutive_pin_mismatches = 0;
        PinCheck::Right
    }

    /// Answers a wrong PIN, for which a try was taken, and takes the given key
    /// for key agreement.
    pub fn note_pin_mismatch(&mut self, fresh_key: ecdh::SecKey) -> (error: Ctap2StatusCode)
        requires
            old(self)@.valid(),
            old(self)@.mismatches < MAX_CONSECUTIVE_MISMATCHES,
        ensures
            final(self)@.valid(),
            final(self).check_user_presence == old(self).check_user_presence,
            error == mismatch_error(old(self)@),
            *final(self).rng == *old(self).rng,
            final(self)@ == after_mismatch(old(self)@, fresh_key@),
    {
        self.key_agreement_key = fresh_key;
        if self.persistent_store.pin_retries() == 0 {
            return Ctap2StatusCode::CTAP2_ERR_PIN_BLOCKED;
        }
        self.consecutive_pin_mismatches += 1;
        if self.consecutive_pin_mismatches >= MAX_CONSECUTIVE_MISMATCHES {
            return Ctap2StatusCode::CTAP2_ERR_PIN_AUTH_BLOCKED;
        }
        Ctap2StatusCode::CTAP2_ERR_PIN_INVALID
    }

    /// Checks the PIN hash that a client encrypted.
    pub fn check_pin_hash_enc(&mut self, secret: &[u8; 32], pin_hash_enc: &[u8]) -> (result: Result<
        (),
        Ctap2StatusCode,
    >)
        requires
            old(self)@.valid(),
        ensures
            final(self)@.valid(),
            final(self).check_user_presence == old(self).check_user_presence,
            exists|fresh_key: Seq<u8>| #[trigger]
                pin_checked(old(self)@, secret@, pin_hash_enc@, fresh_key) == (
                    result,
                    final(self)@,
                ) && drew_for_pin(
                    *old(self).rng,
                    pin_check(old(self)@, secret@, pin_hash_enc@) is Wrong,
                    fresh_key,
                    false,
                    seq![],
                    *final(self).rng,
                ),
    {
        let ghost pre = self@;
        match self.compare_pin_hash_enc(secret, pin_hash_enc) {
            PinCheck::Right => {
                assert(pin_checked(pre, secret@, pin_hash_enc@, seq![]) == (
                    Ok::<(), Ctap2StatusCode>(()),
                    self@,
                ));
                Ok(())
            },
            PinCheck::Refused(code) => {
                assert(pin_checked(pre, secret@, pin_hash_enc@, seq![]) == (
                    Err::<(), Ctap2StatusCode>(code),
                    self@,
                ));
                Err(code)
            },
            PinCheck::Wrong => {
                let fresh_key: ecdh::SecKey = ecdh::SecKey::gensk(self.rng);
                assert(old(self).rng.draws_scalar(fresh_key@, *self.rng));
                let error: Ctap2StatusCode = self.note_pin_mismatch(fresh_key);
                assert(pin_checked(pre, secret@, pin_hash_enc@, fresh_key@) == (
                    Err::<(), Ctap2StatusCode>(error),
                    self@,
                ));
                Err(error)
            },
        }
    }

    /// How many tries for the PIN are left.
    pub fn process_get_pin_retries(&self) -> (result: Result<
        AuthenticatorClientPinResponse,
        Ctap2StatusCode,
    >)
        ensures
            answered(result) == Ok::<PinAnswer, Ctap2StatusCode>(
                retries_answer(self@.store.pin_retries as u64),
            ),
    {
        Ok(
            AuthenticatorClientPinResponse {
                key_agreement: None,
                pin_token: None,
                retries: Some(self.persistent_store.pin_retries() as u64),
            },
        )
    }

    /// The public key for key agreement.
    pub fn process_get_key_agreement(&self) -> (result: Result<
        AuthenticatorClientPinResponse,
        Ctap2StatusCode,
    >)
        ensures
            answered(result) == Ok::<PinAnswer, Ctap2StatusCode>(
                PinAnswer {
                    key_agreement: Some(ecdsa::public_key(self@.key_agreement_key)),
                    pin_token: None,
                    retries: None,
                },
            ),
    {
        let pk: ecdh::PubKey = self.key_agreement_key.genpk();
        Ok(
            AuthenticatorClientPinResponse {
                key_agreement: Some(CoseKey::from(pk)),
                pin_token: None,
                retries: None,
            },
        )
    }

    /// Sets the first PIN.
    pub fn process_set_pin(
        &mut self,
        key_agreement: CoseKey,
        pin_auth: Vec<u8>,
        new_pin_enc: Vec<u8>,
    ) -> (result: Result<(), Ctap2StatusCode>)
        requires
            old(self)@.valid(),
        ensures
            final(self)@.valid(),
            final(self).check_user_presence == old(self).check_user_presence,
            *final(self).rng == *old(self).rng,
            (result, final(self)@) == pin_set(
                old(self)@,
                key_agreement@,
                pin_auth@,
                new_pin_enc@,
            ),
    {
        if self.persistent_store.pin_hash().is_some() {
            return Err(Ctap2StatusCode::CTAP2_ERR_PIN_AUTH_INVALID);
        }
        let pk: ecdh::PubKey = match key_agreement.try_into() {
            Ok(pk) => pk,
            Err(e) => {
                return Err(e);
            },
        };
        let secret: [u8; 32] = self.key_agreement_key.exchange_x_sha256(&pk);
        if !check_pin_auth(&secret, new_pin_enc.as_slice(), pin_auth.as_slice()) {
            return Err(Ctap2StatusCode::CTAP2_ERR_PIN_AUTH_INVALID);
        }
        if !self.check_and_store_new_pin(&secret, new_pin_enc.as_slice()) {
            return Err(Ctap2StatusCode::CTAP2_ERR_PIN_POLICY_VIOLATION);
        }
        self.persistent_store.reset_pin_retries();
        Ok(())
    }

    /// Changes the PIN, for a client that knows it, and draws a new token.
    pub fn process_change_pin(
        &mut self,
        key_agreement: CoseKey,
        pin_auth: Vec<u8>,
        new_pin_enc: Vec<u8>,
        pin_hash_enc: Vec<u8>,
    ) -> (result: Result<(), Ctap2StatusCode>)
        requires
            old(self)@.valid(),
        ensures
            final(self)@.valid(),
            final(self).check_user_presence == old(self).check_user_presence,
            exists|fresh_key: Seq<u8>, fresh_token: Seq<u8>| #[trigger]
                pin_changed(
                    old(self)@,
                    key_agreement@,
                    pin_auth@,
                    new_pin_enc@,
                    pin_hash_enc@,
                    fresh_key,
                    fresh_token,
                ) == (result, final(self)@) && drew_for_pin(
                    *old(self).rng,
                    change_draws_key(
                        old(self)@,
                        key_agreement@,
                        pin_auth@,
                        new_pin_enc@,
                        pin_hash_enc@,
                    ),
                    fresh_key,
                    change_draws_token(
                        old(self)@,
                        key_agreement@,
                        pin_auth@,
                        new_pin_enc@,
                        pin_hash_enc@,
                    ),
                    fresh_token,
                    *final(self).rng,
                ),
    {
        let ghost pre = self@;
        let ghost changed = |key: Seq<u8>, token: Seq<u8>|
            pin_changed(
                pre,
                key_agreement@,
                pin_auth@,
                new_pin_enc@,
                pin_hash_enc@,
                key,
                token,
            );
        let ghost none = Seq::<u8>::empty();
        if self.persistent_store.pin_retries() == 0 {
            assert(changed(none, none).0 is Err);
            return Err(Ctap2StatusCode::CTAP2_ERR_PIN_BLOCKED);
        }
        let pk: ecdh::PubKey = match key_agreement.try_into() {
            Ok(pk) => pk,
            Err(e) => {
                assert(changed(none, none).0 is Err);
                return Err(e);
            },
        };
        let secret: [u8; 32] = self.key_agreement_key.exchange_x_sha256(&pk);
        let auth_param_data: Vec<u8> = bytes::concat(
            new_pin_enc.as_slice(),
            pin_hash_enc.as_slice(),
        );
        if !check_pin_auth(&secret, auth_param_data.as_slice(), pin_auth.as_slice()) {
            assert(changed(none, none).0 is Err);
            return Err(Ctap2StatusCode::CTAP2_ERR_PIN_AUTH_INVALID);
        }
        let checked: Result<(), Ctap2StatusCode> = self.check_pin_hash_enc(
            &secret,
            pin_hash_enc.as_slice(),
        );
        let ghost between = self@;
        let ghost fresh_key = choose|key: Seq<u8>| #[trigger]
            pin_checked(pre, secret@, pin_hash_enc@, key) == (checked, between) && drew_for_pin(
                *old(self).rng,
                pin_check(pre, secret@, pin_hash_enc@) is Wrong,
                key,
                false,
                seq![],
                *self.rng,
            );
        match checked {
            Ok(_) => {},
            Err(e) => {
                assert(changed(fresh_key, none) == (Err::<(), Ctap2StatusCode>(e), self@));
                return Err(e);
            },
        }
        if !self.check_and_store_new_pin(&secret, new_pin_enc.as_slice()) {
            assert(changed(fresh_key, none) == (
                Err::<(), Ctap2StatusCode>(Ctap2StatusCode::CTAP2_ERR_PIN_POLICY_VIOLATION),
                self@,
            ));
            return Err(Ctap2StatusCode::CTAP2_ERR_PIN_POLICY_VIOLATION);
        }
        let token: [u8; PIN_TOKEN_LENGTH] = self.rng.gen_uniform_u8x32();
        assert(old(self).rng.draws(token@, *self.rng));
        self.replace_pin_token(token);
        assert(changed(fresh_key, self@.pin_token) == (Ok::<(), Ctap2StatusCode>(()), self@));
        Ok(())
    }

    /// Gives the token to a client that knows the PIN, encrypted with the
    /// secret that is shared with it.
    pub fn process_get_pin_token(
        &mut self,
        key_agreement: CoseKey,
        pin_hash_enc: Vec<u8>,
    ) -> (result: Result<AuthenticatorClientPinResponse, Ctap2StatusCode>)
        requires
            old(self)@.valid(),
        ensures
            final(self)@.valid(),
            final(self).check_user_presence == old(self).check_user_presence,
            exists|fresh_key: Seq<u8>| #[trigger]
                token_given(old(self)@, key_agreement@, pin_hash_enc@, fresh_key) == (
                    answered(result),
                    final(self)@,
                ) && drew_for_pin(
                    *old(self).rng,
                    token_draws_key(old(self)@, key_agreement@, pin_hash_enc@),
                    fresh_key,
                    false,
                    seq![],
                    *final(self).rng,
                ),
            result matches Ok(response) ==> response@.pin_token matches Some(token) && decrypted(
                secret_with(old(self)@, key_agreement@),
                token,
            ) == old(self)@.pin_token,
    {
        let ghost pre = self@;
        let ghost given = |key: Seq<u8>| token_given(pre, key_agreement@, pin_hash_enc@, key);
        let ghost none = Seq::<u8>::empty();
        if self.persistent_store.pin_retries() == 0 {
            assert(given(none).0 is Err);
            return Err(Ctap2StatusCode::CTAP2_ERR_PIN_BLOCKED);
        }
        let pk: ecdh::PubKey = match key_agreement.try_into() {
            Ok(pk) => pk,
            Err(e) => {
                assert(given(none).0 is Err);
                return Err(e);
            },
        };
        let secret: [u8; 32] = self.key_agreement_key.exchange_x_sha256(&pk);
        let checked: Result<(), Ctap2StatusCode> = self.check_pin_hash_enc(
            &secret,
            pin_hash_enc.as_slice(),
        );
        let ghost fresh_key = choose|key: Seq<u8>| #[trigger]
            pin_checked(pre, secret@, pin_hash_enc@, key) == (checked, self@) && drew_for_pin(
                *old(self).rng,
                pin_check(pre, secret@, pin_hash_enc@) is Wrong,
                key,
                false,
                seq![],
                *self.rng,
            );
        match checked {
            Ok(_) => {},
            Err(e) => {
                assert(given(fresh_key) == (Err::<PinAnswer, Ctap2StatusCode>(e), self@));
                return Err(e);
            },
        }
        let pin_token: Vec<u8> = encrypt(&secret, &self.pin_uv_auth_token);
        let response = AuthenticatorClientPinResponse {
            key_agreement: None,
            pin_token: Some(pin_token),
            retries: None,
        };
        assert(given(fresh_key) == (Ok::<PinAnswer, Ctap2StatusCode>(response@), self@));
        Ok(response)
    }

    /// The token for a client whose user is verified by other means than the
    /// PIN. There are none, so the token is empty.
    pub fn process_get_pin_uv_auth_token_using_uv_with_permissions(
        &self,
        _key_agreement: CoseKey,
    ) -> (result: Result<AuthenticatorClientPinResponse, Ctap2StatusCode>)
        ensures
            answered(result) == Ok::<PinAnswer, Ctap2StatusCode>(token_answer(Seq::empty())),
    {
        let pin_token: Vec<u8> = Vec::new();
        assert(pin_token@ =~= Seq::empty());
        Ok(
            AuthenticatorClientPinResponse {
                key_agreement: None,
                pin_token: Some(pin_token),
                retries: None,
            },
        )
    }

    /// How many tries are left to verify the user by other means than the PIN.
    /// There are none.
    pub fn process_get_uv_retries(&self) -> (result: Result<
        AuthenticatorClientPinResponse,
        Ctap2StatusCode,
    >)
        ensures
            answered(result) == Ok::<PinAnswer, Ctap2StatusCode>(retries_answer(0)),
    {
        Ok(AuthenticatorClientPinResponse { key_agreement: None, pin_token: None, retries: Some(0) })
    }

    /// Accepts a minimum length for PINs, and does nothing with it.
    pub fn process_set_min_pin_length(
        &mut self,
        _min_pin_length: u64,
        _min_pin_length_rp_ids: Vec<String>,
        _pin_auth: Vec<u8>,
    ) -> (result: Result<AuthenticatorClientPinResponse, Ctap2StatusCode>)
        ensures
            final(self)@ == old(self)@,
            final(self).check_user_presence == old(self).check_user_presence,
            *final(self).rng == *old(self).rng,
            answered(result) == Ok::<PinAnswer, Ctap2StatusCode>(retries_answer(0)),
    {
        Ok(AuthenticatorClientPinResponse { key_agreement: None, pin_token: None, retries: Some(0) })
    }

    /// Accepts a request for a token with permissions, and gives none.
    pub fn process_get_pin_uv_auth_token_using_pin_with_permissions(
        &mut self,
        _key_agreement: CoseKey,
        _pin_hash_enc: Vec<u8>,
        _permissions: u8,
        _permissions_rp_id: String,
    ) -> (result: Result<AuthenticatorClientPinResponse, Ctap2StatusCode>)
        ensures
            final(self)@ == old(self)@,
            final(self).check_user_presence == old(self).check_user_presence,
            *final(self).rng == *old(self).rng,
            answered(result) == Ok::<PinAnswer, Ctap2StatusCode>(retries_answer(0)),
    {
        Ok(AuthenticatorClientPinResponse { key_agreement: None, pin_token: None, retries: Some(0) })
    }

    /// Answers a request about the PIN.
    pub fn process_client_pin(&mut self, params: AuthenticatorClientPinParameters) -> (result:
        Result<ResponseData, Ctap2StatusCode>)
        requires
            old(self)@.valid(),
        ensures
            final(self)@.valid(),
            final(self).check_user_presence == old(self).check_user_presence,
            did_client_pin(
                old(self)@,
                *old(self).rng,
                params@,
                result,
                final(self)@,
                *final(self).rng,
            ),
    {
        let ghost pre = self@;
        let ghost none = Seq::<u8>::empty();
        let ghost given = params@;
        // Most answers do not depend on what is drawn.
        let ghost without_draws = client_pin(pre, given, none, none);
        if params.pin_protocol != PIN_PROTOCOL_VERSION {
            return Err(Ctap2StatusCode::CTAP2_ERR_PIN_AUTH_INVALID);
        }
        let response: Result<Option<AuthenticatorClientPinResponse>, Ctap2StatusCode> = match params
            .sub_command {
            ClientPinSubCommand::GetPinRetries => some_response(self.process_get_pin_retries()),
            ClientPinSubCommand::GetKeyAgreement => some_response(self.process_get_key_agreement()),
            ClientPinSubCommand::SetPin => match (
                params.key_agreement,
                params.pin_auth,
                params.new_pin_enc,
            ) {
                (Some(key), Some(auth), Some(pin)) => no_response(
                    self.process_set_pin(key, auth, pin),
                ),
                _ => Err(Ctap2StatusCode::CTAP2_ERR_MISSING_PARAMETER),
            },
            ClientPinSubCommand::ChangePin => match (
                params.key_agreement,
                params.pin_auth,
                params.new_pin_enc,
                params.pin_hash_enc,
            ) {
                (Some(key), Some(auth), Some(pin), Some(hash)) => {
                    let ghost (a, p, h) = (auth@, pin@, hash@);
                    let changed: Result<(), Ctap2StatusCode> = self.process_change_pin(
                        key,
                        auth,
                        pin,
                        hash,
                    );
                    proof {
                        let (k, t) = choose|k: Seq<u8>, t: Seq<u8>| #[trigger]
                            pin_changed(pre, key@, a, p, h, k, t) == (changed, self@) && drew_for_pin(
                                *old(self).rng,
                                change_draws_key(pre, key@, a, p, h),
                                k,
                                change_draws_token(pre, key@, a, p, h),
                                t,
                                *self.rng,
                            );
                        assert(client_pin(pre, given, k, t).1 == self@);
                    }
                    no_response(changed)
                },
                _ => Err(Ctap2StatusCode::CTAP2_ERR_MISSING_PARAMETER),
            },
            ClientPinSubCommand::GetPinToken => match (params.key_agreement, params.pin_hash_enc) {
                (Some(key), Some(hash)) => {
                    let ghost h = hash@;
                    let token: Result<AuthenticatorClientPinResponse, Ctap2StatusCode> =
                        self.process_get_pin_token(key, hash);
                    proof {
                        let k = choose|k: Seq<u8>| #[trigger]
                            token_given(pre, key@, h, k) == (answered(token), self@) && drew_for_pin(
                                *old(self).rng,
                                token_draws_key(pre, key@, h),
                                k,
                                false,
                                seq![],
                                *self.rng,
                            );
                        assert(client_pin(pre, given, k, none).1 == self@);
                    }
                    some_response(token)
                },
                _ => Err(Ctap2StatusCode::CTAP2_ERR_MISSING_PARAMETER),
            },
            ClientPinSubCommand::GetPinUvAuthTokenUsingUvWithPermissions => match params
                .key_agreement {
                Some(key) => some_response(
                    self.process_get_pin_uv_auth_token_using_uv_with_permissions(key),
                ),
                None => Err(Ctap2StatusCode::CTAP2_ERR_MISSING_PARAMETER),
            },
            ClientPinSubCommand::GetUvRetries => some_response(self.process_get_uv_retries()),
            ClientPinSubCommand::SetMinPinLength => match (
                params.min_pin_length,
                params.min_pin_length_rp_ids,
                params.pin_auth,
            ) {
                (Some(length), Some(rp_ids), Some(auth)) => {
                    let _ = self.process_set_min_pin_length(length, rp_ids, auth);
                    Ok(None)
                },
                _ => Err(Ctap2StatusCode::CTAP2_ERR_MISSING_PARAMETER),
            },
            ClientPinSubCommand::GetPinUvAuthTokenUsingPinWithPermissions => match (
                params.key_agreement,
                params.pin_hash_enc,
                params.permissions,
                params.permissions_rp_id,
            ) {
                (Some(key), Some(hash), Some(permissions), Some(rp_id)) => {
                    let _ = self.process_get_pin_uv_auth_token_using_pin_with_permissions(
                        key,
                        hash,
                        permissions,
                        rp_id,
                    );
                    Ok(None)
                },
                _ => Err(Ctap2StatusCode::CTAP2_ERR_MISSING_PARAMETER),
            },
        };
        match response {
            Ok(r) => Ok(ResponseData::AuthenticatorClientPin(r)),
            Err(e) => Err(e),
        }
    }
}

/// Whether the token in an answer, if it holds one that the PIN was given for,
/// decrypts to the token.
pub open spec fn token_decrypts(
    pre: StateModel,
    params: ClientPinModel,
    result: Result<ResponseData, Ctap2StatusCode>,
) -> bool {
    params.sub_command is GetPinToken ==> {
        result matches Ok(ResponseData::AuthenticatorClientPin(Some(response))) ==> {
            &&& response.pin_token matches Some(token) && params.key_agreement matches Some(key)
                && decrypted(secret_with(pre, key), token@) == pre.pin_token
        }
    }
}

/// What a request about the PIN does. What it draws comes from the source.
pub open spec fn did_client_pin<R: Rng256>(
    pre: StateModel,
    rng: R,
    params: ClientPinModel,
    result: Result<ResponseData, Ctap2StatusCode>,
    post: StateModel,
    after: R,
) -> bool {
    exists|fresh_key: Seq<u8>, fresh_token: Seq<u8>|
        {
            let outcome = #[trigger] client_pin(pre, params, fresh_key, fresh_token);
            &&& gives_answer(result, outcome.0)
            &&& token_decrypts(pre, params, result)
            &&& post == outcome.1
            &&& drew_for_pin(
                rng,
                draws_key(pre, params),
                fresh_key,
                draws_token(pre, params),
                fresh_token,
                after,
            )
        }
}

/// A request that has an answer.
fn some_response(result: Result<AuthenticatorClientPinResponse, Ctap2StatusCode>) -> (response:
    Result<Option<AuthenticatorClientPinResponse>, Ctap2StatusCode>)
    ensures
        match result {
            Ok(r) => response == Ok::<_, Ctap2StatusCode>(Some(r)),
            Err(e) => response == Err::<Option<AuthenticatorClientPinResponse>, _>(e),
        },
{
    match result {
        Ok(r) => Ok(Some(r)),
        Err(e) => Err(e),
    }
}

/// A request that has none.
fn no_response(result: Result<(), Ctap2StatusCode>) -> (response: Result<
    Option<AuthenticatorClientPinResponse>,
    Ctap2StatusCode,
>)
    ensures
        match result {
            Ok(_) => response == Ok::<Option<AuthenticatorClientPinResponse>, Ctap2StatusCode>(
                None,
            ),
            Err(e) => response == Err::<Option<AuthenticatorClientPinResponse>, _>(e),
        },
{
    match result {
        Ok(_) => Ok(None),
        Err(e) => Err(e),
    }
}

} // verus!
