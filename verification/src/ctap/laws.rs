//! What holds of the authenticator as a whole.

use crate::cbor::model;
use crate::crypto::ecdsa;
use crate::crypto::hmac;
use crate::crypto::rng256::Rng256;
use crate::ctap::command::{
    ClientPinModel, CommandModel, GetAssertionModel, MakeCredentialModel,
};
use crate::ctap::credential_id;
use crate::ctap::data_formats::CredentialModel;
use crate::ctap::parse::DescriptorModel;
use crate::ctap::get_assertion;
use crate::ctap::hid::ChannelID;
use crate::ctap::key_material::AAGUID;
use crate::ctap::make_credential;
use crate::ctap::make_credential::Draws;
use crate::ctap::pin;
use crate::ctap::process;
use crate::ctap::response::{AuthenticatorMakeCredentialResponse, ResponseData};
use crate::ctap::state;
use crate::ctap::state::{
    StateModel, AT_FLAG, ED_FLAG, MAX_CONSECUTIVE_MISMATCHES,
    UP_FLAG, UV_FLAG,
};
use crate::ctap::status_code::Ctap2StatusCode;
use crate::ctap::storage;
use crate::ctap::storage::{StoreModel, MAX_PIN_RETRIES};
use vstd::prelude::*;

verus! {

/// A credential ID whose HMAC does not fit is refused.
pub proof fn law_bad_hmac_is_refused(store: StoreModel, id: Seq<u8>, rp_id_hash: Seq<u8>)
    requires
        hmac::hmac_sha256(store.hmac_key, id.take(80)) != id.skip(80),
    ensures
        credential_id::opened(store, id, rp_id_hash) is None,
{
}

/// A credential ID that opens does not open any more once its HMAC was changed.
pub proof fn law_changed_hmac_is_refused(
    store: StoreModel,
    id: Seq<u8>,
    changed: Seq<u8>,
    rp_id_hash: Seq<u8>,
)
    requires
        credential_id::opened(store, id, rp_id_hash) is Some,
        changed.len() == id.len(),
        changed.take(80) == id.take(80),
        changed != id,
    ensures
        credential_id::opened(store, changed, rp_id_hash) is None,
{
    if changed.skip(80) == id.skip(80) {
        assert(changed =~= changed.take(80) + changed.skip(80));
        assert(id =~= id.take(80) + id.skip(80));
    }
}

/// A credential ID that opens does not open any more once any one byte of it
/// was changed: all of its bytes are authenticated. Left out are changes that
/// keep the HMAC of the bytes before it, if there are any.
pub proof fn law_changed_byte_is_refused(
    store: StoreModel,
    id: Seq<u8>,
    i: int,
    byte: u8,
    rp_id_hash: Seq<u8>,
)
    requires
        credential_id::opened(store, id, rp_id_hash) is Some,
        0 <= i < id.len(),
        byte != id[i],
        i < 80 ==> hmac::hmac_sha256(store.hmac_key, id.update(i, byte).take(80))
            != hmac::hmac_sha256(store.hmac_key, id.take(80)),
    ensures
        credential_id::opened(store, id.update(i, byte), rp_id_hash) is None,
{
    let changed = id.update(i, byte);
    if i < 80 {
        assert(changed.skip(80) =~= id.skip(80));
    } else {
        assert(changed.take(80) =~= id.take(80));
        assert(changed[i] != id[i]);
        law_changed_hmac_is_refused(store, id, changed, rp_id_hash);
    }
}

/// A credential ID opens for one relying party only.
pub proof fn law_id_is_bound_to_one_party(
    store: StoreModel,
    id: Seq<u8>,
    rp_id_hash: Seq<u8>,
    other: Seq<u8>,
)
    requires
        credential_id::opened(store, id, rp_id_hash) is Some,
        other != rp_id_hash,
    ensures
        credential_id::opened(store, id, other) is None,
{
}

/// No credential is made, and nothing else is changed, if the user is never
/// present.
pub proof fn law_no_credential_without_presence<R: Rng256, C: Fn(ChannelID) -> Result<(), Ctap2StatusCode>>(
    pre: StateModel,
    rng: R,
    check: C,
    cid: ChannelID,
    params: MakeCredentialModel,
    result: Result<ResponseData, Ctap2StatusCode>,
    post: StateModel,
    after: R,
)
    requires
        make_credential::did_make_credential(pre, rng, check, cid, params, result, post, after),
        forall|presence: Result<(), Ctap2StatusCode>| #[trigger]
            call_ensures(check, (cid,), presence) ==> presence is Err,
    ensures
        result is Err,
        post == pre,
{
}

/// No credential is used with the user's presence, and nothing is changed, if
/// the user is never present.
pub proof fn law_no_assertion_without_presence<C: Fn(ChannelID) -> Result<(), Ctap2StatusCode>>(
    pre: StateModel,
    check: C,
    cid: ChannelID,
    params: GetAssertionModel,
    result: Result<ResponseData, Ctap2StatusCode>,
    post: StateModel,
)
    requires
        get_assertion::did_get_assertion(pre, check, cid, params, result, post),
        params.options.up,
        forall|presence: Result<(), Ctap2StatusCode>| #[trigger]
            call_ensures(check, (cid,), presence) ==> presence is Err,
    ensures
        result is Err,
        post == pre,
{
}

/// Nothing is reset if the user is never present.
pub proof fn law_no_reset_without_presence<R: Rng256, C: Fn(ChannelID) -> Result<(), Ctap2StatusCode>>(
    pre: StateModel,
    rng: R,
    check: C,
    cid: ChannelID,
    result: Result<ResponseData, Ctap2StatusCode>,
    post: StateModel,
    after: R,
)
    requires
        state::did_reset(pre, rng, check, cid, result, post, after),
        forall|presence: Result<(), Ctap2StatusCode>| #[trigger]
            call_ensures(check, (cid,), presence) ==> presence is Err,
    ensures
        result is Err,
        post == pre,
{
}

/// A reset leaves no credential and no PIN, and all tries for one.
pub proof fn law_reset_forgets<R: Rng256, C: Fn(ChannelID) -> Result<(), Ctap2StatusCode>>(
    pre: StateModel,
    rng: R,
    check: C,
    cid: ChannelID,
    result: Result<ResponseData, Ctap2StatusCode>,
    post: StateModel,
    after: R,
)
    requires
        state::did_reset(pre, rng, check, cid, result, post, after),
        result is Ok,
    ensures
        post.store.credentials.len() == 0,
        post.store.pin_hash is None,
        post.store.pin_retries == MAX_PIN_RETRIES,
        post.store.counter == 0,
        post.mismatches == 0,
{
}

/// Once resets are ruled out, no command makes them possible again, and a
/// request for one is refused and changes nothing.
pub proof fn law_reset_stays_ruled_out<R: Rng256, C: Fn(ChannelID) -> Result<(), Ctap2StatusCode>>(
    pre: StateModel,
    rng: R,
    check: C,
    cid: ChannelID,
    command: CommandModel,
    result: Result<ResponseData, Ctap2StatusCode>,
    post: StateModel,
    after: R,
)
    requires
        process::carried_out(pre, rng, check, cid, command, result, post, after),
        !pre.accepts_reset,
    ensures
        !post.accepts_reset,
        command is Reset ==> result == Err::<ResponseData, _>(
            Ctap2StatusCode::CTAP2_ERR_NOT_ALLOWED,
        ) && post == pre,
{
}

/// Every command but a reset keeps the authenticator's own keys.
pub proof fn law_keys_are_kept<R: Rng256, C: Fn(ChannelID) -> Result<(), Ctap2StatusCode>>(
    pre: StateModel,
    rng: R,
    check: C,
    cid: ChannelID,
    command: CommandModel,
    result: Result<ResponseData, Ctap2StatusCode>,
    post: StateModel,
    after: R,
)
    requires
        process::carried_out(pre, rng, check, cid, command, result, post, after),
        !(command is Reset),
    ensures
        post.store.encryption_key == pre.store.encryption_key,
        post.store.hmac_key == pre.store.hmac_key,
{
}

/// Only requests about the PIN, and resets, change the PIN and its tries.
pub proof fn law_pin_is_kept<R: Rng256, C: Fn(ChannelID) -> Result<(), Ctap2StatusCode>>(
    pre: StateModel,
    rng: R,
    check: C,
    cid: ChannelID,
    command: CommandModel,
    result: Result<ResponseData, Ctap2StatusCode>,
    post: StateModel,
    after: R,
)
    requires
        process::carried_out(pre, rng, check, cid, command, result, post, after),
        !(command is Reset),
        !(command is ClientPin),
    ensures
        post.store.pin_hash == pre.store.pin_hash,
        post.store.pin_retries == pre.store.pin_retries,
        post.mismatches == pre.mismatches,
        post.pin_token == pre.pin_token,
        post.key_agreement_key == pre.key_agreement_key,
{
}

/// Only making a credential, and a reset, change which credentials are stored.
pub proof fn law_credentials_are_kept<R: Rng256, C: Fn(ChannelID) -> Result<(), Ctap2StatusCode>>(
    pre: StateModel,
    rng: R,
    check: C,
    cid: ChannelID,
    command: CommandModel,
    result: Result<ResponseData, Ctap2StatusCode>,
    post: StateModel,
    after: R,
)
    requires
        process::carried_out(pre, rng, check, cid, command, result, post, after),
        !(command is Reset),
        !(command is MakeCredential),
    ensures
        post.store.credentials == pre.store.credentials,
{
}

/// Every use of a credential counts one signature more, and no other command
/// but a reset changes the counter.
pub proof fn law_uses_are_counted<R: Rng256, C: Fn(ChannelID) -> Result<(), Ctap2StatusCode>>(
    pre: StateModel,
    rng: R,
    check: C,
    cid: ChannelID,
    command: CommandModel,
    result: Result<ResponseData, Ctap2StatusCode>,
    post: StateModel,
    after: R,
)
    requires
        process::carried_out(pre, rng, check, cid, command, result, post, after),
        !(command is Reset),
    ensures
        command is GetAssertion && result is Ok ==> post.store.counter
            == state::counted(pre.store).counter,
        !(command is GetAssertion) ==> post.store.counter == pre.store.counter,
{
}

/// A response begins with a zero if and only if the request was carried out,
/// and else is the one byte of an error.
pub proof fn law_first_byte_tells(result: Result<ResponseData, Ctap2StatusCode>)
    ensures
        process::reply(result).len() >= 1,
        process::reply(result)[0] == 0 <==> result is Ok,
        result is Err ==> process::reply(result).len() == 1,
{
    if let Err(e) = result {
        crate::ctap::status_code::law_bytes_are_distinct(e, e);
    }
}

/// Each bit of the flags tells of one thing.
pub proof fn law_flags_are_independent(up: bool, uv: bool, at: bool, ed: bool)
    ensures
        state::flag_byte(up, uv, at, ed) & UP_FLAG != 0 <==> up,
        state::flag_byte(up, uv, at, ed) & UV_FLAG != 0 <==> uv,
        state::flag_byte(up, uv, at, ed) & AT_FLAG != 0 <==> at,
        state::flag_byte(up, uv, at, ed) & ED_FLAG != 0 <==> ed,
{
    let a: u8 = if up {
        1
    } else {
        0
    };
    let b: u8 = if uv {
        1
    } else {
        0
    };
    let c: u8 = if at {
        1
    } else {
        0
    };
    let d: u8 = if ed {
        1
    } else {
        0
    };
    let flags: u8 = state::flag_byte(up, uv, at, ed);
    assert(flags & 0x01 == a && flags & 0x04 == 4 * b && flags & 0x40 == 0x40 * c && flags & 0x80
        == 0x80 * d) by (bit_vector)
        requires
            a <= 1,
            b <= 1,
            c <= 1,
            d <= 1,
            flags == a + 4 * b + 0x40 * c + 0x80 * d,
    ;
}

/// The right PIN gives all tries back and forgets all mismatches, and changes
/// nothing else.
pub proof fn law_right_pin_restores_tries(
    state: StateModel,
    secret: Seq<u8>,
    pin_hash_enc: Seq<u8>,
    fresh_key: Seq<u8>,
)
    requires
        state.store.pin_hash matches Some(hash) && pin::decrypted(secret, pin_hash_enc) == hash,
        pin_hash_enc.len() == 16,
        state.mismatches < MAX_CONSECUTIVE_MISMATCHES,
    ensures
        pin::pin_checked(state, secret, pin_hash_enc, fresh_key) == (
            Ok::<(), Ctap2StatusCode>(()),
            StateModel {
                mismatches: 0,
                store: StoreModel { pin_retries: MAX_PIN_RETRIES, ..state.store },
                ..state
            },
        ),
{
}

/// A wrong PIN takes a try for good, and the next client has to agree on
/// another secret.
pub proof fn law_wrong_pin_takes_a_try(
    state: StateModel,
    secret: Seq<u8>,
    pin_hash_enc: Seq<u8>,
    fresh_key: Seq<u8>,
)
    requires
        state.valid(),
        state.store.pin_retries > 0,
        state.store.pin_hash matches Some(hash) && pin::decrypted(secret, pin_hash_enc) != hash,
        pin_hash_enc.len() == 16,
        state.mismatches < MAX_CONSECUTIVE_MISMATCHES,
    ensures
        ({
            let (result, after) = pin::pin_checked(state, secret, pin_hash_enc, fresh_key);
            &&& result is Err
            &&& after.valid()
            &&& after.store.pin_retries == state.store.pin_retries - 1
            &&& after.store.pin_hash == state.store.pin_hash
            &&& after.key_agreement_key == fresh_key
            &&& after.pin_token == state.pin_token
        }),
{
}

/// After three wrong PINs in a row, no PIN is checked any more until the next
/// start, and no tries are taken.
pub proof fn law_three_wrong_pins_block(
    state: StateModel,
    secrets: Seq<Seq<u8>>,
    hashes: Seq<Seq<u8>>,
    keys: Seq<Seq<u8>>,
)
    requires
        state.valid(),
        state.mismatches == 0,
        state.store.pin_retries > 3,
        secrets.len() == 4,
        hashes.len() == 4,
        keys.len() == 4,
        state.store.pin_hash matches Some(hash) && forall|i: int|
            0 <= i < 3 ==> hashes[i].len() == 16 && #[trigger] pin::decrypted(
                secrets[i],
                hashes[i],
            ) != hash,
    ensures
        ({
            let first = pin::pin_checked(state, secrets[0], hashes[0], keys[0]);
            let second = pin::pin_checked(first.1, secrets[1], hashes[1], keys[1]);
            let third = pin::pin_checked(second.1, secrets[2], hashes[2], keys[2]);
            let fourth = pin::pin_checked(third.1, secrets[3], hashes[3], keys[3]);
            let blocked = Err::<(), _>(Ctap2StatusCode::CTAP2_ERR_PIN_AUTH_BLOCKED);
            &&& first.0 == Err::<(), _>(Ctap2StatusCode::CTAP2_ERR_PIN_INVALID)
            &&& second.0 == Err::<(), _>(Ctap2StatusCode::CTAP2_ERR_PIN_INVALID)
            &&& third.0 == blocked
            &&& third.1.store.pin_retries == state.store.pin_retries - 3
            &&& fourth == (blocked, third.1)
        }),
{
    let hash = state.store.pin_hash->Some_0;
    assert(pin::decrypted(secrets[0], hashes[0]) != hash);
    assert(pin::decrypted(secrets[1], hashes[1]) != hash);
    assert(pin::decrypted(secrets[2], hashes[2]) != hash);
}

/// Once no tries are left, neither the token nor a new PIN is to be had, and
/// nothing is changed.
pub proof fn law_no_tries_no_service(
    state: StateModel,
    key: (Seq<u8>, Seq<u8>),
    pin_auth: Seq<u8>,
    new_pin_enc: Seq<u8>,
    pin_hash_enc: Seq<u8>,
    fresh_key: Seq<u8>,
    fresh_token: Seq<u8>,
)
    requires
        state.store.pin_retries == 0,
    ensures
        pin::token_given(state, key, pin_hash_enc, fresh_key) == (
            Err::<pin::PinAnswer, _>(Ctap2StatusCode::CTAP2_ERR_PIN_BLOCKED),
            state,
        ),
        pin::pin_changed(
            state,
            key,
            pin_auth,
            new_pin_enc,
            pin_hash_enc,
            fresh_key,
            fresh_token,
        ) == (Err::<(), _>(Ctap2StatusCode::CTAP2_ERR_PIN_BLOCKED), state),
{
}

/// A PIN that was set is the one that is accepted afterwards, and no other
/// with another digest is; and no second PIN can be set.
pub proof fn law_set_pin_is_the_pin(
    state: StateModel,
    key: (Seq<u8>, Seq<u8>),
    pin_auth: Seq<u8>,
    new_pin_enc: Seq<u8>,
    secret: Seq<u8>,
    pin_hash_enc: Seq<u8>,
    other_key: (Seq<u8>, Seq<u8>),
    other_auth: Seq<u8>,
    other_pin_enc: Seq<u8>,
)
    requires
        state.valid(),
        state.mismatches < MAX_CONSECUTIVE_MISMATCHES,
        pin::pin_set(state, key, pin_auth, new_pin_enc).0 is Ok,
        pin_hash_enc.len() == 16,
    ensures
        ({
            let after = pin::pin_set(state, key, pin_auth, new_pin_enc).1;
            let set = pin::new_pin(pin::secret_with(state, key), new_pin_enc);
            &&& set matches Some(p) && after.store.pin_hash == Some(pin::pin_digest(p)) && {
                pin::pin_check(after, secret, pin_hash_enc) is Right <==> pin::decrypted(
                    secret,
                    pin_hash_enc,
                ) == pin::pin_digest(p)
            }
            &&& after.store.pin_retries == MAX_PIN_RETRIES
            &&& pin::pin_set(after, other_key, other_auth, other_pin_enc) == (
                Err::<(), _>(Ctap2StatusCode::CTAP2_ERR_PIN_AUTH_INVALID),
                after,
            )
        }),
{
}

/// A PIN that was changed is the one that is accepted afterwards, and the token
/// is the one that was drawn.
pub proof fn law_changed_pin_is_the_pin(
    state: StateModel,
    key: (Seq<u8>, Seq<u8>),
    pin_auth: Seq<u8>,
    new_pin_enc: Seq<u8>,
    pin_hash_enc: Seq<u8>,
    fresh_key: Seq<u8>,
    fresh_token: Seq<u8>,
)
    requires
        state.valid(),
        pin::pin_changed(
            state,
            key,
            pin_auth,
            new_pin_enc,
            pin_hash_enc,
            fresh_key,
            fresh_token,
        ).0 is Ok,
    ensures
        ({
            let after = pin::pin_changed(
                state,
                key,
                pin_auth,
                new_pin_enc,
                pin_hash_enc,
                fresh_key,
                fresh_token,
            ).1;
            let set = pin::new_pin(pin::secret_with(state, key), new_pin_enc);
            &&& set matches Some(p) && after.store.pin_hash == Some(pin::pin_digest(p))
            &&& after.pin_token == fresh_token
            &&& after.mismatches == 0
            &&& after.store.pin_retries == MAX_PIN_RETRIES
        }),
{
}

/// A new PIN has at least 4 and at most 63 bytes, none of them zero.
pub proof fn law_pins_are_in_bounds(secret: Seq<u8>, new_pin_enc: Seq<u8>)
    ensures
        pin::new_pin(secret, new_pin_enc) matches Some(p) ==> 4 <= p.len() <= 63 && forall|i: int|
            0 <= i < p.len() ==> #[trigger] p[i] != 0,
{
    let plain = pin::decrypted(secret, new_pin_enc);
    if new_pin_enc.len() == 64 {
        crate::crypto::cbc::lemma_cbc_len(secret, crate::bytes::zeros(16), new_pin_enc);
    }
    lemma_until_zero(plain);
}

proof fn lemma_until_zero(s: Seq<u8>)
    ensures
        pin::until_zero(s).len() <= s.len(),
        forall|i: int| 0 <= i < pin::until_zero(s).len() ==> #[trigger] pin::until_zero(s)[i] != 0,
    decreases s.len(),
{
    if s.len() > 0 && s[0] != 0 {
        lemma_until_zero(s.skip(1));
        let rest = pin::until_zero(s.skip(1));
        assert forall|i: int| 0 <= i < pin::until_zero(s).len() implies #[trigger] pin::until_zero(
            s,
        )[i] != 0 by {
            if i > 0 {
                assert(pin::until_zero(s)[i] == rest[i - 1]);
            }
        }
    }
}

proof fn lemma_until_filling(pin: Seq<u8>, filling: nat)
    requires
        forall|i: int| 0 <= i < pin.len() ==> #[trigger] pin[i] != 0,
    ensures
        pin::until_zero(pin + crate::bytes::zeros(filling)) == pin,
    decreases pin.len(),
{
    let filled = pin + crate::bytes::zeros(filling);
    if pin.len() > 0 {
        let rest = pin.skip(1);
        lemma_until_filling(rest, filling);
        assert(filled.skip(1) =~= rest + crate::bytes::zeros(filling));
        assert(seq![pin[0]] + rest =~= pin);
    } else {
        assert(pin::until_zero(filled) =~= pin);
    }
}

/// Where there is no PIN, a client may set any of 4 to 63 bytes without a zero:
/// it fills the PIN up with zeros, encrypts and authenticates it.
pub proof fn law_proper_pin_is_set(
    state: StateModel,
    key: (Seq<u8>, Seq<u8>),
    pin_auth: Seq<u8>,
    new_pin_enc: Seq<u8>,
    pin: Seq<u8>,
)
    requires
        state.store.pin_hash is None,
        crate::crypto::p256::is_point(key.0, key.1),
        pin::authenticated(pin::secret_with(state, key), new_pin_enc, pin_auth),
        4 <= pin.len() <= 63,
        forall|i: int| 0 <= i < pin.len() ==> #[trigger] pin[i] != 0,
        new_pin_enc.len() == 64,
        pin::decrypted(pin::secret_with(state, key), new_pin_enc) == pin + crate::bytes::zeros(
            (64 - pin.len()) as nat,
        ),
    ensures
        ({
            let (result, after) = pin::pin_set(state, key, pin_auth, new_pin_enc);
            &&& result is Ok
            &&& after.store.pin_hash == Some(pin::pin_digest(pin))
            &&& after.store.pin_retries == MAX_PIN_RETRIES
        }),
{
    lemma_until_filling(pin, (64 - pin.len()) as nat);
}

/// Requests about the PIN touch neither credentials nor keys nor the counter,
/// and keep what holds of every state.
pub proof fn law_client_pin_keeps_the_rest(
    state: StateModel,
    params: ClientPinModel,
    fresh_key: Seq<u8>,
    fresh_token: Seq<u8>,
)
    requires
        state.valid(),
        fresh_token.len() == 32,
    ensures
        ({
            let after = pin::client_pin(state, params, fresh_key, fresh_token).1;
            &&& after.valid()
            &&& after.store.credentials == state.store.credentials
            &&& after.store.counter == state.store.counter
            &&& after.store.encryption_key == state.store.encryption_key
            &&& after.store.hmac_key == state.store.hmac_key
            &&& after.accepts_reset == state.accepts_reset
        }),
{
}

/// Where a PIN is set, no credential is made for a request without the right
/// authentication.
pub proof fn law_pin_protects_making<R: Rng256, C: Fn(ChannelID) -> Result<(), Ctap2StatusCode>>(
    pre: StateModel,
    rng: R,
    check: C,
    cid: ChannelID,
    params: MakeCredentialModel,
    result: Result<ResponseData, Ctap2StatusCode>,
    post: StateModel,
    after: R,
)
    requires
        make_credential::did_make_credential(pre, rng, check, cid, params, result, post, after),
        pre.store.pin_hash is Some,
        match params.pin_uv_auth_param {
            Some(auth) => !pin::authenticated(pre.pin_token, params.client_data_hash, auth),
            None => true,
        },
    ensures
        result is Err,
        post == pre,
{
}

/// A credential that needs user verification is not used for a request without
/// it.
pub proof fn law_protected_credential_needs_verification(
    state: StateModel,
    params: GetAssertionModel,
)
    requires
        params.pin_uv_auth_param is None,
    ensures
        get_assertion::chosen(state, params) matches Some(c) ==> !c.needs_verification(),
{
    match params.allow_list {
        Some(list) => {
            lemma_first_found_unprotected(state, params.rp_id, list);
            lemma_first_opened_unprotected(
                state,
                make_credential::rp_id_hash(params.rp_id),
                list,
            );
        },
        None => {
            let wanted = storage::is_listed(params.rp_id, true);
            storage::lemma_filtered(state.store.credentials, wanted);
        },
    }
}

proof fn lemma_first_found_unprotected(
    state: StateModel,
    rp_id: Seq<char>,
    list: Seq<DescriptorModel>,
)
    ensures
        get_assertion::first_found(state, rp_id, list, true) matches Some(c)
            ==> !c.needs_verification(),
    decreases list.len(),
{
    if list.len() > 0 {
        lemma_first_found_unprotected(state, rp_id, list.skip(1));
    }
}

proof fn lemma_first_opened_unprotected(
    state: StateModel,
    rp_id_hash: Seq<u8>,
    list: Seq<DescriptorModel>,
)
    ensures
        get_assertion::first_opened(state, rp_id_hash, list) matches Some(c)
            ==> !c.needs_verification(),
    decreases list.len(),
{
    if list.len() > 0 {
        lemma_first_opened_unprotected(state, rp_id_hash, list.skip(1));
    }
}

/// A credential whose use needs its name or user verification is not found by a
/// request with neither.
pub proof fn law_only_discoverable_are_found(
    state: StateModel,
    params: GetAssertionModel,
)
    requires
        params.pin_uv_auth_param is None,
        params.allow_list is None,
    ensures
        get_assertion::chosen(state, params) matches Some(c) ==> c.discoverable() && c.rp_id
            == params.rp_id,
{
    let wanted = storage::is_listed(params.rp_id, true);
    storage::lemma_filtered(state.store.credentials, wanted);
}

/// A credential that was made and not stored is used by a request of the same
/// relying party that names it, unless one that is stored has the same ID.
pub proof fn law_made_credential_is_used(
    pre: StateModel,
    params: MakeCredentialModel,
    draws: Draws,
    result: Result<ResponseData, Ctap2StatusCode>,
    post: StateModel,
    request: GetAssertionModel,
)
    requires
        make_credential::made_with(pre, params, draws, result, post),
        !params.options.rk,
        request.rp_id == params.rp.rp_id,
        request.allow_list matches Some(list) && list.len() == 1 && list[0].key_id
            == make_credential::new_credential_id(pre, params, draws),
        storage::first_named(
            post.store.credentials,
            request.rp_id,
            make_credential::new_credential_id(pre, params, draws),
        ) is None,
    ensures
        get_assertion::chosen(post, request) == Some(
            credential_id::opened_credential(
                make_credential::new_credential_id(pre, params, draws),
                draws.private_key,
            ),
        ),
{
    let list = request.allow_list->Some_0;
    reveal_with_fuel(get_assertion::first_found, 2);
    reveal_with_fuel(get_assertion::first_opened, 2);
    assert(list.skip(1).len() == 0);
}

/// Where all stored credentials have IDs of 32 bytes, none is stored under an
/// ID of another length.
pub proof fn law_long_ids_are_not_stored(
    credentials: Seq<CredentialModel>,
    rp_id: Seq<char>,
    id: Seq<u8>,
)
    requires
        ids_are_short(credentials),
        id.len() != 32,
    ensures
        storage::first_named(credentials, rp_id, id) is None,
    decreases credentials.len(),
{
    if credentials.len() > 0 {
        assert(credentials[0].credential_id.len() == 32);
        assert forall|i: int| 0 <= i < credentials.skip(1).len() implies (
        #[trigger] credentials.skip(1)[i]).credential_id.len() == 32 by {
            assert(credentials.skip(1)[i] == credentials[i + 1]);
        }
        law_long_ids_are_not_stored(credentials.skip(1), rp_id, id);
    }
}

/// Where a new credential's ID and public key stand in the data that it is
/// attested in.
proof fn lemma_new_auth_data(pre: StateModel, params: MakeCredentialModel, draws: Draws)
    requires
        make_credential::new_credential_id(pre, params, draws).len() == 112,
    ensures
        ({
            let data = make_credential::new_auth_data(pre, params, draws);
            let public_key = ecdsa::public_key(draws.private_key);
            &&& data.len() >= 167
            &&& data.subrange(55, 167) == make_credential::new_credential_id(pre, params, draws)
            &&& model::encode(
                ecdsa::cose_item(ecdsa::ES256_NEGATED, public_key.0, public_key.1),
            ).is_prefix_of(data.skip(167))
        }),
{
    let data = make_credential::new_auth_data(pre, params, draws);
    let id = make_credential::new_credential_id(pre, params, draws);
    let public_key = ecdsa::public_key(draws.private_key);
    let key = model::encode(ecdsa::cose_item(ecdsa::ES256_NEGATED, public_key.0, public_key.1));
    let start = state::auth_data(
        make_credential::rp_id_hash(params.rp.rp_id),
        state::flag_byte(
            true,
            params.pin_uv_auth_param is Some,
            true,
            make_credential::has_extension(params),
        ),
        pre.store.counter,
    );
    crate::bytes::lemma_powers();
    crate::bytes::lemma_be_nat_of_bytes(pre.store.counter as nat, 4);
    assert(start.len() == 37);
    assert(AAGUID@.len() == 16);
    let rest = data.skip(37);
    assert(rest.subrange(18, 130) =~= id);
    assert(data.subrange(55, 167) =~= id);
    assert(key =~= data.skip(167).subrange(0, key.len() as int));
}

/// A credential that was made and not stored serves the relying party that it
/// was made for, and no other. Let a request have made it, and let the
/// authenticator not have been reset since. A request of the same relying party
/// that names the ID out of the answer, and whose user is present if that is
/// asked for, gets an assertion under that ID and over the hash of the relying
/// party's ID, whose signature the public key out of the answer accepts (unless
/// there is no signature). A request of a relying party whose ID has another
/// hash gets none. Left out are authenticators that store a credential of the
/// requesting party under that same ID.
pub proof fn law_unstored_credential_serves_its_party<
    R: Rng256,
    C: Fn(ChannelID) -> Result<(), Ctap2StatusCode>,
    D: Fn(ChannelID) -> Result<(), Ctap2StatusCode>,
>(
    pre: StateModel,
    rng: R,
    check: C,
    cid: ChannelID,
    params: MakeCredentialModel,
    answer: AuthenticatorMakeCredentialResponse,
    post: StateModel,
    after: R,
    later: StateModel,
    later_check: D,
    later_cid: ChannelID,
    request: GetAssertionModel,
    used: Result<ResponseData, Ctap2StatusCode>,
    end: StateModel,
)
    requires
        make_credential::did_make_credential(
            pre,
            rng,
            check,
            cid,
            params,
            Ok(ResponseData::AuthenticatorMakeCredential(answer)),
            post,
            after,
        ),
        !params.options.rk,
        later.store.encryption_key == post.store.encryption_key,
        later.store.hmac_key == post.store.hmac_key,
        storage::first_named(
            later.store.credentials,
            request.rp_id,
            answer.auth_data@.subrange(55, 167),
        ) is None,
        get_assertion::did_get_assertion(later, later_check, later_cid, request, used, end),
        request.allow_list matches Some(list) && list.len() == 1 && list[0].key_id
            == answer.auth_data@.subrange(55, 167),
        request.extensions is None,
        request.pin_uv_auth_param is None,
        !request.options.uv,
        request.rp_id == params.rp.rp_id || make_credential::rp_id_hash(request.rp_id)
            != make_credential::rp_id_hash(params.rp.rp_id),
        request.options.up ==> forall|presence: Result<(), Ctap2StatusCode>| #[trigger]
            call_ensures(later_check, (later_cid,), presence) ==> presence is Ok,
    ensures
        request.rp_id != params.rp.rp_id ==> used == Err::<ResponseData, _>(
            Ctap2StatusCode::CTAP2_ERR_NO_CREDENTIALS,
        ) && end == later,
        request.rp_id == params.rp.rp_id ==> exists|private_key: Seq<u8>|
            serves(answer, later, request, used, private_key),
{
    let id = answer.auth_data@.subrange(55, 167);
    let list = request.allow_list->Some_0;
    let draws = choose|draws: Draws|
        #[trigger] make_credential::made_with(
            pre,
            params,
            draws,
            Ok(ResponseData::AuthenticatorMakeCredential(answer)),
            post,
        );
    lemma_new_auth_data(pre, params, draws);
    reveal_with_fuel(get_assertion::first_found, 2);
    reveal_with_fuel(get_assertion::first_opened, 2);
    assert(list.skip(1).len() == 0);
    assert(credential_id::opened(
        later.store,
        id,
        make_credential::rp_id_hash(params.rp.rp_id),
    ) == Some(draws.private_key));
    if request.rp_id == params.rp.rp_id {
        assert(get_assertion::chosen(later, request) == Some(
            credential_id::opened_credential(id, draws.private_key),
        ));
        assert(serves(answer, later, request, used, draws.private_key)) by {
            if let Ok(ResponseData::AuthenticatorGetAssertion(r)) = used {
                assert(r.auth_data@.take(32) =~= make_credential::rp_id_hash(request.rp_id));
            }
        }
    } else {
        law_id_is_bound_to_one_party(
            later.store,
            id,
            make_credential::rp_id_hash(params.rp.rp_id),
            make_credential::rp_id_hash(request.rp_id),
        );
        assert(get_assertion::chosen(later, request) is None);
    }
}

/// Whether all credentials have IDs of 32 bytes.
pub open spec fn ids_are_short(credentials: Seq<CredentialModel>) -> bool {
    forall|i: int|
        0 <= i < credentials.len() ==> (#[trigger] credentials[i]).credential_id.len() == 32
}

/// No command stores a credential with an ID of another length than 32 bytes.
/// An authenticator that started stores none, so its stored IDs are never as
/// long as those that hold their credential.
pub proof fn law_stored_ids_are_short<
    R: Rng256,
    C: Fn(ChannelID) -> Result<(), Ctap2StatusCode>,
>(
    pre: StateModel,
    rng: R,
    check: C,
    cid: ChannelID,
    command: CommandModel,
    result: Result<ResponseData, Ctap2StatusCode>,
    post: StateModel,
    after: R,
)
    requires
        process::carried_out(pre, rng, check, cid, command, result, post, after),
    ensures
        state::is_initial(pre) ==> ids_are_short(pre.store.credentials),
        ids_are_short(pre.store.credentials) ==> ids_are_short(post.store.credentials),
{
    if let CommandModel::MakeCredential(params) = command {
        if ids_are_short(pre.store.credentials) && post.store.credentials != pre.store.credentials {
            let draws = choose|draws: Draws|
                draws.id.len() == 32 && #[trigger] make_credential::made_with(
                    pre,
                    params,
                    draws,
                    result,
                    post,
                );
            let credential = make_credential::new_credential(params, draws);
            let others = storage::is_other(credential);
            storage::lemma_filter_subset(pre.store.credentials, others);
            let kept = pre.store.credentials.filter(others);
            assert(post.store.credentials == kept.push(credential));
            assert forall|i: int| 0 <= i < post.store.credentials.len() implies (
            #[trigger] post.store.credentials[i]).credential_id.len() == 32 by {
                if i < kept.len() {
                    assert(pre.store.credentials.contains(kept[i]));
                }
            }
        }
    }
}

/// Whether the private key of the credential that an answer tells of was used
/// for a request without extensions and without user verification.
pub open spec fn serves(
    answer: AuthenticatorMakeCredentialResponse,
    state: StateModel,
    request: GetAssertionModel,
    used: Result<ResponseData, Ctap2StatusCode>,
    private_key: Seq<u8>,
) -> bool {
    let public_key = ecdsa::public_key(private_key);
    let auth_data = state::auth_data(
        make_credential::rp_id_hash(request.rp_id),
        state::flag_byte(request.options.up, false, false, false),
        state::counted(state.store).counter,
    );
    let signed = auth_data + request.client_data_hash;
    &&& model::encode(
        ecdsa::cose_item(ecdsa::ES256_NEGATED, public_key.0, public_key.1),
    ).is_prefix_of(answer.auth_data@.skip(167))
    &&& match ecdsa::signature(private_key, signed) {
        Some(signature) => used matches Ok(ResponseData::AuthenticatorGetAssertion(r)) && {
            &&& r.credential matches Some(descriptor) && descriptor.key_id@
                == answer.auth_data@.subrange(55, 167)
            &&& r.auth_data@ == auth_data
            &&& r.auth_data@.take(32) == make_credential::rp_id_hash(request.rp_id)
            &&& r.signature@ == ecdsa::der_signature(signature)
            &&& ecdsa::accepts(public_key, r.auth_data@ + request.client_data_hash, signature)
        },
        None => used == Err::<ResponseData, _>(Ctap2StatusCode::CTAP1_ERR_OTHER),
    }
}

/// A credential that was made and stored is used by a request of the same
/// relying party that names it, if no other has the same ID and, where it needs
/// user verification, the user is verified.
pub proof fn law_stored_credential_is_used(
    pre: StateModel,
    params: MakeCredentialModel,
    draws: Draws,
    result: Result<ResponseData, Ctap2StatusCode>,
    post: StateModel,
    request: GetAssertionModel,
)
    requires
        pre.valid(),
        make_credential::made_with(pre, params, draws, result, post),
        params.options.rk,
        result is Ok,
        request.rp_id == params.rp.rp_id,
        request.allow_list matches Some(list) && list.len() == 1 && list[0].key_id == draws.id,
        storage::first_named(pre.store.credentials, request.rp_id, draws.id) is None,
        request.pin_uv_auth_param is Some || !make_credential::new_credential(
            params,
            draws,
        ).needs_verification(),
    ensures
        get_assertion::chosen(post, request) == Some(make_credential::new_credential(params, draws)),
{
    let credential = make_credential::new_credential(params, draws);
    storage::law_stored_is_found(pre.store.credentials, credential);
    reveal_with_fuel(get_assertion::first_found, 2);
    assert(request.allow_list->Some_0.skip(1).len() == 0);
}

/// The signature of every use of a credential is accepted by the public key of
/// the credential that was used.
pub proof fn law_assertions_verify(
    pre: StateModel,
    params: GetAssertionModel,
    credential: CredentialModel,
    result: Result<ResponseData, Ctap2StatusCode>,
    post: StateModel,
)
    requires
        get_assertion::asserted_with(pre, params, credential, result, post),
        result is Ok,
    ensures
        result matches Ok(ResponseData::AuthenticatorGetAssertion(r)) && exists|
            signature: (Seq<u8>, Seq<u8>),
        |
            r.signature@ == #[trigger] ecdsa::der_signature(signature) && ecdsa::accepts(
                ecdsa::public_key(credential.private_key),
                r.auth_data@ + params.client_data_hash,
                signature,
            ),
{
}

} // verus!
