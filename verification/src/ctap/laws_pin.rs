//! What the PIN protocol is for.

use crate::bytes;
use crate::crypto::cbc;
use crate::crypto::ecdh;
use crate::crypto::ecdsa;
use crate::crypto::hmac;
use crate::crypto::p256;
use crate::crypto::rng256::Rng256;
use crate::crypto::sha256;
use crate::ctap::command::ClientPinModel;
use crate::ctap::data_formats::ClientPinSubCommand;
use crate::ctap::pin;
use crate::ctap::response::{AuthenticatorClientPinResponse, ResponseData};
use crate::ctap::state::StateModel;
use crate::ctap::status_code::Ctap2StatusCode;
use vstd::prelude::*;

verus! {

/// What was encrypted with the secret that a client shares.
pub open spec fn sent_in_secret(state: StateModel, key: (Seq<u8>, Seq<u8>), data: Seq<u8>) -> Seq<
    u8,
> {
    cbc::cbc_dec(ecdh::shared_secret(state.key_agreement_key, key), bytes::zeros(16), data)
}

/// Whether data is authenticated with the secret that a client shares.
pub open spec fn is_authentic(
    state: StateModel,
    key: (Seq<u8>, Seq<u8>),
    data: Seq<u8>,
    pin_auth: Seq<u8>,
) -> bool {
    pin_auth.len() == 16 && hmac::hmac_sha256(
        ecdh::shared_secret(state.key_agreement_key, key),
        data,
    ).take(16) == pin_auth
}

/// Whether a client sends a PIN that may be set: 4 to 63 bytes, none of them
/// zero, with a zero behind them, in 64 bytes.
pub open spec fn sends_pin(
    state: StateModel,
    key: (Seq<u8>, Seq<u8>),
    new_pin_enc: Seq<u8>,
    pin: Seq<u8>,
) -> bool {
    let sent = sent_in_secret(state, key, new_pin_enc);
    &&& new_pin_enc.len() == 64
    &&& 4 <= pin.len() <= 63
    &&& pin == sent.take(pin.len() as int)
    &&& sent[pin.len() as int] == 0
    &&& forall|i: int| 0 <= i < pin.len() ==> #[trigger] pin[i] != 0
}

proof fn lemma_until_zero(s: Seq<u8>, n: int)
    requires
        0 <= n < s.len(),
        s[n] == 0,
        forall|i: int| 0 <= i < n ==> #[trigger] s[i] != 0,
    ensures
        pin::until_zero(s) == s.take(n),
    decreases s.len(),
{
    if n > 0 {
        assert forall|i: int| 0 <= i < n - 1 implies #[trigger] s.skip(1)[i] != 0 by {
            assert(s[i + 1] != 0);
        }
        lemma_until_zero(s.skip(1), n - 1);
        assert(seq![s[0]] + s.skip(1).take(n - 1) =~= s.take(n));
    } else {
        assert(s.take(0) =~= Seq::<u8>::empty());
    }
}

proof fn lemma_until_zero_ends(s: Seq<u8>)
    ensures
        ({
            let pin = pin::until_zero(s);
            &&& pin.len() <= s.len()
            &&& pin == s.take(pin.len() as int)
            &&& pin.len() < s.len() ==> s[pin.len() as int] == 0
            &&& forall|i: int| 0 <= i < pin.len() ==> #[trigger] pin[i] != 0
        }),
    decreases s.len(),
{
    let pin = pin::until_zero(s);
    if s.len() > 0 && s[0] != 0 {
        let rest = pin::until_zero(s.skip(1));
        lemma_until_zero_ends(s.skip(1));
        assert(pin =~= s.take(pin.len() as int));
        assert forall|i: int| 0 <= i < pin.len() implies #[trigger] pin[i] != 0 by {
            if i > 0 {
                assert(pin[i] == rest[i - 1]);
            }
        }
    } else {
        assert(pin =~= s.take(0));
    }
}

/// The PIN that the contracts speak of is the one that a client sends.
proof fn lemma_new_pin(state: StateModel, key: (Seq<u8>, Seq<u8>), new_pin_enc: Seq<u8>)
    ensures
        forall|p: Seq<u8>| #[trigger]
            sends_pin(state, key, new_pin_enc, p) ==> pin::new_pin(
                pin::secret_with(state, key),
                new_pin_enc,
            ) == Some(p),
        pin::new_pin(pin::secret_with(state, key), new_pin_enc) matches Some(p) ==> sends_pin(
            state,
            key,
            new_pin_enc,
            p,
        ),
{
    let secret = pin::secret_with(state, key);
    let sent = sent_in_secret(state, key, new_pin_enc);
    if new_pin_enc.len() == 64 {
        cbc::lemma_cbc_len(secret, bytes::zeros(16), new_pin_enc);
        lemma_until_zero_ends(sent);
        assert forall|p: Seq<u8>| #[trigger] sends_pin(state, key, new_pin_enc, p) implies
            pin::new_pin(secret, new_pin_enc) == Some(p) by {
            assert forall|i: int| 0 <= i < p.len() implies #[trigger] sent[i] != 0 by {
                assert(p[i] != 0);
            }
            lemma_until_zero(sent, p.len() as int);
        }
    }
}

/// Whether all that is stored, but for the PIN and its tries, is as it was.
pub open spec fn keeps_store(pre: StateModel, post: StateModel) -> bool {
    &&& post.store.credentials == pre.store.credentials
    &&& post.store.counter == pre.store.counter
    &&& post.store.encryption_key == pre.store.encryption_key
    &&& post.store.hmac_key == pre.store.hmac_key
    &&& post.accepts_reset == pre.accepts_reset
    &&& post.u2f_up_state == pre.u2f_up_state
}

/// Whether a request about the PIN was refused with nothing done.
pub open spec fn is_plain_refusal<R: Rng256>(
    pre: StateModel,
    rng: R,
    error: Ctap2StatusCode,
    result: Result<ResponseData, Ctap2StatusCode>,
    post: StateModel,
    after: R,
) -> bool {
    result == Err::<ResponseData, _>(error) && post == pre && after == rng
}

/// Whether a request about the PIN is answered without data.
pub open spec fn is_done(result: Result<ResponseData, Ctap2StatusCode>) -> bool {
    result matches Ok(ResponseData::AuthenticatorClientPin(answer)) && answer is None
}

/// Whether a request about the PIN is answered with data.
pub open spec fn is_answered(
    result: Result<ResponseData, Ctap2StatusCode>,
    answer: AuthenticatorClientPinResponse,
) -> bool {
    result == Ok::<ResponseData, Ctap2StatusCode>(
        ResponseData::AuthenticatorClientPin(Some(answer)),
    )
}

/// A request in another version of the PIN protocol is refused, and changes
/// nothing.
pub proof fn law_other_protocols_are_refused<R: Rng256>(
    pre: StateModel,
    rng: R,
    params: ClientPinModel,
    result: Result<ResponseData, Ctap2StatusCode>,
    post: StateModel,
    after: R,
)
    requires
        pin::did_client_pin(pre, rng, params, result, post, after),
        params.pin_protocol != 1,
    ensures
        is_plain_refusal(
            pre,
            rng,
            Ctap2StatusCode::CTAP2_ERR_PIN_AUTH_INVALID,
            result,
            post,
            after,
        ),
{
}

/// Whether a request about the PIN brings all that it needs.
pub open spec fn is_complete(params: ClientPinModel) -> bool {
    match params.sub_command {
        ClientPinSubCommand::GetPinRetries => true,
        ClientPinSubCommand::GetKeyAgreement => true,
        ClientPinSubCommand::SetPin => params.key_agreement is Some && params.pin_auth is Some
            && params.new_pin_enc is Some,
        ClientPinSubCommand::ChangePin => params.key_agreement is Some && params.pin_auth is Some
            && params.new_pin_enc is Some && params.pin_hash_enc is Some,
        ClientPinSubCommand::GetPinToken => params.key_agreement is Some && params.pin_hash_enc
            is Some,
        ClientPinSubCommand::GetPinUvAuthTokenUsingUvWithPermissions => params.key_agreement
            is Some,
        ClientPinSubCommand::GetUvRetries => true,
        ClientPinSubCommand::SetMinPinLength => params.min_pin_length is Some
            && params.min_pin_length_rp_ids is Some && params.pin_auth is Some,
        ClientPinSubCommand::GetPinUvAuthTokenUsingPinWithPermissions => params.key_agreement
            is Some && params.pin_hash_enc is Some && params.permissions is Some
            && params.permissions_rp_id is Some,
    }
}

/// A request that does not bring all that it needs is refused, and changes
/// nothing.
pub proof fn law_incomplete_requests_are_refused<R: Rng256>(
    pre: StateModel,
    rng: R,
    params: ClientPinModel,
    result: Result<ResponseData, Ctap2StatusCode>,
    post: StateModel,
    after: R,
)
    requires
        pin::did_client_pin(pre, rng, params, result, post, after),
        params.pin_protocol == 1,
        !is_complete(params),
    ensures
        is_plain_refusal(
            pre,
            rng,
            Ctap2StatusCode::CTAP2_ERR_MISSING_PARAMETER,
            result,
            post,
            after,
        ),
{
}

/// Whoever asks how many tries for the PIN are left is told the number that are
/// left, and nothing else. Asking changes nothing.
pub proof fn law_tries_left_are_told<R: Rng256>(
    pre: StateModel,
    rng: R,
    params: ClientPinModel,
    result: Result<ResponseData, Ctap2StatusCode>,
    post: StateModel,
    after: R,
)
    requires
        pin::did_client_pin(pre, rng, params, result, post, after),
        params.pin_protocol == 1,
        params.sub_command is GetPinRetries,
    ensures
        post == pre,
        after == rng,
        exists|answer: AuthenticatorClientPinResponse| #[trigger]
            is_answered(result, answer) && answer.retries == Some(pre.store.pin_retries as u64)
                && answer.key_agreement is None && answer.pin_token is None,
{
    let answer = result->Ok_0->AuthenticatorClientPin_0->Some_0;
    assert(is_answered(result, answer));
}

/// Whoever asks for the key for key agreement is told the public key of the one
/// that secrets are shared with, and nothing else. Asking changes nothing.
pub proof fn law_agreement_key_is_told<R: Rng256>(
    pre: StateModel,
    rng: R,
    params: ClientPinModel,
    result: Result<ResponseData, Ctap2StatusCode>,
    post: StateModel,
    after: R,
)
    requires
        pin::did_client_pin(pre, rng, params, result, post, after),
        params.pin_protocol == 1,
        params.sub_command is GetKeyAgreement,
    ensures
        post == pre,
        after == rng,
        exists|answer: AuthenticatorClientPinResponse| #[trigger]
            is_answered(result, answer) && answer.retries is None && answer.pin_token is None && (
            answer.key_agreement matches Some(key) && (key.x@, key.y@) == ecdsa::public_key(
                pre.key_agreement_key,
            )),
{
    let answer = result->Ok_0->AuthenticatorClientPin_0->Some_0;
    assert(is_answered(result, answer));
}

/// A first PIN is set exactly if there is none, the client sent a point, the
/// encrypted PIN is authentic, and it is a PIN that may be set. What is kept of
/// it is the first half of its hash, and all tries are given. Otherwise nothing
/// changes, and the client is told why.
pub proof fn law_first_pin_is_set<R: Rng256>(
    pre: StateModel,
    rng: R,
    params: ClientPinModel,
    key: (Seq<u8>, Seq<u8>),
    pin_auth: Seq<u8>,
    new_pin_enc: Seq<u8>,
    result: Result<ResponseData, Ctap2StatusCode>,
    post: StateModel,
    after: R,
)
    requires
        pin::did_client_pin(pre, rng, params, result, post, after),
        params.pin_protocol == 1,
        params.sub_command is SetPin,
        params.key_agreement == Some(key),
        params.pin_auth == Some(pin_auth),
        params.new_pin_enc == Some(new_pin_enc),
    ensures
        pre.store.pin_hash is Some ==> is_plain_refusal(
            pre,
            rng,
            Ctap2StatusCode::CTAP2_ERR_PIN_AUTH_INVALID,
            result,
            post,
            after,
        ),
        pre.store.pin_hash is None && !p256::is_point(key.0, key.1) ==> is_plain_refusal(
            pre,
            rng,
            Ctap2StatusCode::CTAP1_ERR_INVALID_PARAMETER,
            result,
            post,
            after,
        ),
        pre.store.pin_hash is None && p256::is_point(key.0, key.1) && !is_authentic(
            pre,
            key,
            new_pin_enc,
            pin_auth,
        ) ==> is_plain_refusal(
            pre,
            rng,
            Ctap2StatusCode::CTAP2_ERR_PIN_AUTH_INVALID,
            result,
            post,
            after,
        ),
        pre.store.pin_hash is None && p256::is_point(key.0, key.1) && is_authentic(
            pre,
            key,
            new_pin_enc,
            pin_auth,
        ) ==> {
            &&& (forall|p: Seq<u8>| !#[trigger] sends_pin(pre, key, new_pin_enc, p))
                ==> is_plain_refusal(
                pre,
                rng,
                Ctap2StatusCode::CTAP2_ERR_PIN_POLICY_VIOLATION,
                result,
                post,
                after,
            )
            &&& forall|p: Seq<u8>| #[trigger]
                sends_pin(pre, key, new_pin_enc, p) ==> {
                    &&& is_done(result)
                    &&& post.store.pin_hash == Some(sha256::sha256(p).take(16))
                    &&& post.store.pin_retries == 8
                    &&& keeps_store(pre, post)
                    &&& post.key_agreement_key == pre.key_agreement_key
                    &&& post.pin_token == pre.pin_token
                    &&& post.mismatches == pre.mismatches
                    &&& after == rng
                }
        },
{
    lemma_new_pin(pre, key, new_pin_enc);
}

/// Whether a client sends the PIN: encrypted, the hash of it that is kept.
pub open spec fn knows_pin(
    state: StateModel,
    key: (Seq<u8>, Seq<u8>),
    pin_hash_enc: Seq<u8>,
) -> bool {
    pin_hash_enc.len() == 16 && state.store.pin_hash == Some(
        sent_in_secret(state, key, pin_hash_enc),
    )
}

/// Whether a client may still try a PIN: one is set, not three wrong ones were
/// given since the start, and tries are left.
pub open spec fn may_try(state: StateModel) -> bool {
    state.store.pin_hash is Some && state.mismatches < 3 && state.store.pin_retries > 0
}

/// Whether a request was refused because its client does not know the PIN, or
/// may not try it. Who may try loses a try. A wrong PIN also counts as a
/// mismatch, unless it was the last try, and costs the client the secret that
/// is shared: a new key is drawn. Who has no more tries is told so, and so is
/// who may try again only after the next start.
pub open spec fn is_pin_failure<R: Rng256>(
    pre: StateModel,
    rng: R,
    pin_hash_enc: Seq<u8>,
    result: Result<ResponseData, Ctap2StatusCode>,
    post: StateModel,
    after: R,
) -> bool {
    if pre.store.pin_hash is None {
        is_plain_refusal(
            pre,
            rng,
            Ctap2StatusCode::CTAP2_ERR_PIN_REQUIRED,
            result,
            post,
            after,
        )
    } else if pre.mismatches >= 3 {
        is_plain_refusal(
            pre,
            rng,
            Ctap2StatusCode::CTAP2_ERR_PIN_AUTH_BLOCKED,
            result,
            post,
            after,
        )
    } else {
        &&& post.store.pin_retries == pre.store.pin_retries - 1
        &&& post.store.pin_hash == pre.store.pin_hash
        &&& keeps_store(pre, post)
        &&& post.pin_token == pre.pin_token
        &&& if pin_hash_enc.len() != 16 {
            &&& result == Err::<ResponseData, _>(Ctap2StatusCode::CTAP2_ERR_PIN_INVALID)
            &&& post.key_agreement_key == pre.key_agreement_key
            &&& post.mismatches == pre.mismatches
            &&& after == rng
        } else {
            &&& p256::is_scalar(post.key_agreement_key) && rng.draws_scalar(
                post.key_agreement_key,
                after,
            )
            &&& if post.store.pin_retries == 0 {
                &&& result == Err::<ResponseData, _>(Ctap2StatusCode::CTAP2_ERR_PIN_BLOCKED)
                &&& post.mismatches == pre.mismatches
            } else {
                &&& post.mismatches == pre.mismatches + 1
                &&& result == Err::<ResponseData, _>(
                    if post.mismatches == 3 {
                        Ctap2StatusCode::CTAP2_ERR_PIN_AUTH_BLOCKED
                    } else {
                        Ctap2StatusCode::CTAP2_ERR_PIN_INVALID
                    },
                )
            }
        }
    }
}

/// Whether the right PIN did what it does: all tries are given back, and no
/// mismatch counts any more.
pub open spec fn gives_tries_back(pre: StateModel, post: StateModel) -> bool {
    &&& post.store.pin_retries == 8
    &&& post.mismatches == 0
    &&& post.key_agreement_key == pre.key_agreement_key
    &&& keeps_store(pre, post)
}

/// The token is given exactly to a client that sends a point, may try, and knows
/// the PIN: encrypted so that the secret it shares decrypts it. Others are told
/// why they do not get it.
pub proof fn law_token_is_for_who_knows_the_pin<R: Rng256>(
    pre: StateModel,
    rng: R,
    params: ClientPinModel,
    key: (Seq<u8>, Seq<u8>),
    pin_hash_enc: Seq<u8>,
    result: Result<ResponseData, Ctap2StatusCode>,
    post: StateModel,
    after: R,
)
    requires
        pre.valid(),
        pin::did_client_pin(pre, rng, params, result, post, after),
        params.pin_protocol == 1,
        params.sub_command is GetPinToken,
        params.key_agreement == Some(key),
        params.pin_hash_enc == Some(pin_hash_enc),
    ensures
        pre.store.pin_retries == 0 ==> is_plain_refusal(
            pre,
            rng,
            Ctap2StatusCode::CTAP2_ERR_PIN_BLOCKED,
            result,
            post,
            after,
        ),
        pre.store.pin_retries > 0 && !p256::is_point(key.0, key.1) ==> is_plain_refusal(
            pre,
            rng,
            Ctap2StatusCode::CTAP1_ERR_INVALID_PARAMETER,
            result,
            post,
            after,
        ),
        pre.store.pin_retries > 0 && p256::is_point(key.0, key.1) && !(may_try(pre) && knows_pin(
            pre,
            key,
            pin_hash_enc,
        )) ==> is_pin_failure(pre, rng, pin_hash_enc, result, post, after),
        p256::is_point(key.0, key.1) && may_try(pre) && knows_pin(pre, key, pin_hash_enc) ==> {
            &&& exists|answer: AuthenticatorClientPinResponse| #[trigger]
                is_answered(result, answer) && answer.key_agreement is None && answer.retries
                    is None && (answer.pin_token matches Some(token) && token@.len() == 32
                    && sent_in_secret(pre, key, token@) == pre.pin_token)
            &&& gives_tries_back(pre, post)
            &&& post.store.pin_hash == pre.store.pin_hash
            &&& post.pin_token == pre.pin_token
            &&& after == rng
        },
{
    let secret = pin::secret_with(pre, key);
    cbc::lemma_cbc_len(secret, bytes::zeros(16), pre.pin_token);
    if p256::is_point(key.0, key.1) && may_try(pre) && knows_pin(pre, key, pin_hash_enc) {
        let answer = result->Ok_0->AuthenticatorClientPin_0->Some_0;
        assert(is_answered(result, answer));
    }
}

/// The PIN is changed exactly for a client that sends a point, authenticates its
/// request, may try, knows the PIN, and sends one that may be set; a new token
/// is drawn then. The tries are given back to who knows the PIN, even if the new
/// one may not be set. Others are told why it is not changed.
pub proof fn law_pin_is_changed_for_who_knows_it<R: Rng256>(
    pre: StateModel,
    rng: R,
    params: ClientPinModel,
    key: (Seq<u8>, Seq<u8>),
    pin_auth: Seq<u8>,
    new_pin_enc: Seq<u8>,
    pin_hash_enc: Seq<u8>,
    result: Result<ResponseData, Ctap2StatusCode>,
    post: StateModel,
    after: R,
)
    requires
        pin::did_client_pin(pre, rng, params, result, post, after),
        params.pin_protocol == 1,
        params.sub_command is ChangePin,
        params.key_agreement == Some(key),
        params.pin_auth == Some(pin_auth),
        params.new_pin_enc == Some(new_pin_enc),
        params.pin_hash_enc == Some(pin_hash_enc),
    ensures
        pre.store.pin_retries == 0 ==> is_plain_refusal(
            pre,
            rng,
            Ctap2StatusCode::CTAP2_ERR_PIN_BLOCKED,
            result,
            post,
            after,
        ),
        pre.store.pin_retries > 0 && !p256::is_point(key.0, key.1) ==> is_plain_refusal(
            pre,
            rng,
            Ctap2StatusCode::CTAP1_ERR_INVALID_PARAMETER,
            result,
            post,
            after,
        ),
        pre.store.pin_retries > 0 && p256::is_point(key.0, key.1) && !is_authentic(
            pre,
            key,
            new_pin_enc + pin_hash_enc,
            pin_auth,
        ) ==> is_plain_refusal(
            pre,
            rng,
            Ctap2StatusCode::CTAP2_ERR_PIN_AUTH_INVALID,
            result,
            post,
            after,
        ),
        pre.store.pin_retries > 0 && p256::is_point(key.0, key.1) && is_authentic(
            pre,
            key,
            new_pin_enc + pin_hash_enc,
            pin_auth,
        ) ==> {
            &&& !(may_try(pre) && knows_pin(pre, key, pin_hash_enc)) ==> is_pin_failure(
                pre,
                rng,
                pin_hash_enc,
                result,
                post,
                after,
            )
            &&& may_try(pre) && knows_pin(pre, key, pin_hash_enc) ==> {
                &&& gives_tries_back(pre, post)
                &&& (forall|p: Seq<u8>| !#[trigger] sends_pin(pre, key, new_pin_enc, p)) ==> {
                    &&& result == Err::<ResponseData, _>(
                        Ctap2StatusCode::CTAP2_ERR_PIN_POLICY_VIOLATION,
                    )
                    &&& post.store.pin_hash == pre.store.pin_hash
                    &&& post.pin_token == pre.pin_token
                    &&& after == rng
                }
                &&& forall|p: Seq<u8>| #[trigger]
                    sends_pin(pre, key, new_pin_enc, p) ==> {
                        &&& is_done(result)
                        &&& post.store.pin_hash == Some(sha256::sha256(p).take(16))
                        &&& post.pin_token.len() == 32 && rng.draws(post.pin_token, after)
                    }
            }
        },
{
    lemma_new_pin(pre, key, new_pin_enc);
}

/// No user is verified but by the PIN: the token for one who was is empty, and
/// no tries are left for it. Requests that set a minimum length or ask for
/// permissions are taken and do nothing.
pub proof fn law_only_the_pin_verifies<R: Rng256>(
    pre: StateModel,
    rng: R,
    params: ClientPinModel,
    result: Result<ResponseData, Ctap2StatusCode>,
    post: StateModel,
    after: R,
)
    requires
        pin::did_client_pin(pre, rng, params, result, post, after),
        params.pin_protocol == 1,
        is_complete(params),
        params.sub_command is GetPinUvAuthTokenUsingUvWithPermissions || params.sub_command
            is GetUvRetries || params.sub_command is SetMinPinLength || params.sub_command
            is GetPinUvAuthTokenUsingPinWithPermissions,
    ensures
        post == pre,
        after == rng,
        params.sub_command is SetMinPinLength || params.sub_command
            is GetPinUvAuthTokenUsingPinWithPermissions ==> is_done(result),
        params.sub_command is GetUvRetries ==> exists|answer: AuthenticatorClientPinResponse|
            #[trigger]
            is_answered(result, answer) && answer.retries == Some(0u64) && answer.key_agreement
                is None && answer.pin_token is None,
        params.sub_command is GetPinUvAuthTokenUsingUvWithPermissions ==> exists|
            answer: AuthenticatorClientPinResponse,
        | #[trigger]
            is_answered(result, answer) && answer.retries is None && answer.key_agreement is None
                && (answer.pin_token matches Some(token) && token@.len() == 0),
{
    if params.sub_command is GetUvRetries || params.sub_command
        is GetPinUvAuthTokenUsingUvWithPermissions {
        let answer = result->Ok_0->AuthenticatorClientPin_0->Some_0;
        assert(is_answered(result, answer));
    }
}

/// How the tries that are told relate over two requests. After a first PIN was
/// set they are 8. After a request for the token they are 8 if it was given, and
/// one less than before, down to none, if a PIN could be tried and was wrong.
/// Where none are left, none are told, and no token is given.
pub proof fn law_told_tries_follow_requests<R: Rng256>(
    pre: StateModel,
    rng: R,
    request: ClientPinModel,
    result: Result<ResponseData, Ctap2StatusCode>,
    between: StateModel,
    rng_between: R,
    question: ClientPinModel,
    told: Result<ResponseData, Ctap2StatusCode>,
    post: StateModel,
    after: R,
)
    requires
        pre.valid(),
        pin::did_client_pin(pre, rng, request, result, between, rng_between),
        pin::did_client_pin(between, rng_between, question, told, post, after),
        request.pin_protocol == 1,
        question.pin_protocol == 1,
        question.sub_command is GetPinRetries,
    ensures
        request.sub_command is SetPin && result is Ok ==> exists|
            answer: AuthenticatorClientPinResponse,
        | #[trigger] is_answered(told, answer) && answer.retries == Some(8u64),
        request.sub_command is GetPinToken && result is Ok ==> exists|
            answer: AuthenticatorClientPinResponse,
        | #[trigger] is_answered(told, answer) && answer.retries == Some(8u64),
        request.sub_command is GetPinToken && is_complete(request) && may_try(pre)
            && p256::is_point(
            request.key_agreement->Some_0.0,
            request.key_agreement->Some_0.1,
        ) && !knows_pin(pre, request.key_agreement->Some_0, request.pin_hash_enc->Some_0)
            ==> exists|answer: AuthenticatorClientPinResponse| #[trigger]
            is_answered(told, answer) && answer.retries == Some(
                (pre.store.pin_retries - 1) as u64,
            ),
        request.sub_command is GetPinToken && pre.store.pin_retries == 0 ==> result is Err
            && exists|answer: AuthenticatorClientPinResponse| #[trigger]
            is_answered(told, answer) && answer.retries == Some(0u64),
{
    law_tries_left_are_told(between, rng_between, question, told, post, after);
    if request.sub_command is GetPinToken {
        if is_complete(request) {
            law_token_is_for_who_knows_the_pin(
                pre,
                rng,
                request,
                request.key_agreement->Some_0,
                request.pin_hash_enc->Some_0,
                result,
                between,
                rng_between,
            );
        } else {
            law_incomplete_requests_are_refused(pre, rng, request, result, between, rng_between);
        }
    }
}

} // verus!
