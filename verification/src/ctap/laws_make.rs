//! What the making of a credential is for.

use crate::bytes;
use crate::cbor::model;
use crate::cbor::model::Item;
use crate::crypto::cbc;
use crate::crypto::ecdsa;
use crate::crypto::hmac;
use crate::crypto::p256;
use crate::crypto::rng256::Rng256;
use crate::crypto::sha256;
use crate::ctap::command::MakeCredentialModel;
use crate::ctap::credential_id;
use crate::ctap::data_formats::{
    CredentialModel, CredentialProtectionPolicy, PackedAttestationStatement,
    PublicKeyCredentialType, SignatureAlgorithm,
};
use crate::ctap::hid::ChannelID;
use crate::ctap::key_material::AAGUID;
use crate::ctap::laws;
use crate::ctap::laws_use;
use crate::ctap::make_credential;
use crate::ctap::make_credential::{BatchKey, Draws};
use crate::ctap::parse::DescriptorModel;
use crate::ctap::response::ResponseData;
use crate::ctap::state;
use crate::ctap::state::StateModel;
use crate::ctap::status_code::Ctap2StatusCode;
use crate::ctap::storage;
use crate::text;
use vstd::prelude::*;

verus! {

/// Whether a request asks for the hmac-secret extension.
pub open spec fn wants_secret(params: MakeCredentialModel) -> bool {
    params.extensions matches Some(e) && e.hmac_secret
}

/// The policy that a request asks for.
pub open spec fn wanted_policy(params: MakeCredentialModel) -> Option<
    CredentialProtectionPolicy,
> {
    match params.extensions {
        Some(e) => e.cred_protect,
        None => None,
    }
}

/// Whether what a request says of the PIN can be said.
pub open spec fn speaks_of_pin_well(params: MakeCredentialModel) -> bool {
    params.pin_uv_auth_param matches Some(param) ==> param.len() > 0 && params.pin_uv_auth_protocol
        == Some(1u64)
}

/// Whether a client takes a public key credential that signs with ES256, at
/// any place of its list.
pub open spec fn takes_es256(params: MakeCredentialModel) -> bool {
    exists|i: int|
        0 <= i < params.pub_key_cred_params.len() && (
        #[trigger] params.pub_key_cred_params[i]).cred_type == PublicKeyCredentialType::PublicKey
            && params.pub_key_cred_params[i].alg == SignatureAlgorithm::ES256
}

/// Whether a request asks for what can be made.
pub open spec fn asks_well(params: MakeCredentialModel) -> bool {
    &&& speaks_of_pin_well(params)
    &&& takes_es256(params)
    &&& wants_secret(params) ==> params.options.rk
}

/// A request for what cannot be made is refused and changes nothing. It is told
/// why.
pub proof fn law_unfit_making_is_refused<
    R: Rng256,
    C: Fn(ChannelID) -> Result<(), Ctap2StatusCode>,
>(
    pre: StateModel,
    rng: R,
    check: C,
    cid: ChannelID,
    params: MakeCredentialModel,
    result: Result<ResponseData, Ctap2StatusCode>,
    post: StateModel,
    after: R,
)
    requires
        make_credential::did_make_credential(pre, rng, check, cid, params, result, post, after),
        !asks_well(params),
    ensures
        post == pre,
        after == rng,
        result is Err,
        params.pin_uv_auth_param is Some && params.pin_uv_auth_param->Some_0.len() == 0 ==> result
            == Err::<ResponseData, _>(
            if pre.store.pin_hash is None {
                Ctap2StatusCode::CTAP2_ERR_PIN_NOT_SET
            } else {
                Ctap2StatusCode::CTAP2_ERR_PIN_INVALID
            },
        ),
        params.pin_uv_auth_param is Some && params.pin_uv_auth_param->Some_0.len() > 0 ==> {
            &&& params.pin_uv_auth_protocol is None ==> result == Err::<ResponseData, _>(
                Ctap2StatusCode::CTAP2_ERR_MISSING_PARAMETER,
            )
            &&& params.pin_uv_auth_protocol is Some && params.pin_uv_auth_protocol != Some(1u64)
                ==> result == Err::<ResponseData, _>(Ctap2StatusCode::CTAP2_ERR_PIN_AUTH_INVALID)
        },
        speaks_of_pin_well(params) && !takes_es256(params) ==> result == Err::<ResponseData, _>(
            Ctap2StatusCode::CTAP2_ERR_UNSUPPORTED_ALGORITHM,
        ),
        speaks_of_pin_well(params) && takes_es256(params) && wants_secret(params)
            && !params.options.rk ==> result == Err::<ResponseData, _>(
            Ctap2StatusCode::CTAP2_ERR_UNSUPPORTED_EXTENSION,
        ),
{
    lemma_es256(params);
}

proof fn lemma_es256(params: MakeCredentialModel)
    ensures
        takes_es256(params) == make_credential::accepts_es256(params.pub_key_cred_params),
{
    let list = params.pub_key_cred_params;
    if takes_es256(params) {
        let i = choose|i: int|
            0 <= i < list.len() && (#[trigger] list[i]).cred_type
                == PublicKeyCredentialType::PublicKey && list[i].alg == SignatureAlgorithm::ES256;
        assert(state::is_es256(list[i]));
    }
}

/// Whether the name at a position of an exclude list names a stored credential:
/// the first of the relying party with that ID. One that needs verification
/// counts only for a request that says something of the PIN.
pub open spec fn name_excludes(
    credentials: Seq<CredentialModel>,
    params: MakeCredentialModel,
    list: Seq<DescriptorModel>,
    j: int,
    i: int,
) -> bool {
    &&& 0 <= j < list.len() && 0 <= i < credentials.len()
    &&& credentials[i].rp_id == params.rp.rp_id && credentials[i].credential_id == list[j].key_id
    &&& forall|k: int|
        0 <= k < i ==> (#[trigger] credentials[k]).rp_id != params.rp.rp_id
            || credentials[k].credential_id != list[j].key_id
    &&& params.pin_uv_auth_param is Some || credentials[i].cred_protect_policy != Some(
        CredentialProtectionPolicy::UserVerificationRequired,
    )
}

/// Whether a request excludes a stored credential, by any name of its list.
pub open spec fn is_excluding(state: StateModel, params: MakeCredentialModel) -> bool {
    params.exclude_list matches Some(list) && exists|j: int, i: int| #[trigger]
        name_excludes(state.store.credentials, params, list, j, i)
}

proof fn lemma_excluding(state: StateModel, params: MakeCredentialModel)
    ensures
        is_excluding(state, params) == make_credential::excluded(state, params),
{
    let credentials = state.store.credentials;
    if let Some(list) = params.exclude_list {
        let unverified = params.pin_uv_auth_param is None;
        assert forall|j: int, i: int| #[trigger]
            name_excludes(credentials, params, list, j, i) implies storage::found(
            credentials,
            params.rp.rp_id,
            list[j].key_id,
            unverified,
        ) is Some by {
            laws_use::lemma_found(credentials, params.rp.rp_id, list[j].key_id, i);
        }
        if make_credential::excluded(state, params) {
            let j = choose|j: int|
                0 <= j < list.len() && storage::found(
                    credentials,
                    params.rp.rp_id,
                    (#[trigger] list[j]).key_id,
                    unverified,
                ) is Some;
            let id = list[j].key_id;
            laws_use::lemma_least_named(credentials, params.rp.rp_id, id);
            let i = choose|i: int|
                0 <= i < credentials.len() && #[trigger] credentials[i] == credentials[i]
                    && credentials[i].rp_id == params.rp.rp_id && credentials[i].credential_id == id
                    && (forall|k: int|
                    0 <= k < i ==> (#[trigger] credentials[k]).rp_id != params.rp.rp_id
                        || credentials[k].credential_id != id);
            laws_use::lemma_found(credentials, params.rp.rp_id, id, i);
            assert(name_excludes(credentials, params, list, j, i));
        }
    }
}

/// Where any name of the exclude list names a stored credential of the relying
/// party, no credential is made and nothing changes. The user is asked first,
/// and if present, the answer is that a credential is excluded.
pub proof fn law_excluded_credential_is_not_made<
    R: Rng256,
    C: Fn(ChannelID) -> Result<(), Ctap2StatusCode>,
>(
    pre: StateModel,
    rng: R,
    check: C,
    cid: ChannelID,
    params: MakeCredentialModel,
    list: Seq<DescriptorModel>,
    j: int,
    i: int,
    result: Result<ResponseData, Ctap2StatusCode>,
    post: StateModel,
    after: R,
)
    requires
        make_credential::did_make_credential(pre, rng, check, cid, params, result, post, after),
        asks_well(params),
        params.exclude_list == Some(list),
        name_excludes(pre.store.credentials, params, list, j, i),
    ensures
        post == pre,
        result is Err,
        exists|presence: Result<(), Ctap2StatusCode>| #[trigger]
            call_ensures(check, (cid,), presence) && result == Err::<ResponseData, _>(
                match presence {
                    Ok(_) => Ctap2StatusCode::CTAP2_ERR_CREDENTIAL_EXCLUDED,
                    Err(e) => e,
                },
            ),
{
    lemma_es256(params);
    lemma_excluding(pre, params);
}

/// Whether a request is made by who may make it: with a PIN, by who proves it;
/// without one, by anyone who does not ask for verification.
pub open spec fn may_make(state: StateModel, params: MakeCredentialModel) -> bool {
    laws_use::proves_pin(
        state,
        params.pin_uv_auth_param,
        params.pin_uv_auth_protocol,
        params.client_data_hash,
    ) || state.store.pin_hash is None && params.pin_uv_auth_param is None && !params.options.uv
}

/// A request by who may not make it is refused and changes nothing. It is told
/// why.
pub proof fn law_unproved_making_is_refused<
    R: Rng256,
    C: Fn(ChannelID) -> Result<(), Ctap2StatusCode>,
>(
    pre: StateModel,
    rng: R,
    check: C,
    cid: ChannelID,
    params: MakeCredentialModel,
    result: Result<ResponseData, Ctap2StatusCode>,
    post: StateModel,
    after: R,
)
    requires
        make_credential::did_make_credential(pre, rng, check, cid, params, result, post, after),
        asks_well(params),
        !is_excluding(pre, params),
        !may_make(pre, params),
    ensures
        post == pre,
        result == Err::<ResponseData, _>(
            if params.pin_uv_auth_param is Some {
                if pre.store.pin_hash is None {
                    Ctap2StatusCode::CTAP2_ERR_PIN_NOT_SET
                } else {
                    Ctap2StatusCode::CTAP2_ERR_PIN_AUTH_INVALID
                }
            } else {
                if pre.store.pin_hash is Some {
                    Ctap2StatusCode::CTAP2_ERR_PIN_REQUIRED
                } else {
                    Ctap2StatusCode::CTAP2_ERR_INVALID_OPTION
                }
            },
        ),
{
    lemma_es256(params);
    lemma_excluding(pre, params);
}

/// Whether a name is what is stored of another: a start of it of at most 64
/// bytes, and no longer one would fit.
pub open spec fn is_cropped(stored: Option<Seq<char>>, name: Option<Seq<char>>) -> bool {
    match (stored, name) {
        (Some(s), Some(n)) => {
            &&& s.is_prefix_of(n)
            &&& vstd::utf8::encode_utf8(s).len() <= 64
            &&& s.len() < n.len() ==> vstd::utf8::encode_utf8(n.take(s.len() as int + 1)).len() > 64
        },
        (None, None) => true,
        _ => false,
    }
}

/// Whether a credential is one that a request asks for: for the relying party
/// and the user, with the policy and the secret that are wanted. One that is
/// stored has an ID of 32 bytes; one that is not has an ID that gives the
/// private key back to the relying party.
pub open spec fn is_asked_for(
    pre: StateModel,
    params: MakeCredentialModel,
    credential: CredentialModel,
) -> bool {
    let id = credential.credential_id;
    &&& credential.key_type == PublicKeyCredentialType::PublicKey
    &&& p256::is_scalar(credential.private_key)
    &&& credential.rp_id == params.rp.rp_id
    &&& credential.user_handle == params.user.user_id
    &&& is_cropped(credential.other_ui, params.user.user_display_name)
    &&& credential.cred_random is Some <==> wants_secret(params)
    &&& credential.cred_random matches Some(secret) ==> secret.len() == 32
    &&& credential.cred_protect_policy == wanted_policy(params)
    &&& params.options.rk ==> id.len() == 32
    &&& !params.options.rk ==> {
        &&& id.len() == 112
        &&& hmac::hmac_sha256(pre.store.hmac_key, id.take(80)) == id.skip(80)
        &&& cbc::cbc_dec(pre.store.encryption_key, id.take(16), id.subrange(16, 80)).take(32)
            == credential.private_key
        &&& cbc::cbc_dec(pre.store.encryption_key, id.take(16), id.subrange(16, 80)).skip(32)
            == sha256::sha256(vstd::utf8::encode_utf8(params.rp.rp_id))
    }
}

/// Whether a credential is for the account that a request is for.
pub open spec fn is_same_account(credential: CredentialModel, params: MakeCredentialModel) -> bool {
    credential.rp_id == params.rp.rp_id && credential.user_handle == params.user.user_id
}

/// Whether a credential was stored, if a request wants that: behind all others,
/// which stay as they were, but for the one for the same account, which is
/// gone. Nothing else changes.
pub open spec fn is_stored(
    pre: StateModel,
    params: MakeCredentialModel,
    credential: CredentialModel,
    post: StateModel,
) -> bool {
    if params.options.rk {
        &&& post.store.credentials == pre.store.credentials.filter(
            |c: CredentialModel| !is_same_account(c, params),
        ).push(credential)
        &&& post.store.counter == pre.store.counter
        &&& post.store.pin_hash == pre.store.pin_hash
        &&& post.store.pin_retries == pre.store.pin_retries
        &&& post.store.encryption_key == pre.store.encryption_key
        &&& post.store.hmac_key == pre.store.hmac_key
        &&& post.key_agreement_key == pre.key_agreement_key
        &&& post.pin_token == pre.pin_token
        &&& post.mismatches == pre.mismatches
        &&& post.accepts_reset == pre.accepts_reset
        &&& post.u2f_up_state == pre.u2f_up_state
    } else {
        post == pre
    }
}

/// The map of a public key: an elliptic curve key for ES256 over P-256.
pub open spec fn key_map(key: (Seq<u8>, Seq<u8>)) -> Item {
    Item::Table(
        seq![
            (Item::Unsigned(1), Item::Unsigned(2)),
            (Item::Unsigned(3), Item::Negative(6)),
            (Item::Negative(0), Item::Unsigned(1)),
            (Item::Negative(1), Item::ByteString(key.0)),
            (Item::Negative(2), Item::ByteString(key.1)),
        ],
    )
}

/// The map of the extensions that a credential was made with: the number of its
/// policy, and that it has a secret.
pub open spec fn extension_map(params: MakeCredentialModel) -> Item {
    let policy = match wanted_policy(params) {
        None => Seq::<(Item, Item)>::empty(),
        Some(CredentialProtectionPolicy::UserVerificationOptional) => seq![
            (Item::TextString("credProtect"@), Item::Unsigned(1)),
        ],
        Some(CredentialProtectionPolicy::UserVerificationOptionalWithCredentialIdList) => seq![
            (Item::TextString("credProtect"@), Item::Unsigned(2)),
        ],
        Some(CredentialProtectionPolicy::UserVerificationRequired) => seq![
            (Item::TextString("credProtect"@), Item::Unsigned(3)),
        ],
    };
    let secret = if wants_secret(params) {
        seq![
            (
                Item::TextString("hmac-secret"@),
                Item::Simple(model::SimpleValue::TrueValue),
            ),
        ]
    } else {
        Seq::<(Item, Item)>::empty()
    };
    Item::Table(policy + secret)
}

/// Whether an answer attests to a credential: it tells the relying party, that
/// the user was present, whether the user was verified, the counter, the model
/// of authenticator, and the credential's ID, public key and extensions; and
/// the credential's own key signed all that and the client data hash.
pub open spec fn is_attested(
    pre: StateModel,
    params: MakeCredentialModel,
    credential: CredentialModel,
    result: Result<ResponseData, Ctap2StatusCode>,
) -> bool {
    let id = credential.credential_id;
    let key = ecdsa::public_key(credential.private_key);
    let has_extensions = wants_secret(params) || wanted_policy(params) is Some;
    result matches Ok(ResponseData::AuthenticatorMakeCredential(r)) && {
        let data = r.auth_data@;
        &&& r.fmt@ == "packed"@
        &&& r.att_stmt.alg == -7 && r.att_stmt.x5c is None && r.att_stmt.ecdaa_key_id is None
        &&& data.len() >= 55 + id.len()
        &&& data.take(32) == sha256::sha256(vstd::utf8::encode_utf8(params.rp.rp_id))
        &&& data[32] & 0x01 != 0 && data[32] & 0x40 != 0
        &&& data[32] & 0x04 != 0 <==> params.pin_uv_auth_param is Some
        &&& data[32] & 0x80 != 0 <==> has_extensions
        &&& data.subrange(33, 37) == bytes::be_bytes(pre.store.counter as nat, 4)
        &&& data.subrange(37, 53) == AAGUID@
        &&& data[53] == 0 && data[54] == id.len()
        &&& data.subrange(55, 55 + id.len() as int) == id
        &&& data.skip(55 + id.len() as int) == model::encode(key_map(key)) + (if has_extensions {
            model::encode(extension_map(params))
        } else {
            Seq::<u8>::empty()
        })
        &&& exists|signature: (Seq<u8>, Seq<u8>)|
            r.att_stmt.sig@ == #[trigger] ecdsa::der_signature(signature) && ecdsa::accepts(
                key,
                data + params.client_data_hash,
                signature,
            )
    }
}

/// Whether there is no room for a credential: 150 are stored, none of them for
/// the same account.
pub open spec fn is_full(pre: StateModel, params: MakeCredentialModel) -> bool {
    &&& params.options.rk
    &&& pre.store.credentials.len() >= 150
    &&& forall|i: int|
        0 <= i < pre.store.credentials.len() ==> !is_same_account(
            #[trigger] pre.store.credentials[i],
            params,
        )
}

/// Whether a request was served with a new credential. If there is no room for
/// it, nothing happens; and there may be no signature.
pub open spec fn is_made_for(
    pre: StateModel,
    params: MakeCredentialModel,
    credential: CredentialModel,
    result: Result<ResponseData, Ctap2StatusCode>,
    post: StateModel,
) -> bool {
    &&& is_asked_for(pre, params, credential)
    &&& is_stored(pre, params, credential, post)
    &&& is_attested(pre, params, credential, result) || result == Err::<ResponseData, _>(
        Ctap2StatusCode::CTAP1_ERR_OTHER,
    ) && exists|data: Seq<u8>| #[trigger]
        ecdsa::signature(credential.private_key, data) is None
}

/// Filters that let the same through give the same.
proof fn lemma_same_filter(
    credentials: Seq<CredentialModel>,
    p: spec_fn(CredentialModel) -> bool,
    q: spec_fn(CredentialModel) -> bool,
)
    requires
        forall|c: CredentialModel| #[trigger] p(c) == q(c),
    ensures
        credentials.filter(p) == credentials.filter(q),
    decreases credentials.len(),
{
    reveal(Seq::filter);
    if credentials.len() > 0 {
        assert(p(credentials.last()) == q(credentials.last()));
        lemma_same_filter(credentials.drop_last(), p, q);
    }
}

/// The credential that draws make, stored or not.
pub open spec fn drawn_credential(
    pre: StateModel,
    params: MakeCredentialModel,
    draws: Draws,
) -> CredentialModel {
    CredentialModel {
        credential_id: make_credential::new_credential_id(pre, params, draws),
        ..make_credential::new_credential(params, draws)
    }
}

proof fn lemma_asked_for(
    pre: StateModel,
    params: MakeCredentialModel,
    draws: Draws,
    result: Result<ResponseData, Ctap2StatusCode>,
    post: StateModel,
)
    requires
        make_credential::made_with(pre, params, draws, result, post),
        asks_well(params),
        p256::is_scalar(draws.private_key),
        draws.id.len() == 32,
        match draws.cred_random {
            Some(s) => wants_secret(params) && s.len() == 32,
            None => !wants_secret(params),
        },
        !is_full(pre, params),
    ensures
        is_asked_for(pre, params, drawn_credential(pre, params, draws)),
        is_stored(pre, params, drawn_credential(pre, params, draws), post),
{
    let credential = drawn_credential(pre, params, draws);
    lemma_room(pre, params, draws);
    if let Some(name) = params.user.user_display_name {
        text::law_truncated_is_longest(name, 64);
        let s = text::truncated(name, 64);
        if s.len() < name.len() {
            assert(vstd::utf8::encode_utf8(name.take(s.len() as int + 1)).len() > 64);
        }
    }
    let stored = make_credential::new_credential(params, draws);
    let others = storage::is_other(stored);
    let kept = |c: CredentialModel| !is_same_account(c, params);
    assert forall|c: CredentialModel| #[trigger] others(c) == kept(c) by {}
    lemma_same_filter(pre.store.credentials, others, kept);
    if params.options.rk {
        assert(credential == stored);
    }
}

proof fn lemma_room(pre: StateModel, params: MakeCredentialModel, draws: Draws)
    ensures
        is_full(pre, params) == (params.options.rk && !storage::can_store(
            pre.store.credentials,
            make_credential::new_credential(params, draws),
        )),
{
    let credential = make_credential::new_credential(params, draws);
    let credentials = pre.store.credentials;
    if storage::has_account(credentials, credential) {
        let i = choose|i: int|
            0 <= i < credentials.len() && storage::same_account(
                #[trigger] credentials[i],
                credential,
            );
        assert(is_same_account(credentials[i], params));
    }
    assert forall|i: int|
        0 <= i < credentials.len() && is_same_account(
            #[trigger] credentials[i],
            params,
        ) implies storage::has_account(credentials, credential) by {
        assert(storage::same_account(credentials[i], credential));
    }
}

proof fn lemma_attested(
    pre: StateModel,
    params: MakeCredentialModel,
    draws: Draws,
    result: Result<ResponseData, Ctap2StatusCode>,
    post: StateModel,
)
    requires
        make_credential::made_with(pre, params, draws, result, post),
        is_asked_for(pre, params, drawn_credential(pre, params, draws)),
        !is_full(pre, params),
        result is Ok,
    ensures
        is_attested(pre, params, drawn_credential(pre, params, draws), result),
{
    lemma_room(pre, params, draws);
    let credential = drawn_credential(pre, params, draws);
    let id = credential.credential_id;
    let key = ecdsa::public_key(draws.private_key);
    let data = make_credential::new_auth_data(pre, params, draws);
    let has_extensions = wants_secret(params) || wanted_policy(params) is Some;
    bytes::lemma_powers();
    bytes::lemma_be_nat_of_bytes(pre.store.counter as nat, 4);
    laws::law_flags_are_independent(
        true,
        params.pin_uv_auth_param is Some,
        true,
        has_extensions,
    );
    assert(AAGUID@.len() == 16);
    assert(make_credential::has_extension(params) == has_extensions);
    assert(ecdsa::cose_item(ecdsa::ES256_NEGATED, key.0, key.1) == key_map(key));
    let described = make_credential::extension_item(
        make_credential::uses_hmac(params),
        make_credential::policy(params),
    );
    assert(described->Table_0 =~= extension_map(params)->Table_0);
    assert(described == extension_map(params));
    assert(data.take(32) =~= sha256::sha256(vstd::utf8::encode_utf8(params.rp.rp_id)));
    assert(data.subrange(33, 37) =~= bytes::be_bytes(pre.store.counter as nat, 4));
    assert(data.subrange(37, 53) =~= AAGUID@);
    assert(data.subrange(55, 55 + id.len() as int) =~= id);
    assert(data.skip(55 + id.len() as int) =~= model::encode(key_map(key)) + (if has_extensions {
        model::encode(extension_map(params))
    } else {
        Seq::<u8>::empty()
    }));
}

/// A request for what can be made, by who may make it, that excludes nothing,
/// is served once the user was present: with a new credential for its relying
/// party and user, stored if that is wanted, and attested to. It is refused
/// only if there is no room. If the user was not present, nothing changes.
pub proof fn law_credential_is_made<R: Rng256, C: Fn(ChannelID) -> Result<(), Ctap2StatusCode>>(
    pre: StateModel,
    rng: R,
    check: C,
    cid: ChannelID,
    params: MakeCredentialModel,
    result: Result<ResponseData, Ctap2StatusCode>,
    post: StateModel,
    after: R,
)
    requires
        make_credential::did_make_credential(pre, rng, check, cid, params, result, post, after),
        asks_well(params),
        !is_excluding(pre, params),
        may_make(pre, params),
    ensures
        exists|presence: Result<(), Ctap2StatusCode>| #[trigger]
            call_ensures(check, (cid,), presence) && match presence {
                Err(e) => result == Err::<ResponseData, _>(e) && post == pre,
                Ok(_) => if is_full(pre, params) {
                    result == Err::<ResponseData, _>(Ctap2StatusCode::CTAP2_ERR_KEY_STORE_FULL)
                        && post == pre
                } else {
                    exists|credential: CredentialModel| #[trigger]
                        is_made_for(pre, params, credential, result, post)
                },
            },
{
    lemma_es256(params);
    lemma_excluding(pre, params);
    assert forall|draws: Draws| #[trigger]
        make_credential::made_with(pre, params, draws, result, post) && p256::is_scalar(
            draws.private_key,
        ) && draws.id.len() == 32 && (match draws.cred_random {
            Some(s) => wants_secret(params) && s.len() == 32,
            None => !wants_secret(params),
        }) implies if is_full(pre, params) {
        result == Err::<ResponseData, _>(Ctap2StatusCode::CTAP2_ERR_KEY_STORE_FULL) && post == pre
    } else {
        is_made_for(pre, params, drawn_credential(pre, params, draws), result, post)
    } by {
        lemma_room(pre, params, draws);
        if !is_full(pre, params) {
            lemma_asked_for(pre, params, draws, result, post);
            if result is Ok {
                lemma_attested(pre, params, draws, result, post);
            }
        }
    }
}

/// Of the policy that is asked for and the one by default, a credential gets
/// the stricter one, and the one that is asked for where neither is.
pub proof fn law_stricter_policy_counts(
    asked: Option<CredentialProtectionPolicy>,
    default: Option<CredentialProtectionPolicy>,
)
    ensures
        ({
            let strict = Some(CredentialProtectionPolicy::UserVerificationRequired);
            let listed = Some(
                CredentialProtectionPolicy::UserVerificationOptionalWithCredentialIdList,
            );
            let policy = make_credential::effective_policy(asked, default);
            &&& policy == strict <==> asked == strict || default == strict
            &&& policy == listed <==> asked != strict && default != strict && (asked == listed
                || default == listed)
            &&& policy != strict && policy != listed ==> policy == asked
        }),
{
}

/// A statement is signed with the key of the batch, and brings its certificate,
/// or with the key of the credential itself, and brings none. Whoever holds the
/// public key of the one who signed accepts it.
pub proof fn law_statement_is_signed(
    private_key: Seq<u8>,
    batch: Option<BatchKey>,
    data: Seq<u8>,
    statement: Option<PackedAttestationStatement>,
)
    requires
        make_credential::attests(private_key, batch, data, statement),
    ensures
        ({
            let signer = if batch is Some {
                batch->Some_0.key@
            } else {
                private_key
            };
            let point = p256::p256_public_point(signer)@;
            let hash = sha256::sha256(data);
            &&& statement is Some <==> p256::p256_sign(signer, hash) is Some
            &&& statement matches Some(s) ==> {
                let rs = p256::p256_sign(signer, hash)->Some_0@;
                &&& s.alg == -7
                &&& s.sig@ == ecdsa::der_signature((rs.take(32), rs.skip(32)))
                &&& p256::p256_verify(point.take(32), point.skip(32), hash, rs.take(32), rs.skip(32))
                &&& s.ecdaa_key_id is None
                &&& s.x5c is Some <==> batch is Some
                &&& batch is Some ==> s.x5c->Some_0@.len() == 1 && s.x5c->Some_0@[0]@
                    == batch->Some_0.certificate@
            }
        }),
{
}

} // verus!
