//! What the use of a credential is for.

use crate::bytes;
use crate::cbor::model;
use crate::cbor::model::Item;
use crate::crypto::cbc;
use crate::crypto::ecdh;
use crate::crypto::ecdsa;
use crate::crypto::hmac;
use crate::crypto::p256;
use crate::crypto::sha256;
use crate::ctap::command::GetAssertionModel;
use crate::ctap::data_formats::{
    CredentialModel, CredentialProtectionPolicy, PublicKeyCredentialType,
};
use crate::ctap::get_assertion;
use crate::ctap::hid::ChannelID;
use crate::ctap::laws;
use crate::ctap::parse::{DescriptorModel, HmacInputModel};
use crate::ctap::response::ResponseData;
use crate::ctap::state::StateModel;
use crate::ctap::status_code::Ctap2StatusCode;
use crate::ctap::storage;
use vstd::prelude::*;

verus! {

/// Whether a request proves that its user knows the PIN: it carries the first
/// half of the HMAC of its client data hash under the token, for the one
/// version of the PIN protocol.
pub open spec fn proves_pin(
    state: StateModel,
    pin_uv_auth_param: Option<Seq<u8>>,
    pin_uv_auth_protocol: Option<u64>,
    client_data_hash: Seq<u8>,
) -> bool {
    &&& state.store.pin_hash is Some
    &&& pin_uv_auth_protocol == Some(1u64)
    &&& pin_uv_auth_param matches Some(param) && param.len() == 16 && hmac::hmac_sha256(
        state.pin_token,
        client_data_hash,
    ).take(16) == param
}

/// Whether a request carries an input for the hmac-secret extension.
pub open spec fn has_input(params: GetAssertionModel) -> bool {
    params.extensions matches Some(input) && input is Some
}

/// Whether a request may be served: it proves the PIN, or neither says anything
/// of it nor asks for verification; and with an extension it wants presence.
pub open spec fn may_be_served(state: StateModel, params: GetAssertionModel) -> bool {
    &&& has_input(params) ==> params.options.up
    &&& proves_pin(
        state,
        params.pin_uv_auth_param,
        params.pin_uv_auth_protocol,
        params.client_data_hash,
    ) || params.pin_uv_auth_param is None && !params.options.uv
}

/// Whether the hmac-secret extension can be served with a credential: the
/// client sent a point, authentic salts, one or two of them, and the credential
/// has a secret.
pub open spec fn salts_can_be_served(
    state: StateModel,
    credential: CredentialModel,
    input: HmacInputModel,
) -> bool {
    let secret = ecdh::shared_secret(state.key_agreement_key, input.key_agreement);
    &&& p256::is_point(input.key_agreement.0, input.key_agreement.1)
    &&& input.salt_auth.len() == 16 && hmac::hmac_sha256(secret, input.salt_enc).take(16)
        == input.salt_auth
    &&& input.salt_enc.len() == 32 || input.salt_enc.len() == 64
    &&& credential.cred_random matches Some(random) && random.len() == 32
}

/// Whether an output of the hmac-secret extension is as long as the salts and
/// decrypts to the HMAC of each salt in turn, under the secret of the
/// credential.
pub open spec fn is_hmac_of_salts(
    state: StateModel,
    credential: CredentialModel,
    input: HmacInputModel,
    output: Seq<u8>,
) -> bool {
    let secret = ecdh::shared_secret(state.key_agreement_key, input.key_agreement);
    let iv = bytes::zeros(16);
    let salts = cbc::cbc_dec(secret, iv, input.salt_enc);
    let plain = cbc::cbc_dec(secret, iv, output);
    &&& output.len() == input.salt_enc.len()
    &&& credential.cred_random matches Some(random) && {
        &&& plain.take(32) == hmac::hmac_sha256(random, salts.take(32))
        &&& input.salt_enc.len() == 64 ==> plain.skip(32) == hmac::hmac_sha256(
            random,
            salts.skip(32),
        )
    }
}

/// Whether data ends with the HMACs of salts.
pub open spec fn ends_with_hmacs(
    state: StateModel,
    credential: CredentialModel,
    input: HmacInputModel,
    data: Seq<u8>,
) -> bool {
    exists|output: Seq<u8>| #[trigger]
        is_hmac_of_salts(state, credential, input, output) && data.skip(37) == model::encode(
            Item::Table(seq![(Item::TextString("hmac-secret"@), Item::ByteString(output))]),
        )
}

/// Whether an assertion was made with a credential, as the answer tells. It
/// names the credential, is about the relying party, tells of presence and
/// verification what the request was about, carries the counter, and is signed
/// with the key of the credential. Whose credential it is, only a verified user
/// is told.
pub open spec fn is_assertion_with(
    pre: StateModel,
    params: GetAssertionModel,
    credential: CredentialModel,
    result: Result<ResponseData, Ctap2StatusCode>,
    counter: u32,
) -> bool {
    result matches Ok(ResponseData::AuthenticatorGetAssertion(r)) && {
        &&& r.credential matches Some(named) && named.key_id@ == credential.credential_id
            && named.key_type == PublicKeyCredentialType::PublicKey && named.transports is None
        &&& r.number_of_credentials is None
        &&& r.user is Some <==> params.pin_uv_auth_param is Some
        &&& r.user matches Some(user) ==> {
            &&& user.user_id@ == credential.user_handle
            &&& user.user_name is None && user.user_icon is None
            &&& match (user.user_display_name, credential.other_ui) {
                (Some(shown), Some(stored)) => shown@ == stored,
                (None, None) => true,
                _ => false,
            }
        }
        &&& r.auth_data@.len() >= 37
        &&& r.auth_data@.take(32) == sha256::sha256(vstd::utf8::encode_utf8(params.rp_id))
        &&& r.auth_data@[32] & 0x01 != 0 <==> params.options.up
        &&& r.auth_data@[32] & 0x04 != 0 <==> params.pin_uv_auth_param is Some
        &&& r.auth_data@[32] & 0x40 == 0
        &&& r.auth_data@[32] & 0x80 != 0 <==> has_input(params)
        &&& r.auth_data@.subrange(33, 37) == bytes::be_bytes(counter as nat, 4)
        &&& match params.extensions {
            Some(Some(input)) => ends_with_hmacs(pre, credential, input, r.auth_data@),
            _ => r.auth_data@.len() == 37,
        }
        &&& exists|signature: (Seq<u8>, Seq<u8>)|
            r.signature@ == #[trigger] ecdsa::der_signature(signature) && ecdsa::accepts(
                ecdsa::public_key(credential.private_key),
                r.auth_data@ + params.client_data_hash,
                signature,
            )
    }
}

/// Whether a state differs from another in the counter of signatures alone,
/// which is one higher, or zero again.
pub open spec fn counted_once(pre: StateModel, post: StateModel) -> bool {
    &&& post.store.counter == (if pre.store.counter == 0xffff_ffff {
        0int
    } else {
        pre.store.counter + 1
    })
    &&& post.store.credentials == pre.store.credentials
    &&& post.store.pin_hash == pre.store.pin_hash
    &&& post.store.pin_retries == pre.store.pin_retries
    &&& post.store.encryption_key == pre.store.encryption_key
    &&& post.store.hmac_key == pre.store.hmac_key
    &&& post.key_agreement_key == pre.key_agreement_key
    &&& post.pin_token == pre.pin_token
    &&& post.mismatches == pre.mismatches
    &&& post.accepts_reset == pre.accepts_reset
    &&& post.u2f_up_state == pre.u2f_up_state
}

/// Whether a request was served with a credential. The use is counted. Without
/// the hmac-secret extension, or where that can be served, there is an
/// assertion, unless the key has no signature of some data; where it cannot be
/// served, the request is refused.
pub open spec fn is_use_of(
    pre: StateModel,
    params: GetAssertionModel,
    credential: CredentialModel,
    result: Result<ResponseData, Ctap2StatusCode>,
    post: StateModel,
) -> bool {
    let served = is_assertion_with(pre, params, credential, result, post.store.counter) || result
        == Err::<ResponseData, _>(Ctap2StatusCode::CTAP1_ERR_OTHER) && exists|data: Seq<u8>|
        #[trigger]
        ecdsa::signature(credential.private_key, data) is None;
    &&& counted_once(pre, post)
    &&& match params.extensions {
        Some(Some(input)) => if !p256::is_point(input.key_agreement.0, input.key_agreement.1) {
            result == Err::<ResponseData, _>(Ctap2StatusCode::CTAP1_ERR_INVALID_PARAMETER)
        } else if !salts_can_be_served(pre, credential, input) {
            result == Err::<ResponseData, _>(Ctap2StatusCode::CTAP2_ERR_UNSUPPORTED_EXTENSION)
        } else {
            served
        },
        _ => served,
    }
}

/// Whether a request was served with a credential, once the user was present if
/// the request wants that. If the user was not, nothing happens.
pub open spec fn serves_with<C: Fn(ChannelID) -> Result<(), Ctap2StatusCode>>(
    pre: StateModel,
    check: C,
    cid: ChannelID,
    params: GetAssertionModel,
    credential: CredentialModel,
    result: Result<ResponseData, Ctap2StatusCode>,
    post: StateModel,
) -> bool {
    if params.options.up {
        exists|presence: Result<(), Ctap2StatusCode>| #[trigger]
            call_ensures(check, (cid,), presence) && match presence {
                Ok(_) => is_use_of(pre, params, credential, result, post),
                Err(e) => result == Err::<ResponseData, _>(e) && post == pre,
            }
    } else {
        is_use_of(pre, params, credential, result, post)
    }
}

/// What the contract says of the use of a credential is what is meant by one.
proof fn lemma_asserted(
    pre: StateModel,
    params: GetAssertionModel,
    credential: CredentialModel,
    result: Result<ResponseData, Ctap2StatusCode>,
    post: StateModel,
)
    requires
        get_assertion::asserted_with(pre, params, credential, result, post),
    ensures
        is_use_of(pre, params, credential, result, post),
{
    bytes::lemma_powers();
    bytes::lemma_be_nat_of_bytes(post.store.counter as nat, 4);
    laws::law_flags_are_independent(
        params.options.up,
        params.pin_uv_auth_param is Some,
        false,
        has_input(params),
    );
    if let Some(Some(input)) = params.extensions {
        let secret = ecdh::shared_secret(pre.key_agreement_key, input.key_agreement);
        if salts_can_be_served(pre, credential, input) {
            let random = credential.cred_random->Some_0;
            let output = get_assertion::hmac_output(pre, credential, input)->Ok_0;
            let salts = cbc::cbc_dec(secret, bytes::zeros(16), input.salt_enc);
            cbc::lemma_cbc_len(secret, bytes::zeros(16), input.salt_enc);
            let plain = cbc::cbc_dec(secret, bytes::zeros(16), output);
            let first = hmac::hmac_sha256(random, salts.take(32));
            if input.salt_enc.len() == 32 {
                assert(salts.take(32) =~= salts);
                assert(plain.take(32) =~= first);
            } else {
                assert(plain.take(32) =~= first);
                assert(plain.skip(32) =~= hmac::hmac_sha256(random, salts.skip(32)));
            }
            if let Ok(ResponseData::AuthenticatorGetAssertion(r)) = result {
                let item = get_assertion::hmac_output_item(output);
                assert(r.auth_data@.skip(37) =~= model::encode(item));
                assert(item == Item::Table(
                    seq![(Item::TextString("hmac-secret"@), Item::ByteString(output))],
                ));
                assert(is_hmac_of_salts(pre, credential, input, output));
                assert(ends_with_hmacs(pre, credential, input, r.auth_data@));
            }
        }
    }
    if let Ok(ResponseData::AuthenticatorGetAssertion(r)) = result {
        assert(r.auth_data@.take(32) =~= sha256::sha256(vstd::utf8::encode_utf8(params.rp_id)));
        assert(r.auth_data@.subrange(33, 37) =~= bytes::be_bytes(post.store.counter as nat, 4));
    }
}

/// A request to use a credential that may not be served is refused, and changes
/// nothing. It is told why: what it says of the PIN is not what can be said, the
/// PIN is not proved, or what it asks for is not on offer.
pub proof fn law_unfit_use_is_refused<C: Fn(ChannelID) -> Result<(), Ctap2StatusCode>>(
    pre: StateModel,
    check: C,
    cid: ChannelID,
    params: GetAssertionModel,
    result: Result<ResponseData, Ctap2StatusCode>,
    post: StateModel,
)
    requires
        get_assertion::did_get_assertion(pre, check, cid, params, result, post),
        !may_be_served(pre, params),
    ensures
        post == pre,
        result is Err,
        params.pin_uv_auth_param is Some && params.pin_uv_auth_param->Some_0.len() == 0 ==> result == Err::<
            ResponseData,
            _,
        >(
            if pre.store.pin_hash is None {
                Ctap2StatusCode::CTAP2_ERR_PIN_NOT_SET
            } else {
                Ctap2StatusCode::CTAP2_ERR_PIN_INVALID
            },
        ),
        params.pin_uv_auth_param is Some && params.pin_uv_auth_param->Some_0.len() > 0 ==> {
            &&& params.pin_uv_auth_protocol is None ==> result == Err::<ResponseData, _>(
                Ctap2StatusCode::CTAP2_ERR_MISSING_PARAMETER,
            )
            &&& params.pin_uv_auth_protocol is Some && params.pin_uv_auth_protocol != Some(1u64) ==> result
                == Err::<ResponseData, _>(Ctap2StatusCode::CTAP2_ERR_PIN_AUTH_INVALID)
            &&& params.pin_uv_auth_protocol == Some(1u64) && (has_input(params)
                ==> params.options.up) ==> result == Err::<ResponseData, _>(
                if pre.store.pin_hash is None {
                    Ctap2StatusCode::CTAP2_ERR_PIN_NOT_SET
                } else {
                    Ctap2StatusCode::CTAP2_ERR_PIN_AUTH_INVALID
                },
            )
        },
        (params.pin_uv_auth_param is Some ==> params.pin_uv_auth_param->Some_0.len() > 0
            && params.pin_uv_auth_protocol == Some(1u64)) && has_input(params)
            && !params.options.up ==> result == Err::<ResponseData, _>(
            Ctap2StatusCode::CTAP2_ERR_UNSUPPORTED_EXTENSION,
        ),
        params.pin_uv_auth_param is None && (has_input(params) ==> params.options.up)
            && params.options.uv ==> result == Err::<ResponseData, _>(
            Ctap2StatusCode::CTAP2_ERR_INVALID_OPTION,
        ),
{
}

/// Whether a request that names no credential can find one: it is the relying
/// party's, and the user is verified or the credential may be found without.
pub open spec fn can_be_found(
    credential: CredentialModel,
    rp_id: Seq<char>,
    verified: bool,
) -> bool {
    &&& credential.rp_id == rp_id
    &&& verified || credential.cred_protect_policy is None || credential.cred_protect_policy
        == Some(CredentialProtectionPolicy::UserVerificationOptional)
}

/// The first element that a filter lets through is the first that it would.
proof fn lemma_first_filtered(
    credentials: Seq<CredentialModel>,
    wanted: spec_fn(CredentialModel) -> bool,
    i: int,
)
    requires
        0 <= i <= credentials.len(),
        forall|j: int| 0 <= j < i ==> !wanted(#[trigger] credentials[j]),
        i < credentials.len() ==> wanted(credentials[i]),
    ensures
        i == credentials.len() ==> credentials.filter(wanted).len() == 0,
        i < credentials.len() ==> credentials.filter(wanted).len() > 0 && credentials.filter(
            wanted,
        )[0] == credentials[i],
    decreases credentials.len(),
{
    reveal(Seq::filter);
    if credentials.len() > 0 {
        let rest = credentials.drop_last();
        if i < rest.len() {
            lemma_first_filtered(rest, wanted, i);
        } else {
            lemma_first_filtered(rest, wanted, rest.len() as int);
        }
    }
}

/// A request that names no credential is served with the one of its relying
/// party that was stored first. If its user is verified, every credential
/// counts, however protected; if not, only those count that may be found
/// without. If there is none, it is told so, and nothing changes.
pub proof fn law_earliest_credential_is_used<C: Fn(ChannelID) -> Result<(), Ctap2StatusCode>>(
    pre: StateModel,
    check: C,
    cid: ChannelID,
    params: GetAssertionModel,
    result: Result<ResponseData, Ctap2StatusCode>,
    post: StateModel,
)
    requires
        get_assertion::did_get_assertion(pre, check, cid, params, result, post),
        may_be_served(pre, params),
        params.allow_list is None,
    ensures
        (forall|i: int|
            0 <= i < pre.store.credentials.len() ==> !can_be_found(
                #[trigger] pre.store.credentials[i],
                params.rp_id,
                params.pin_uv_auth_param is Some,
            )) ==> result == Err::<ResponseData, _>(Ctap2StatusCode::CTAP2_ERR_NO_CREDENTIALS)
            && post == pre,
        forall|i: int|
            0 <= i < pre.store.credentials.len() && can_be_found(
                #[trigger] pre.store.credentials[i],
                params.rp_id,
                params.pin_uv_auth_param is Some,
            ) && (forall|j: int|
                0 <= j < i ==> !can_be_found(
                    #[trigger] pre.store.credentials[j],
                    params.rp_id,
                    params.pin_uv_auth_param is Some,
                )) ==> serves_with(
                pre,
                check,
                cid,
                params,
                pre.store.credentials[i],
                result,
                post,
            ),
{
    let credentials = pre.store.credentials;
    let verified = params.pin_uv_auth_param is Some;
    let wanted = storage::is_listed(params.rp_id, !verified);
    assert forall|c: CredentialModel| #[trigger] wanted(c) == can_be_found(
        c,
        params.rp_id,
        verified,
    ) by {}
    if forall|i: int|
        0 <= i < credentials.len() ==> !can_be_found(
            #[trigger] credentials[i],
            params.rp_id,
            verified,
        ) {
        lemma_first_filtered(credentials, wanted, credentials.len() as int);
    }
    assert forall|i: int|
        0 <= i < credentials.len() && can_be_found(
            #[trigger] credentials[i],
            params.rp_id,
            verified,
        ) && (forall|j: int|
            0 <= j < i ==> !can_be_found(
                #[trigger] credentials[j],
                params.rp_id,
                verified,
            )) implies serves_with(pre, check, cid, params, credentials[i], result, post) by {
        lemma_first_filtered(credentials, wanted, i);
        assert(get_assertion::chosen(pre, params) == Some(credentials[i]));
        lemma_served(pre, check, cid, params, credentials[i], result, post);
    }
}

/// A request that may be served is served with the credential that is chosen.
proof fn lemma_served<C: Fn(ChannelID) -> Result<(), Ctap2StatusCode>>(
    pre: StateModel,
    check: C,
    cid: ChannelID,
    params: GetAssertionModel,
    credential: CredentialModel,
    result: Result<ResponseData, Ctap2StatusCode>,
    post: StateModel,
)
    requires
        get_assertion::did_get_assertion(pre, check, cid, params, result, post),
        may_be_served(pre, params),
        get_assertion::chosen(pre, params) == Some(credential),
    ensures
        serves_with(pre, check, cid, params, credential, result, post),
{
    if get_assertion::asserted_with(pre, params, credential, result, post) {
        lemma_asserted(pre, params, credential, result, post);
    }
}

/// Whether the name at a position of an allow list finds a stored credential:
/// the first of the relying party with that ID, unless it needs verification
/// and the user is not verified.
pub open spec fn name_finds(
    credentials: Seq<CredentialModel>,
    params: GetAssertionModel,
    list: Seq<DescriptorModel>,
    j: int,
    i: int,
) -> bool {
    &&& 0 <= j < list.len() && 0 <= i < credentials.len()
    &&& credentials[i].rp_id == params.rp_id && credentials[i].credential_id == list[j].key_id
    &&& forall|k: int|
        0 <= k < i ==> (#[trigger] credentials[k]).rp_id != params.rp_id
            || credentials[k].credential_id != list[j].key_id
    &&& params.pin_uv_auth_param is Some || credentials[i].cred_protect_policy != Some(
        CredentialProtectionPolicy::UserVerificationRequired,
    )
}

/// Whether the name at a position of an allow list holds a credential for the
/// relying party: it has the right length and HMAC, and what it encrypts is a
/// private key and the hash of the relying party's ID.
pub open spec fn name_holds(
    state: StateModel,
    params: GetAssertionModel,
    list: Seq<DescriptorModel>,
    j: int,
) -> bool {
    let id = list[j].key_id;
    let plain = held_data(state, id);
    &&& 0 <= j < list.len()
    &&& id.len() == 112
    &&& hmac::hmac_sha256(state.store.hmac_key, id.take(80)) == id.skip(80)
    &&& plain.skip(32) == sha256::sha256(vstd::utf8::encode_utf8(params.rp_id))
    &&& p256::is_scalar(plain.take(32))
}

/// What a credential ID encrypts.
pub open spec fn held_data(state: StateModel, id: Seq<u8>) -> Seq<u8> {
    cbc::cbc_dec(state.store.encryption_key, id.take(16), id.subrange(16, 80))
}

/// The credential that a credential ID holds. Nothing but its key is known.
pub open spec fn held_credential(state: StateModel, id: Seq<u8>) -> CredentialModel {
    CredentialModel {
        key_type: PublicKeyCredentialType::PublicKey,
        credential_id: id,
        private_key: held_data(state, id).take(32),
        rp_id: Seq::empty(),
        user_handle: Seq::empty(),
        other_ui: None,
        cred_random: None,
        cred_protect_policy: None,
    }
}

/// What a request finds under one name.
pub proof fn lemma_found(
    credentials: Seq<CredentialModel>,
    rp_id: Seq<char>,
    id: Seq<u8>,
    i: int,
)
    requires
        0 <= i <= credentials.len(),
        forall|k: int|
            0 <= k < i ==> (#[trigger] credentials[k]).rp_id != rp_id
                || credentials[k].credential_id != id,
        i < credentials.len() ==> credentials[i].rp_id == rp_id && credentials[i].credential_id
            == id,
    ensures
        storage::first_named(credentials, rp_id, id) == (if i < credentials.len() {
            Some(credentials[i])
        } else {
            None
        }),
    decreases credentials.len(),
{
    if credentials.len() > 0 && i > 0 {
        let rest = credentials.skip(1);
        assert(credentials[0].rp_id != rp_id || credentials[0].credential_id != id);
        assert forall|k: int| 0 <= k < i - 1 implies (#[trigger] rest[k]).rp_id != rp_id
            || rest[k].credential_id != id by {
            assert(rest[k] == credentials[k + 1]);
        }
        lemma_found(rest, rp_id, id, i - 1);
    }
}

/// Whether a name finds a stored credential, and which.
proof fn lemma_name(
    pre: StateModel,
    params: GetAssertionModel,
    list: Seq<DescriptorModel>,
    j: int,
)
    requires
        0 <= j < list.len(),
    ensures
        forall|i: int| #[trigger]
            name_finds(pre.store.credentials, params, list, j, i) ==> storage::found(
                pre.store.credentials,
                params.rp_id,
                list[j].key_id,
                params.pin_uv_auth_param is None,
            ) == Some(pre.store.credentials[i]),
        storage::found(
            pre.store.credentials,
            params.rp_id,
            list[j].key_id,
            params.pin_uv_auth_param is None,
        ) is Some ==> exists|i: int| #[trigger]
            name_finds(pre.store.credentials, params, list, j, i),
{
    let credentials = pre.store.credentials;
    let id = list[j].key_id;
    assert forall|i: int| #[trigger] name_finds(credentials, params, list, j, i) implies
        storage::found(credentials, params.rp_id, id, params.pin_uv_auth_param is None) == Some(
        credentials[i],
    ) by {
        lemma_found(credentials, params.rp_id, id, i);
    }
    if storage::found(credentials, params.rp_id, id, params.pin_uv_auth_param is None) is Some {
        lemma_least_named(credentials, params.rp_id, id);
        let i = choose|i: int|
            0 <= i < credentials.len() && #[trigger] credentials[i] == credentials[i]
                && credentials[i].rp_id == params.rp_id && credentials[i].credential_id == id && (
            forall|k: int|
                0 <= k < i ==> (#[trigger] credentials[k]).rp_id != params.rp_id
                    || credentials[k].credential_id != id);
        lemma_found(credentials, params.rp_id, id, i);
        assert(name_finds(credentials, params, list, j, i));
    }
}

/// Where there is a credential with a name, there is a first.
pub proof fn lemma_least_named(credentials: Seq<CredentialModel>, rp_id: Seq<char>, id: Seq<u8>)
    requires
        storage::first_named(credentials, rp_id, id) is Some,
    ensures
        exists|i: int|
            0 <= i < credentials.len() && #[trigger] credentials[i] == credentials[i]
                && credentials[i].rp_id == rp_id && credentials[i].credential_id == id && (forall|
                k: int,
            |
                0 <= k < i ==> (#[trigger] credentials[k]).rp_id != rp_id
                    || credentials[k].credential_id != id),
    decreases credentials.len(),
{
    if credentials[0].rp_id == rp_id && credentials[0].credential_id == id {
        assert(credentials[0] == credentials[0]);
    } else {
        let rest = credentials.skip(1);
        lemma_least_named(rest, rp_id, id);
        let i = choose|i: int|
            0 <= i < rest.len() && #[trigger] rest[i] == rest[i] && rest[i].rp_id == rp_id
                && rest[i].credential_id == id && (forall|k: int|
                0 <= k < i ==> (#[trigger] rest[k]).rp_id != rp_id || rest[k].credential_id != id);
        assert forall|k: int| 0 <= k < i + 1 implies (#[trigger] credentials[k]).rp_id != rp_id
            || credentials[k].credential_id != id by {
            if k > 0 {
                assert(credentials[k] == rest[k - 1]);
            }
        }
        assert(credentials[i + 1] == rest[i]);
        assert(credentials[i + 1] == credentials[i + 1]);
    }
}

/// The first name that finds a credential decides.
proof fn lemma_first_found(
    pre: StateModel,
    rp_id: Seq<char>,
    list: Seq<DescriptorModel>,
    check: bool,
    j: int,
)
    requires
        0 <= j <= list.len(),
        forall|l: int|
            0 <= l < j ==> storage::found(
                pre.store.credentials,
                rp_id,
                (#[trigger] list[l]).key_id,
                check,
            ) is None,
        j < list.len() ==> storage::found(
            pre.store.credentials,
            rp_id,
            list[j].key_id,
            check,
        ) is Some,
    ensures
        get_assertion::first_found(pre, rp_id, list, check) == (if j < list.len() {
            storage::found(pre.store.credentials, rp_id, list[j].key_id, check)
        } else {
            None
        }),
    decreases list.len(),
{
    if list.len() > 0 && j > 0 {
        let rest = list.skip(1);
        assert(storage::found(pre.store.credentials, rp_id, list[0].key_id, check) is None);
        assert forall|l: int| 0 <= l < j - 1 implies storage::found(
            pre.store.credentials,
            rp_id,
            (#[trigger] rest[l]).key_id,
            check,
        ) is None by {
            assert(rest[l] == list[l + 1]);
        }
        lemma_first_found(pre, rp_id, rest, check, j - 1);
    }
}

/// The first name that holds a credential decides.
proof fn lemma_first_opened(
    pre: StateModel,
    params: GetAssertionModel,
    list: Seq<DescriptorModel>,
    j: int,
)
    requires
        0 <= j <= list.len(),
        forall|l: int| 0 <= l < j ==> !#[trigger] name_holds(pre, params, list, l),
        j < list.len() ==> name_holds(pre, params, list, j),
    ensures
        get_assertion::first_opened(
            pre,
            sha256::sha256(vstd::utf8::encode_utf8(params.rp_id)),
            list,
        ) == (if j < list.len() {
            Some(held_credential(pre, list[j].key_id))
        } else {
            None
        }),
    decreases list.len(),
{
    if list.len() > 0 {
        let rest = list.skip(1);
        if j > 0 {
            assert(!name_holds(pre, params, list, 0));
            assert forall|l: int| 0 <= l < j - 1 implies !#[trigger] name_holds(
                pre,
                params,
                rest,
                l,
            ) by {
                assert(!name_holds(pre, params, list, l + 1));
            }
            if j < list.len() {
                assert(name_holds(pre, params, rest, j - 1));
            }
            lemma_first_opened(pre, params, rest, j - 1);
        }
    }
}

/// A request that names credentials is served with the first of them that is
/// stored for its relying party and may be used; names before it that find none
/// do no harm. If none is stored, it is served with the first that its name
/// holds. If there is none either way, it is told so, and nothing changes.
pub proof fn law_first_named_credential_is_used<C: Fn(ChannelID) -> Result<(), Ctap2StatusCode>>(
    pre: StateModel,
    check: C,
    cid: ChannelID,
    params: GetAssertionModel,
    list: Seq<DescriptorModel>,
    result: Result<ResponseData, Ctap2StatusCode>,
    post: StateModel,
)
    requires
        get_assertion::did_get_assertion(pre, check, cid, params, result, post),
        may_be_served(pre, params),
        params.allow_list == Some(list),
    ensures
        forall|j: int, i: int| #[trigger]
            name_finds(pre.store.credentials, params, list, j, i) && (forall|l: int, k: int|
                l < j ==> !#[trigger] name_finds(pre.store.credentials, params, list, l, k))
                ==> serves_with(
                pre,
                check,
                cid,
                params,
                pre.store.credentials[i],
                result,
                post,
            ),
        (forall|l: int, k: int|
            !#[trigger] name_finds(pre.store.credentials, params, list, l, k)) ==> {
            &&& forall|j: int| #[trigger]
                name_holds(pre, params, list, j) && (forall|l: int|
                    l < j ==> !#[trigger] name_holds(pre, params, list, l)) ==> serves_with(
                    pre,
                    check,
                    cid,
                    params,
                    held_credential(pre, list[j].key_id),
                    result,
                    post,
                )
            &&& (forall|j: int| !#[trigger] name_holds(pre, params, list, j)) ==> result == Err::<
                ResponseData,
                _,
            >(Ctap2StatusCode::CTAP2_ERR_NO_CREDENTIALS) && post == pre
        },
{
    let credentials = pre.store.credentials;
    let unverified = params.pin_uv_auth_param is None;
    assert forall|l: int| 0 <= l < list.len() && (forall|k: int|
        !#[trigger] name_finds(credentials, params, list, l, k)) implies storage::found(
        credentials,
        params.rp_id,
        (#[trigger] list[l]).key_id,
        unverified,
    ) is None by {
        lemma_name(pre, params, list, l);
    }
    assert forall|j: int, i: int| #[trigger]
        name_finds(credentials, params, list, j, i) && (forall|l: int, k: int|
            l < j ==> !#[trigger] name_finds(credentials, params, list, l, k)) implies serves_with(
        pre,
        check,
        cid,
        params,
        credentials[i],
        result,
        post,
    ) by {
        lemma_name(pre, params, list, j);
        lemma_first_found(pre, params.rp_id, list, unverified, j);
        lemma_served(pre, check, cid, params, credentials[i], result, post);
    }
    if forall|l: int, k: int| !#[trigger] name_finds(credentials, params, list, l, k) {
        lemma_first_found(pre, params.rp_id, list, unverified, list.len() as int);
        assert forall|j: int| #[trigger]
            name_holds(pre, params, list, j) && (forall|l: int|
                l < j ==> !#[trigger] name_holds(pre, params, list, l)) implies serves_with(
            pre,
            check,
            cid,
            params,
            held_credential(pre, list[j].key_id),
            result,
            post,
        ) by {
            lemma_first_opened(pre, params, list, j);
            lemma_served(
                pre,
                check,
                cid,
                params,
                held_credential(pre, list[j].key_id),
                result,
                post,
            );
        }
        if forall|j: int| !#[trigger] name_holds(pre, params, list, j) {
            lemma_first_opened(pre, params, list, list.len() as int);
        }
    }
}

} // verus!
