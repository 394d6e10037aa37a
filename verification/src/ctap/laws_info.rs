//! What GetInfo and Reset are for, and what every request does.

use crate::cbor::model;
use crate::cbor::model::Item;
use crate::crypto::rng256::Rng256;
use crate::ctap::command::CommandModel;
use crate::ctap::data_formats::{
    AuthenticatorTransport, PublicKeyCredentialType, SignatureAlgorithm,
};
use crate::ctap::hid::ChannelID;
use crate::ctap::key_material::AAGUID;
use crate::ctap::laws_answer;
use crate::ctap::process;
use crate::ctap::response;
use crate::ctap::response::{AuthenticatorGetInfoResponse, ResponseData};
use crate::ctap::state;
use crate::ctap::state::StateModel;
use crate::ctap::status_code::Ctap2StatusCode;
use vstd::prelude::*;

verus! {

/// Whether an answer says that an option is on, or that it is off.
pub open spec fn says_option(answer: AuthenticatorGetInfoResponse, name: Seq<char>, on: bool) -> bool {
    answer.options matches Some(options) && {
        &&& exists|i: int| 0 <= i < options@.len() && (#[trigger] options@[i]).0@ == name
        &&& forall|i: int|
            0 <= i < options@.len() && (#[trigger] options@[i]).0@ == name ==> options@[i].1 == on
    }
}

/// Whether a result is an answer to GetInfo.
pub open spec fn is_info_answer(
    result: Result<ResponseData, Ctap2StatusCode>,
    answer: AuthenticatorGetInfoResponse,
) -> bool {
    result == Ok::<ResponseData, Ctap2StatusCode>(ResponseData::AuthenticatorGetInfo(answer))
}

/// The authenticator says of itself that it can store credentials, that it asks
/// for presence, and whether a PIN is set: that option is on exactly if a PIN is
/// kept. It names its versions, its one extension, the one version of the PIN
/// protocol, its one transport and its one algorithm. Asking changes nothing.
pub proof fn law_info_tells_whether_a_pin_is_set<
    R: Rng256,
    C: Fn(ChannelID) -> Result<(), Ctap2StatusCode>,
>(
    pre: StateModel,
    rng: R,
    check: C,
    cid: ChannelID,
    result: Result<ResponseData, Ctap2StatusCode>,
    post: StateModel,
    after: R,
)
    requires
        process::carried_out(pre, rng, check, cid, CommandModel::GetInfo, result, post, after),
    ensures
        post == pre,
        after == rng,
        exists|answer: AuthenticatorGetInfoResponse| #[trigger]
            is_info_answer(result, answer) && {
                &&& says_option(answer, "clientPin"@, pre.store.pin_hash is Some)
                &&& says_option(answer, "rk"@, true)
                &&& says_option(answer, "up"@, true)
                &&& answer.options matches Some(options) && options@.len() == 3
                &&& answer.versions@.len() == 2 && answer.versions@[0]@ == "U2F_V2"@
                    && answer.versions@[1]@ == "FIDO_2_0"@
                &&& answer.extensions matches Some(list) && list@.len() == 1 && list@[0]@
                    == "hmac-secret"@
                &&& answer.aaguid@ == AAGUID@
                &&& answer.max_msg_size == Some(1024u64)
                &&& answer.pin_protocols matches Some(list) && list@.len() == 1 && list@[0] == 1
                &&& answer.transports matches Some(list) && list@.len() == 1 && list@[0]
                    == AuthenticatorTransport::Usb
                &&& answer.algorithms matches Some(list) && list@.len() == 1 && list@[0].alg
                    == SignatureAlgorithm::ES256 && list@[0].cred_type
                    == PublicKeyCredentialType::PublicKey
                &&& answer.max_credential_count_in_list is None
                &&& answer.max_credential_id_length is None
                &&& answer.default_cred_protect is None
                &&& answer.firmware_version is None
            },
{
    laws_answer::lemma_names();
    let answer = result->Ok_0->AuthenticatorGetInfo_0;
    assert(is_info_answer(result, answer));
    let options = answer.options->Some_0@;
    assert(options[0].0@ == "rk"@ && options[1].0@ == "up"@ && options[2].0@ == "clientPin"@);
}

/// Whether encoded options say that an option is on, or that it is off.
pub open spec fn encodes_option(options: Item, name: Seq<char>, on: bool) -> bool {
    options matches Item::Table(entries) && laws_answer::gives(
        entries,
        Item::TextString(name),
        Some(
            Item::Simple(
                if on {
                    model::SimpleValue::TrueValue
                } else {
                    model::SimpleValue::FalseValue
                },
            ),
        ),
    )
}

/// The bytes that answer a request for GetInfo are a zero and an encoded map,
/// whose entry 4 gives the option `clientPin` as on exactly if a PIN is kept.
pub proof fn law_info_bytes_tell_whether_a_pin_is_set<
    R: Rng256,
    C: Fn(ChannelID) -> Result<(), Ctap2StatusCode>,
>(
    pre: StateModel,
    rng: R,
    check: C,
    cid: ChannelID,
    bytes: Seq<u8>,
    post: StateModel,
    after: R,
)
    requires
        process::answered_command(
            pre,
            rng,
            check,
            cid,
            Ok(CommandModel::GetInfo),
            bytes,
            post,
            after,
        ),
    ensures
        exists|entries: Seq<(Item, Item)>, options: Item|
            bytes == seq![0u8] + #[trigger] model::encode(Item::Table(entries))
                && laws_answer::gives(entries, Item::Unsigned(4), Some(options))
                && #[trigger] encodes_option(options, "clientPin"@, pre.store.pin_hash is Some),
{
    let before = process::before_command(pre);
    let result = choose|result: Result<ResponseData, Ctap2StatusCode>|
        bytes == process::reply(result) && #[trigger] process::carried_out(
            before,
            rng,
            check,
            cid,
            CommandModel::GetInfo,
            result,
            post,
            after,
        );
    law_info_tells_whether_a_pin_is_set(before, rng, check, cid, result, post, after);
    let answer = result->Ok_0->AuthenticatorGetInfo_0;
    assert(is_info_answer(result, answer));
    laws_answer::law_info_answer_holds(answer);
    laws_answer::law_reply_is_the_encoded_answer(result->Ok_0);
    let entries = response::response_item(result->Ok_0)->Some_0->Table_0;
    let list = answer.options->Some_0;
    let options = choose|item: Item| #[trigger]
        laws_answer::is_options_map(item, list@) && laws_answer::gives(
            entries,
            Item::Unsigned(4),
            Some(item),
        );
    let inner = options->Table_0;
    let i = choose|i: int| 0 <= i < list@.len() && (#[trigger] list@[i]).0@ == "clientPin"@;
    assert(inner[i].0 == Item::TextString("clientPin"@));
    assert forall|j: int|
        0 <= j < inner.len() && (#[trigger] inner[j]).0 == Item::TextString(
            "clientPin"@,
        ) implies inner[j].1 == inner[i].1 by {
        assert(list@[j].0@ == "clientPin"@);
    }
    assert(encodes_option(options, "clientPin"@, pre.store.pin_hash is Some));
    assert(bytes == seq![0u8] + model::encode(Item::Table(entries)));
}

/// What GetInfo says of the PIN follows the requests before it: once a PIN was
/// set, that one is; once all was forgotten, that none is.
pub proof fn law_info_follows_requests<
    R: Rng256,
    C: Fn(ChannelID) -> Result<(), Ctap2StatusCode>,
>(
    pre: StateModel,
    rng: R,
    check: C,
    cid: ChannelID,
    request: CommandModel,
    result: Result<ResponseData, Ctap2StatusCode>,
    between: StateModel,
    rng_between: R,
    told: Result<ResponseData, Ctap2StatusCode>,
    post: StateModel,
    after: R,
)
    requires
        process::carried_out(pre, rng, check, cid, request, result, between, rng_between),
        process::carried_out(
            between,
            rng_between,
            check,
            cid,
            CommandModel::GetInfo,
            told,
            post,
            after,
        ),
        result is Ok,
    ensures
        (request matches CommandModel::ClientPin(params) && params.sub_command is SetPin)
            ==> exists|answer: AuthenticatorGetInfoResponse| #[trigger]
            is_info_answer(told, answer) && says_option(answer, "clientPin"@, true),
        request is Reset ==> exists|answer: AuthenticatorGetInfoResponse| #[trigger]
            is_info_answer(told, answer) && says_option(answer, "clientPin"@, false),
{
    law_info_tells_whether_a_pin_is_set(between, rng_between, check, cid, told, post, after);
}

/// A reset is refused once it is too late, and then changes nothing. Before, it
/// asks for presence; without, it changes nothing. With it, it forgets all
/// credentials, the PIN and the counter, gives all tries back, and draws all
/// keys and the token anew. It rules no later reset out.
pub proof fn law_reset_forgets_everything<
    R: Rng256,
    C: Fn(ChannelID) -> Result<(), Ctap2StatusCode>,
>(
    pre: StateModel,
    rng: R,
    check: C,
    cid: ChannelID,
    result: Result<ResponseData, Ctap2StatusCode>,
    post: StateModel,
    after: R,
)
    requires
        process::carried_out(pre, rng, check, cid, CommandModel::Reset, result, post, after),
    ensures
        !pre.accepts_reset ==> result == Err::<ResponseData, _>(
            Ctap2StatusCode::CTAP2_ERR_NOT_ALLOWED,
        ) && post == pre && after == rng,
        pre.accepts_reset ==> exists|presence: Result<(), Ctap2StatusCode>| #[trigger]
            call_ensures(check, (cid,), presence) && match presence {
                Err(e) => result == Err::<ResponseData, _>(e) && post == pre && after == rng,
                Ok(_) => {
                    &&& result == Ok::<ResponseData, Ctap2StatusCode>(
                        ResponseData::AuthenticatorReset,
                    )
                    &&& post.store.credentials.len() == 0
                    &&& post.store.pin_hash is None
                    &&& post.store.pin_retries == 8
                    &&& post.store.counter == 0
                    &&& post.mismatches == 0
                    &&& post.accepts_reset
                    &&& post.u2f_up_state.needs_up is None
                    &&& post.u2f_up_state.has_up is None
                    &&& exists|a: R, b: R, c: R|
                        {
                            &&& #[trigger] rng.draws(post.store.encryption_key, a)
                            &&& #[trigger] a.draws(post.store.hmac_key, b)
                            &&& #[trigger] b.draws_scalar(post.key_agreement_key, c)
                            &&& c.draws(post.pin_token, after)
                        }
                },
            },
{
}

/// Ten seconds after booting it is too late for a reset. Before, it is refused
/// only for want of presence. Time changes nothing else.
pub proof fn law_time_for_resets_ends<
    R: Rng256,
    C: Fn(ChannelID) -> Result<(), Ctap2StatusCode>,
>(
    pre: StateModel,
    timestamp: isize,
    between: StateModel,
    rng: R,
    check: C,
    cid: ChannelID,
    result: Result<ResponseData, Ctap2StatusCode>,
    post: StateModel,
    after: R,
)
    requires
        state::time_passed(pre, timestamp, between),
        process::carried_out(between, rng, check, cid, CommandModel::Reset, result, post, after),
    ensures
        between.store == pre.store,
        between.key_agreement_key == pre.key_agreement_key,
        between.pin_token == pre.pin_token,
        between.mismatches == pre.mismatches,
        between.u2f_up_state == pre.u2f_up_state,
        timestamp > 10000 || !pre.accepts_reset ==> result == Err::<ResponseData, _>(
            Ctap2StatusCode::CTAP2_ERR_NOT_ALLOWED,
        ) && post == between && !between.accepts_reset,
        timestamp <= 10000 && pre.accepts_reset ==> between == pre && exists|
            presence: Result<(), Ctap2StatusCode>,
        | #[trigger]
            call_ensures(check, (cid,), presence) && (presence is Ok <==> result is Ok),
{
}

/// An authenticator that has just started holds no credential and no PIN, has
/// all tries, counted nothing, and can be reset. It drew its keys and its token.
pub proof fn law_start_is_empty<R: Rng256>(rng: R, state: StateModel, after: R)
    requires
        state::started(rng, state, after),
    ensures
        state.store.credentials.len() == 0,
        state.store.pin_hash is None,
        state.store.pin_retries == 8,
        state.store.counter == 0,
        state.mismatches == 0,
        state.accepts_reset,
        state.u2f_up_state.needs_up is None,
        state.u2f_up_state.has_up is None,
        exists|a: R, b: R, c: R|
            {
                &&& #[trigger] rng.draws_scalar(state.key_agreement_key, a)
                &&& #[trigger] a.draws(state.pin_token, b)
                &&& #[trigger] b.draws(state.store.encryption_key, c)
                &&& c.draws(state.store.hmac_key, after)
            },
{
    let (a, b) = choose|a: R, b: R| #[trigger]
        rng.draws_scalar(state.key_agreement_key, a) && #[trigger] a.draws(state.pin_token, b)
            && crate::ctap::storage::drew_keys(b, state.store, after);
    let c = choose|c: R| #[trigger]
        b.draws(state.store.encryption_key, c) && c.draws(state.store.hmac_key, after);
    assert(b.draws(state.store.encryption_key, c));
}

/// Whether two states differ in nothing but the touch for a U2F request.
pub open spec fn same_but_touch(a: StateModel, b: StateModel) -> bool {
    &&& a.store == b.store
    &&& a.key_agreement_key == b.key_agreement_key
    &&& a.pin_token == b.pin_token
    &&& a.mismatches == b.mismatches
    &&& a.accepts_reset == b.accepts_reset
}

/// Every request that can be read ends the touch that a U2F request may have
/// got, and is then carried out; one that cannot be read changes nothing, and is
/// answered by one byte. What comes of a request is what its first byte tells.
pub proof fn law_requests_end_a_touch<
    R: Rng256,
    C: Fn(ChannelID) -> Result<(), Ctap2StatusCode>,
>(
    pre: StateModel,
    rng: R,
    check: C,
    cid: ChannelID,
    command: Result<CommandModel, Ctap2StatusCode>,
    bytes: Seq<u8>,
    post: StateModel,
    after: R,
)
    requires
        process::answered_command(pre, rng, check, cid, command, bytes, post, after),
    ensures
        command matches Err(e) ==> bytes == seq![e.byte()] && post == pre && after == rng,
        command is Ok ==> {
            &&& post.u2f_up_state.needs_up is None
            &&& post.u2f_up_state.has_up is None
            &&& post.u2f_up_state.request_duration == 10000
            &&& post.u2f_up_state.presence_duration == 30000
            &&& exists|before: StateModel, result: Result<ResponseData, Ctap2StatusCode>|
                {
                    &&& same_but_touch(pre, before)
                    &&& #[trigger] process::carried_out(
                        before,
                        rng,
                        check,
                        cid,
                        command->Ok_0,
                        result,
                        post,
                        after,
                    )
                    &&& bytes.len() > 0
                    &&& result is Ok <==> bytes[0] == 0
                    &&& result matches Err(e) ==> bytes == seq![e.byte()]
                }
        },
{
    if let Ok(c) = command {
        let before = process::before_command(pre);
        let result = choose|result: Result<ResponseData, Ctap2StatusCode>|
            bytes == process::reply(result) && #[trigger] process::carried_out(
                before,
                rng,
                check,
                cid,
                c,
                result,
                post,
                after,
            );
        assert(process::carried_out(before, rng, check, cid, c, result, post, after));
        if let Err(e) = result {
            laws_answer::law_refusal_is_one_byte(e);
        }
    }
}

} // verus!
