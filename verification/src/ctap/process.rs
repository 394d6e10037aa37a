//! From request to response.

use crate::cbor::model;
use crate::cbor::writer;
use crate::crypto::rng256::Rng256;
use crate::ctap::command;
use crate::ctap::command::{Command, CommandModel};
use crate::ctap::get_assertion;
use crate::ctap::hid::ChannelID;
use crate::ctap::info;
use crate::ctap::make_credential;
use crate::ctap::parse;
use crate::ctap::pin;
use crate::ctap::response;
use crate::ctap::response::ResponseData;
use crate::ctap::state;
use crate::ctap::state::{CtapState, StateModel};
use crate::ctap::status_code::Ctap2StatusCode;
use vstd::prelude::*;

verus! {

/// The bytes of a response: a zero and the encoded answer, or the byte of an
/// error.
pub open spec fn reply(result: Result<ResponseData, Ctap2StatusCode>) -> Seq<u8> {
    match result {
        Err(e) => seq![e.byte()],
        Ok(data) => seq![0u8] + match response::response_item(data) {
            Some(item) => model::encode(item),
            None => Seq::empty(),
        },
    }
}

/// The bytes of a response.
pub fn encode_response(result: Result<ResponseData, Ctap2StatusCode>) -> (bytes: Vec<u8>)
    ensures
        bytes@ == reply(result),
{
    match result {
        Ok(response_data) => {
            let ghost data = response_data;
            let mut bytes: Vec<u8> = vec![0x00];
            match response_data.into_cbor() {
                Some(value) => {
                    if !writer::write(value, &mut bytes) {
                        return vec![
                            Ctap2StatusCode::CTAP2_ERR_VENDOR_RESPONSE_CANNOT_WRITE_CBOR.to_byte(),
                        ];
                    }
                },
                None => {},
            }
            assert(bytes@ =~= reply(Ok(data)));
            bytes
        },
        Err(error_code) => {
            let bytes: Vec<u8> = vec![error_code.to_byte()];
            assert(bytes@ =~= reply(Err(error_code)));
            bytes
        },
    }
}

/// Whether a command is one that can be carried out.
pub open spec fn is_implemented(command: CommandModel) -> bool {
    !(command is GetNextAssertion) && !(command is Selection)
}

/// What a command does.
pub open spec fn carried_out<R: Rng256, C: Fn(ChannelID) -> Result<(), Ctap2StatusCode>>(
    pre: StateModel,
    rng: R,
    check: C,
    cid: ChannelID,
    command: CommandModel,
    result: Result<ResponseData, Ctap2StatusCode>,
    post: StateModel,
    after: R,
) -> bool {
    match command {
        CommandModel::MakeCredential(params) => make_credential::did_make_credential(
            pre,
            rng,
            check,
            cid,
            params,
            result,
            post,
            after,
        ),
        CommandModel::GetAssertion(params) => get_assertion::did_get_assertion(
            pre,
            check,
            cid,
            params,
            result,
            post,
        ) && after == rng,
        CommandModel::GetInfo => info::did_get_info(pre.store.pin_hash is Some, result)
            && post == pre && after == rng,
        CommandModel::ClientPin(params) => pin::did_client_pin(
            pre,
            rng,
            params,
            result,
            post,
            after,
        ),
        CommandModel::Reset => state::did_reset(pre, rng, check, cid, result, post, after),
        _ => false,
    }
}

/// The state in which a command is carried out: a touch for a U2F request no
/// longer counts.
pub open spec fn before_command(state: StateModel) -> StateModel {
    StateModel { u2f_up_state: state::fresh_up_state(), ..state }
}

/// What a request does and is answered, given the command that it was read as.
pub open spec fn answered_command<R: Rng256, C: Fn(ChannelID) -> Result<(), Ctap2StatusCode>>(
    pre: StateModel,
    rng: R,
    check: C,
    cid: ChannelID,
    command: Result<CommandModel, Ctap2StatusCode>,
    bytes: Seq<u8>,
    post: StateModel,
    after: R,
) -> bool {
    match command {
        Err(e) => bytes == seq![e.byte()] && post == pre && after == rng,
        Ok(c) => exists|result: Result<ResponseData, Ctap2StatusCode>|
            bytes == reply(result) && #[trigger] carried_out(
                before_command(pre),
                rng,
                check,
                cid,
                c,
                result,
                post,
                after,
            ),
    }
}

impl<'a, R, CheckUserPresence> CtapState<'a, R, CheckUserPresence> where
    R: Rng256,
    CheckUserPresence: Fn(ChannelID) -> Result<(), Ctap2StatusCode>,
 {
    /// Carries a command out.
    pub fn carry_out(&mut self, command: Command, cid: ChannelID) -> (result: Result<
        ResponseData,
        Ctap2StatusCode,
    >)
        requires
            old(self)@.valid(),
            call_requires(old(self).check_user_presence, (cid,)),
            is_implemented(command@),
        ensures
            final(self)@.valid(),
            final(self).check_user_presence == old(self).check_user_presence,
            carried_out(
                old(self)@,
                *old(self).rng,
                old(self).check_user_presence,
                cid,
                command@,
                result,
                final(self)@,
                *final(self).rng,
            ),
    {
        match command {
            Command::AuthenticatorMakeCredential(params) => self.process_make_credential(
                params,
                cid,
            ),
            Command::AuthenticatorGetAssertion(params) => self.process_get_assertion(params, cid),
            Command::AuthenticatorGetInfo => self.process_get_info(),
            Command::AuthenticatorClientPin(params) => self.process_client_pin(params),
            Command::AuthenticatorReset => self.process_reset(cid),
            // Left out by what is required.
            _ => Err(Ctap2StatusCode::CTAP1_ERR_INVALID_COMMAND),
        }
    }

    /// Answers a request that was read as a command, or could not be read.
    pub fn process_decoded_command(
        &mut self,
        command: Result<Command, Ctap2StatusCode>,
        cid: ChannelID,
    ) -> (bytes: Vec<u8>)
        requires
            old(self)@.valid(),
            call_requires(old(self).check_user_presence, (cid,)),
            command matches Ok(c) ==> is_implemented(c@),
        ensures
            final(self)@.valid(),
            final(self).check_user_presence == old(self).check_user_presence,
            answered_command(
                old(self)@,
                *old(self).rng,
                old(self).check_user_presence,
                cid,
                parse::viewed(command),
                bytes@,
                final(self)@,
                *final(self).rng,
            ),
    {
        match command {
            Ok(command) => {
                // How CTAP1 and CTAP2 go together is not defined: this is a guess.
                self.u2f_up_state = state::new_up_state();
                let result: Result<ResponseData, Ctap2StatusCode> = self.carry_out(command, cid);
                encode_response(result)
            },
            Err(error_code) => encode_response(Err(error_code)),
        }
    }

    /// Answers a request. The two commands that are read but not implemented
    /// are left out.
    pub fn process_command(&mut self, command_cbor: &[u8], cid: ChannelID) -> (bytes: Vec<u8>)
        requires
            old(self)@.valid(),
            call_requires(old(self).check_user_presence, (cid,)),
            command_cbor@.len() > 0 ==> command_cbor@[0] != 0x08 && command_cbor@[0] != 0x0b,
        ensures
            final(self)@.valid(),
            final(self).check_user_presence == old(self).check_user_presence,
            answered_command(
                old(self)@,
                *old(self).rng,
                old(self).check_user_presence,
                cid,
                command::command_of(command_cbor@),
                bytes@,
                final(self)@,
                *final(self).rng,
            ),
    {
        let command: Result<Command, Ctap2StatusCode> = Command::deserialize(command_cbor);
        self.process_decoded_command(command, cid)
    }
}

} // verus!
