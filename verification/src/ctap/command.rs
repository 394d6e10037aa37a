//! What the authenticator is asked to do.

use crate::cbor::model;
use crate::cbor::model::{Item, Value};
use crate::cbor::reader;
use crate::ctap::data_formats;
use crate::ctap::data_formats::{
    ClientPinSubCommand, CoseKey, GetAssertionExtensions, GetAssertionOptions,
    MakeCredentialExtensions, MakeCredentialOptions, PublicKeyCredentialDescriptor,
    PublicKeyCredentialParameter, PublicKeyCredentialRpEntity, PublicKeyCredentialUserEntity,
};
use crate::ctap::fields;
use crate::ctap::parse;
use crate::ctap::parse::{DescriptorModel, HmacInputModel, RpModel, UserModel};
use crate::ctap::status_code::Ctap2StatusCode;
use vstd::prelude::*;
use vstd::slice::slice_subrange;

verus! {

/// How many credentials a request may name; `None` for no limit.
pub const MAX_CREDENTIAL_COUNT_IN_LIST: Option<u64> = None;

/// A request.
#[derive(Debug, PartialEq)]
pub enum Command {
    AuthenticatorMakeCredential(AuthenticatorMakeCredentialParameters),
    AuthenticatorGetAssertion(AuthenticatorGetAssertionParameters),
    AuthenticatorGetInfo,
    AuthenticatorClientPin(AuthenticatorClientPinParameters),
    AuthenticatorReset,
    AuthenticatorGetNextAssertion,
    AuthenticatorSelection,
}

/// Make a credential.
#[derive(Clone, Debug, PartialEq)]
pub struct AuthenticatorMakeCredentialParameters {
    pub client_data_hash: Vec<u8>,
    pub rp: PublicKeyCredentialRpEntity,
    pub user: PublicKeyCredentialUserEntity,
    pub pub_key_cred_params: Vec<PublicKeyCredentialParameter>,
    pub exclude_list: Option<Vec<PublicKeyCredentialDescriptor>>,
    pub extensions: Option<MakeCredentialExtensions>,
    pub options: MakeCredentialOptions,
    pub pin_uv_auth_param: Option<Vec<u8>>,
    pub pin_uv_auth_protocol: Option<u64>,
}

/// Use a credential.
#[derive(Clone, Debug, PartialEq)]
pub struct AuthenticatorGetAssertionParameters {
    pub rp_id: String,
    pub client_data_hash: Vec<u8>,
    pub allow_list: Option<Vec<PublicKeyCredentialDescriptor>>,
    pub extensions: Option<GetAssertionExtensions>,
    pub options: GetAssertionOptions,
    pub pin_uv_auth_param: Option<Vec<u8>>,
    pub pin_uv_auth_protocol: Option<u64>,
}

/// Set, change or use the PIN.
#[derive(Clone, Debug, PartialEq)]
pub struct AuthenticatorClientPinParameters {
    pub pin_protocol: u64,
    pub sub_command: ClientPinSubCommand,
    pub key_agreement: Option<CoseKey>,
    pub pin_auth: Option<Vec<u8>>,
    pub new_pin_enc: Option<Vec<u8>>,
    pub pin_hash_enc: Option<Vec<u8>>,
    pub min_pin_length: Option<u64>,
    pub min_pin_length_rp_ids: Option<Vec<String>>,
    pub permissions: Option<u8>,
    pub permissions_rp_id: Option<String>,
}

/// What a request for a credential says.
pub struct MakeCredentialModel {
    pub client_data_hash: Seq<u8>,
    pub rp: RpModel,
    pub user: UserModel,
    pub pub_key_cred_params: Seq<PublicKeyCredentialParameter>,
    pub exclude_list: Option<Seq<DescriptorModel>>,
    pub extensions: Option<MakeCredentialExtensions>,
    pub options: MakeCredentialOptions,
    pub pin_uv_auth_param: Option<Seq<u8>>,
    pub pin_uv_auth_protocol: Option<u64>,
}

/// What a request to use a credential says. The extensions are given by the
/// input of the one that there is.
pub struct GetAssertionModel {
    pub rp_id: Seq<char>,
    pub client_data_hash: Seq<u8>,
    pub allow_list: Option<Seq<DescriptorModel>>,
    pub extensions: Option<Option<HmacInputModel>>,
    pub options: GetAssertionOptions,
    pub pin_uv_auth_param: Option<Seq<u8>>,
    pub pin_uv_auth_protocol: Option<u64>,
}

/// What a request about the PIN says.
pub struct ClientPinModel {
    pub pin_protocol: u64,
    pub sub_command: ClientPinSubCommand,
    pub key_agreement: Option<(Seq<u8>, Seq<u8>)>,
    pub pin_auth: Option<Seq<u8>>,
    pub new_pin_enc: Option<Seq<u8>>,
    pub pin_hash_enc: Option<Seq<u8>>,
    pub min_pin_length: Option<u64>,
    pub min_pin_length_rp_ids: Option<Seq<Seq<char>>>,
    pub permissions: Option<u8>,
    pub permissions_rp_id: Option<Seq<char>>,
}

/// What a request says.
pub enum CommandModel {
    MakeCredential(MakeCredentialModel),
    GetAssertion(GetAssertionModel),
    GetInfo,
    ClientPin(ClientPinModel),
    Reset,
    GetNextAssertion,
    Selection,
}

/// The descriptors in an optional list.
pub open spec fn descriptors_model(list: Option<Vec<PublicKeyCredentialDescriptor>>) -> Option<
    Seq<DescriptorModel>,
> {
    match list {
        Some(l) => Some(parse::views(l@)),
        None => None,
    }
}

impl View for AuthenticatorMakeCredentialParameters {
    type V = MakeCredentialModel;

    open spec fn view(&self) -> MakeCredentialModel {
        MakeCredentialModel {
            client_data_hash: self.client_data_hash@,
            rp: self.rp@,
            user: self.user@,
            pub_key_cred_params: self.pub_key_cred_params@,
            exclude_list: descriptors_model(self.exclude_list),
            extensions: self.extensions,
            options: self.options,
            pin_uv_auth_param: data_formats::bytes_model(self.pin_uv_auth_param),
            pin_uv_auth_protocol: self.pin_uv_auth_protocol,
        }
    }
}

impl View for AuthenticatorGetAssertionParameters {
    type V = GetAssertionModel;

    open spec fn view(&self) -> GetAssertionModel {
        GetAssertionModel {
            rp_id: self.rp_id@,
            client_data_hash: self.client_data_hash@,
            allow_list: descriptors_model(self.allow_list),
            extensions: match self.extensions {
                Some(e) => Some(parse::hmac_input_model(e.hmac_secret)),
                None => None,
            },
            options: self.options,
            pin_uv_auth_param: data_formats::bytes_model(self.pin_uv_auth_param),
            pin_uv_auth_protocol: self.pin_uv_auth_protocol,
        }
    }
}

impl View for AuthenticatorClientPinParameters {
    type V = ClientPinModel;

    open spec fn view(&self) -> ClientPinModel {
        ClientPinModel {
            pin_protocol: self.pin_protocol,
            sub_command: self.sub_command,
            key_agreement: match self.key_agreement {
                Some(key) => Some(key@),
                None => None,
            },
            pin_auth: data_formats::bytes_model(self.pin_auth),
            new_pin_enc: data_formats::bytes_model(self.new_pin_enc),
            pin_hash_enc: data_formats::bytes_model(self.pin_hash_enc),
            min_pin_length: self.min_pin_length,
            min_pin_length_rp_ids: match self.min_pin_length_rp_ids {
                Some(list) => Some(parse::views(list@)),
                None => None,
            },
            permissions: self.permissions,
            permissions_rp_id: data_formats::text_model(self.permissions_rp_id),
        }
    }
}

impl View for Command {
    type V = CommandModel;

    open spec fn view(&self) -> CommandModel {
        match self {
            Command::AuthenticatorMakeCredential(params) => CommandModel::MakeCredential(params@),
            Command::AuthenticatorGetAssertion(params) => CommandModel::GetAssertion(params@),
            Command::AuthenticatorGetInfo => CommandModel::GetInfo,
            Command::AuthenticatorClientPin(params) => CommandModel::ClientPin(params@),
            Command::AuthenticatorReset => CommandModel::Reset,
            Command::AuthenticatorGetNextAssertion => CommandModel::GetNextAssertion,
            Command::AuthenticatorSelection => CommandModel::Selection,
        }
    }
}

/// The options for making a credential, if none are given.
pub open spec fn default_make_options() -> MakeCredentialOptions {
    MakeCredentialOptions { rk: false, uv: false }
}

/// The options for using a credential, if none are given.
pub open spec fn default_get_options() -> GetAssertionOptions {
    GetAssertionOptions { up: true, uv: false }
}

/// A request for a credential.
pub open spec fn as_make_credential(value: Item) -> Result<MakeCredentialModel, Ctap2StatusCode> {
    match fields::as_entries(value) {
        Err(e) => Err(e),
        Ok(m) => {
            let bytes = |v: Item| fields::as_bytes(v);
            let client_data_hash = fields::need(fields::at(m, 1), bytes);
            let rp = fields::need(fields::at(m, 2), |v: Item| parse::as_rp(v));
            let user = fields::need(fields::at(m, 3), |v: Item| parse::as_user(v));
            let parameters = fields::need(fields::at(m, 4), |v: Item| parse::as_parameters(v));
            let exclude_list = fields::may(fields::at(m, 5), |v: Item| parse::as_descriptors(v));
            let extensions = fields::may(fields::at(m, 6), |v: Item| parse::as_make_extensions(v));
            let options = fields::may(fields::at(m, 7), |v: Item| parse::as_make_options(v));
            let auth_param = fields::may(fields::at(m, 8), bytes);
            let protocol = fields::may(fields::at(m, 9), |v: Item| fields::as_unsigned(v));
            if let Err(e) = client_data_hash {
                Err(e)
            } else if let Err(e) = rp {
                Err(e)
            } else if let Err(e) = user {
                Err(e)
            } else if let Err(e) = parameters {
                Err(e)
            } else if let Err(e) = exclude_list {
                Err(e)
            } else if let Err(e) = extensions {
                Err(e)
            } else if let Err(e) = options {
                Err(e)
            } else if let Err(e) = auth_param {
                Err(e)
            } else if let Err(e) = protocol {
                Err(e)
            } else {
                Ok(
                    MakeCredentialModel {
                        client_data_hash: client_data_hash->Ok_0,
                        rp: rp->Ok_0,
                        user: user->Ok_0,
                        pub_key_cred_params: parameters->Ok_0,
                        exclude_list: exclude_list->Ok_0,
                        extensions: extensions->Ok_0,
                        options: match options->Ok_0 {
                            Some(o) => o,
                            None => default_make_options(),
                        },
                        pin_uv_auth_param: auth_param->Ok_0,
                        pin_uv_auth_protocol: protocol->Ok_0,
                    },
                )
            }
        },
    }
}

/// A request to use a credential.
pub open spec fn as_get_assertion(value: Item) -> Result<GetAssertionModel, Ctap2StatusCode> {
    match fields::as_entries(value) {
        Err(e) => Err(e),
        Ok(m) => {
            let bytes = |v: Item| fields::as_bytes(v);
            let rp_id = fields::need(fields::at(m, 1), |v: Item| fields::as_text(v));
            let client_data_hash = fields::need(fields::at(m, 2), bytes);
            let allow_list = fields::may(fields::at(m, 3), |v: Item| parse::as_descriptors(v));
            let extensions = fields::may(fields::at(m, 4), |v: Item| parse::as_get_extensions(v));
            let options = fields::may(fields::at(m, 5), |v: Item| parse::as_get_options(v));
            let auth_param = fields::may(fields::at(m, 6), bytes);
            let protocol = fields::may(fields::at(m, 7), |v: Item| fields::as_unsigned(v));
            if let Err(e) = rp_id {
                Err(e)
            } else if let Err(e) = client_data_hash {
                Err(e)
            } else if let Err(e) = allow_list {
                Err(e)
            } else if let Err(e) = extensions {
                Err(e)
            } else if let Err(e) = options {
                Err(e)
            } else if let Err(e) = auth_param {
                Err(e)
            } else if let Err(e) = protocol {
                Err(e)
            } else {
                Ok(
                    GetAssertionModel {
                        rp_id: rp_id->Ok_0,
                        client_data_hash: client_data_hash->Ok_0,
                        allow_list: allow_list->Ok_0,
                        extensions: extensions->Ok_0,
                        options: match options->Ok_0 {
                            Some(o) => o,
                            None => default_get_options(),
                        },
                        pin_uv_auth_param: auth_param->Ok_0,
                        pin_uv_auth_protocol: protocol->Ok_0,
                    },
                )
            }
        },
    }
}

/// A field of eight bits: of a longer number, only the last eight count.
pub open spec fn as_bit_field(value: Item) -> Result<u8, Ctap2StatusCode> {
    match fields::as_unsigned(value) {
        Ok(n) => Ok((n % 256) as u8),
        Err(e) => Err(e),
    }
}

/// A request about the PIN.
pub open spec fn as_client_pin(value: Item) -> Result<ClientPinModel, Ctap2StatusCode> {
    match fields::as_entries(value) {
        Err(e) => Err(e),
        Ok(m) => {
            let bytes = |v: Item| fields::as_bytes(v);
            let unsigned = |v: Item| fields::as_unsigned(v);
            let pin_protocol = fields::need(fields::at(m, 1), unsigned);
            let sub_command = fields::need(fields::at(m, 2), |v: Item| parse::as_sub_command(v));
            let key_agreement = fields::may(fields::at(m, 3), |v: Item| parse::as_cose_key(v));
            let pin_auth = fields::may(fields::at(m, 4), bytes);
            let new_pin_enc = fields::may(fields::at(m, 5), bytes);
            let pin_hash_enc = fields::may(fields::at(m, 6), bytes);
            let min_pin_length = fields::may(fields::at(m, 7), unsigned);
            let rp_ids = fields::may(fields::at(m, 8), |v: Item| parse::as_texts(v));
            let permissions = fields::may(fields::at(m, 9), |v: Item| as_bit_field(v));
            let rp_id = fields::may(fields::at(m, 10), |v: Item| fields::as_text(v));
            if let Err(e) = pin_protocol {
                Err(e)
            } else if let Err(e) = sub_command {
                Err(e)
            } else if let Err(e) = key_agreement {
                Err(e)
            } else if let Err(e) = pin_auth {
                Err(e)
            } else if let Err(e) = new_pin_enc {
                Err(e)
            } else if let Err(e) = pin_hash_enc {
                Err(e)
            } else if let Err(e) = min_pin_length {
                Err(e)
            } else if let Err(e) = rp_ids {
                Err(e)
            } else if let Err(e) = permissions {
                Err(e)
            } else if let Err(e) = rp_id {
                Err(e)
            } else {
                Ok(
                    ClientPinModel {
                        pin_protocol: pin_protocol->Ok_0,
                        sub_command: sub_command->Ok_0,
                        key_agreement: key_agreement->Ok_0,
                        pin_auth: pin_auth->Ok_0,
                        new_pin_enc: new_pin_enc->Ok_0,
                        pin_hash_enc: pin_hash_enc->Ok_0,
                        min_pin_length: min_pin_length->Ok_0,
                        min_pin_length_rp_ids: rp_ids->Ok_0,
                        permissions: permissions->Ok_0,
                        permissions_rp_id: rp_id->Ok_0,
                    },
                )
            }
        },
    }
}

/// The item that bytes encode, if they encode one that can be read.
pub open spec fn encoded_item(data: Seq<u8>) -> Option<Item> {
    if exists|v: Item| #[trigger] reader::readable(v) && model::encode(v) == data {
        Some(choose|v: Item| #[trigger] reader::readable(v) && model::encode(v) == data)
    } else {
        None
    }
}

/// What the bytes of a request say: its first byte tells the command, and the
/// others encode its parameters, if it has any.
pub open spec fn command_of(data: Seq<u8>) -> Result<CommandModel, Ctap2StatusCode> {
    if data.len() == 0 {
        Err(Ctap2StatusCode::CTAP2_ERR_MISSING_PARAMETER)
    } else if data[0] == 0x04 {
        Ok(CommandModel::GetInfo)
    } else if data[0] == 0x07 {
        Ok(CommandModel::Reset)
    } else if data[0] == 0x08 {
        Ok(CommandModel::GetNextAssertion)
    } else if data[0] == 0x0b {
        Ok(CommandModel::Selection)
    } else if data[0] == 0x01 || data[0] == 0x02 || data[0] == 0x06 {
        match encoded_item(data.skip(1)) {
            None => Err(Ctap2StatusCode::CTAP2_ERR_INVALID_CBOR),
            Some(item) => if data[0] == 0x01 {
                match as_make_credential(item) {
                    Ok(params) => Ok(CommandModel::MakeCredential(params)),
                    Err(e) => Err(e),
                }
            } else if data[0] == 0x02 {
                match as_get_assertion(item) {
                    Ok(params) => Ok(CommandModel::GetAssertion(params)),
                    Err(e) => Err(e),
                }
            } else {
                match as_client_pin(item) {
                    Ok(params) => Ok(CommandModel::ClientPin(params)),
                    Err(e) => Err(e),
                }
            },
        }
    } else {
        Err(Ctap2StatusCode::CTAP1_ERR_INVALID_COMMAND)
    }
}

/// A request for a credential.
pub fn make_credential_of(value: &Value) -> (params: Result<
    AuthenticatorMakeCredentialParameters,
    Ctap2StatusCode,
>)
    ensures
        parse::viewed(params) == as_make_credential(value@),
{
    let m = fields::entries_of(value)?;
    let client_data_hash: Vec<u8> = fields::bytes_of(fields::needed(fields::find(m, 1))?)?;
    let rp: PublicKeyCredentialRpEntity = parse::rp_of(fields::needed(fields::find(m, 2))?)?;
    let user: PublicKeyCredentialUserEntity = parse::user_of(fields::needed(fields::find(m, 3))?)?;
    let pub_key_cred_params: Vec<PublicKeyCredentialParameter> = parse::parameters_of(
        fields::needed(fields::find(m, 4))?,
    )?;
    let exclude_list: Option<Vec<PublicKeyCredentialDescriptor>> = match fields::find(m, 5) {
        Some(v) => Some(parse::descriptors_of(v)?),
        None => None,
    };
    let extensions: Option<MakeCredentialExtensions> = match fields::find(m, 6) {
        Some(v) => Some(parse::make_extensions_of(v)?),
        None => None,
    };
    let options: MakeCredentialOptions = match fields::find(m, 7) {
        Some(v) => parse::make_options_of(v)?,
        None => MakeCredentialOptions { rk: false, uv: false },
    };
    let pin_uv_auth_param: Option<Vec<u8>> = fields::optional_bytes(fields::find(m, 8))?;
    let pin_uv_auth_protocol: Option<u64> = fields::optional_unsigned(fields::find(m, 9))?;
    Ok(
        AuthenticatorMakeCredentialParameters {
            client_data_hash,
            rp,
            user,
            pub_key_cred_params,
            exclude_list,
            extensions,
            options,
            pin_uv_auth_param,
            pin_uv_auth_protocol,
        },
    )
}

/// A request to use a credential.
pub fn get_assertion_of(value: &Value) -> (params: Result<
    AuthenticatorGetAssertionParameters,
    Ctap2StatusCode,
>)
    ensures
        parse::viewed(params) == as_get_assertion(value@),
{
    let m = fields::entries_of(value)?;
    let rp_id: String = fields::text_of(fields::needed(fields::find(m, 1))?)?;
    let client_data_hash: Vec<u8> = fields::bytes_of(fields::needed(fields::find(m, 2))?)?;
    let allow_list: Option<Vec<PublicKeyCredentialDescriptor>> = match fields::find(m, 3) {
        Some(v) => Some(parse::descriptors_of(v)?),
        None => None,
    };
    let extensions: Option<GetAssertionExtensions> = match fields::find(m, 4) {
        Some(v) => Some(parse::get_extensions_of(v)?),
        None => None,
    };
    let options: GetAssertionOptions = match fields::find(m, 5) {
        Some(v) => parse::get_options_of(v)?,
        None => GetAssertionOptions { up: true, uv: false },
    };
    let pin_uv_auth_param: Option<Vec<u8>> = fields::optional_bytes(fields::find(m, 6))?;
    let pin_uv_auth_protocol: Option<u64> = fields::optional_unsigned(fields::find(m, 7))?;
    Ok(
        AuthenticatorGetAssertionParameters {
            rp_id,
            client_data_hash,
            allow_list,
            extensions,
            options,
            pin_uv_auth_param,
            pin_uv_auth_protocol,
        },
    )
}

/// A request about the PIN.
pub fn client_pin_of(value: &Value) -> (params: Result<
    AuthenticatorClientPinParameters,
    Ctap2StatusCode,
>)
    ensures
        parse::viewed(params) == as_client_pin(value@),
{
    let m = fields::entries_of(value)?;
    let pin_protocol: u64 = fields::unsigned_of(fields::needed(fields::find(m, 1))?)?;
    let sub_command: ClientPinSubCommand = parse::sub_command_of(
        fields::needed(fields::find(m, 2))?,
    )?;
    let key_agreement: Option<CoseKey> = match fields::find(m, 3) {
        Some(v) => Some(parse::cose_key_of(v)?),
        None => None,
    };
    let pin_auth: Option<Vec<u8>> = fields::optional_bytes(fields::find(m, 4))?;
    let new_pin_enc: Option<Vec<u8>> = fields::optional_bytes(fields::find(m, 5))?;
    let pin_hash_enc: Option<Vec<u8>> = fields::optional_bytes(fields::find(m, 6))?;
    let min_pin_length: Option<u64> = fields::optional_unsigned(fields::find(m, 7))?;
    let min_pin_length_rp_ids: Option<Vec<String>> = match fields::find(m, 8) {
        Some(v) => Some(parse::texts_of(v)?),
        None => None,
    };
    let permissions: Option<u8> = match fields::optional_unsigned(fields::find(m, 9))? {
        Some(n) => Some((n % 256) as u8),
        None => None,
    };
    let permissions_rp_id: Option<String> = fields::optional_text(fields::find(m, 10))?;
    Ok(
        AuthenticatorClientPinParameters {
            pin_protocol,
            sub_command,
            key_agreement,
            pin_auth,
            new_pin_enc,
            pin_hash_enc,
            min_pin_length,
            min_pin_length_rp_ids,
            permissions,
            permissions_rp_id,
        },
    )
}

impl Command {
    /// Reads a request.
    pub fn deserialize(data: &[u8]) -> (command: Result<Command, Ctap2StatusCode>)
        ensures
            parse::viewed(command) == command_of(data@),
    {
        if data.len() == 0 {
            return Err(Ctap2StatusCode::CTAP2_ERR_MISSING_PARAMETER);
        }
        let number: u8 = data[0];
        if number == 0x04 {
            return Ok(Command::AuthenticatorGetInfo);
        }
        if number == 0x07 {
            return Ok(Command::AuthenticatorReset);
        }
        if number == 0x08 {
            return Ok(Command::AuthenticatorGetNextAssertion);
        }
        if number == 0x0b {
            return Ok(Command::AuthenticatorSelection);
        }
        if number != 0x01 && number != 0x02 && number != 0x06 {
            return Err(Ctap2StatusCode::CTAP1_ERR_INVALID_COMMAND);
        }
        let parameters: &[u8] = slice_subrange(data, 1, data.len());
        assert(parameters@ =~= data@.skip(1));
        match reader::read(parameters) {
            None => Err(Ctap2StatusCode::CTAP2_ERR_INVALID_CBOR),
            Some(value) => {
                proof {
                    let found = choose|v: Item| #[trigger]
                        reader::readable(v) && model::encode(v) == parameters@;
                    reader::law_encoding_is_injective(value@, found);
                }
                if number == 0x01 {
                    match make_credential_of(&value) {
                        Ok(params) => Ok(Command::AuthenticatorMakeCredential(params)),
                        Err(e) => Err(e),
                    }
                } else if number == 0x02 {
                    match get_assertion_of(&value) {
                        Ok(params) => Ok(Command::AuthenticatorGetAssertion(params)),
                        Err(e) => Err(e),
                    }
                } else {
                    match client_pin_of(&value) {
                        Ok(params) => Ok(Command::AuthenticatorClientPin(params)),
                        Err(e) => Err(e),
                    }
                }
            },
        }
    }
}

/// What was written is what is read.
pub proof fn law_written_is_read(value: Item)
    requires
        reader::readable(value),
    ensures
        encoded_item(model::encode(value)) == Some(value),
{
    let data = model::encode(value);
    let found = choose|v: Item| #[trigger] reader::readable(v) && model::encode(v) == data;
    reader::law_encoding_is_injective(value, found);
}

} // verus!
