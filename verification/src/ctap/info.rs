//! What the authenticator says of itself.

use crate::crypto::rng256::Rng256;
use crate::ctap::command::MAX_CREDENTIAL_COUNT_IN_LIST;
use crate::ctap::data_formats::AuthenticatorTransport;
use crate::ctap::hid::ChannelID;
use crate::ctap::key_material::AAGUID;
use crate::ctap::response::{AuthenticatorGetInfoResponse, ResponseData};
use crate::ctap::state;
use crate::ctap::state::{
    CtapState, DEFAULT_CRED_PROTECT, FIDO2_VERSION_STRING, PIN_PROTOCOL_VERSION,
    U2F_VERSION_STRING,
};
use crate::ctap::status_code::Ctap2StatusCode;
use vstd::prelude::*;

verus! {

/// The largest message that is taken, in bytes.
pub const MAX_MSG_SIZE: u64 = 1024;

/// Whether texts are the given ones.
pub open spec fn are_texts(list: Seq<String>, texts: Seq<Seq<char>>) -> bool {
    list.len() == texts.len() && forall|i: int|
        0 <= i < list.len() ==> (#[trigger] list[i])@ == texts[i]
}

/// Whether an option is the given one.
pub open spec fn is_option(option: (String, bool), name: Seq<char>, on: bool) -> bool {
    option.0@ == name && option.1 == on
}

/// What the authenticator says of itself. All of it is fixed, but for whether
/// a PIN is set.
pub open spec fn is_info(r: AuthenticatorGetInfoResponse, pin_set: bool) -> bool {
    &&& are_texts(r.versions@, seq![U2F_VERSION_STRING@, FIDO2_VERSION_STRING@])
    &&& r.extensions matches Some(list) && are_texts(list@, seq!["hmac-secret"@])
    &&& r.aaguid@ == AAGUID@
    &&& r.options matches Some(list) && list@.len() == 3 && is_option(list@[0], "rk"@, true)
        && is_option(list@[1], "up"@, true) && is_option(list@[2], "clientPin"@, pin_set)
    &&& r.max_msg_size == Some(MAX_MSG_SIZE)
    &&& r.pin_protocols matches Some(list) && list@ == seq![PIN_PROTOCOL_VERSION]
    &&& r.max_credential_count_in_list == MAX_CREDENTIAL_COUNT_IN_LIST
    &&& r.max_credential_id_length is None
    &&& r.transports matches Some(list) && list@ == seq![AuthenticatorTransport::Usb]
    &&& r.algorithms matches Some(list) && list@.len() == 1 && state::is_es256(list@[0])
    &&& r.default_cred_protect == DEFAULT_CRED_PROTECT
    &&& r.firmware_version is None
}

/// Whether a result is what the authenticator says of itself.
pub open spec fn did_get_info(
    pin_set: bool,
    result: Result<ResponseData, Ctap2StatusCode>,
) -> bool {
    result matches Ok(ResponseData::AuthenticatorGetInfo(r)) && is_info(r, pin_set)
}

impl<'a, R, CheckUserPresence> CtapState<'a, R, CheckUserPresence> where
    R: Rng256,
    CheckUserPresence: Fn(ChannelID) -> Result<(), Ctap2StatusCode>,
 {
    /// What the authenticator says of itself.
    pub fn process_get_info(&self) -> (result: Result<ResponseData, Ctap2StatusCode>)
        ensures
            did_get_info(self@.store.pin_hash is Some, result),
    {
        let options: Vec<(String, bool)> = vec![
            ("rk".to_owned(), true),
            ("up".to_owned(), true),
            ("clientPin".to_owned(), self.persistent_store.pin_hash().is_some()),
        ];
        let versions: Vec<String> = vec![
            U2F_VERSION_STRING.to_owned(),
            FIDO2_VERSION_STRING.to_owned(),
        ];
        let extensions: Vec<String> = vec!["hmac-secret".to_owned()];
        let pin_protocols: Vec<u64> = vec![PIN_PROTOCOL_VERSION];
        let transports: Vec<AuthenticatorTransport> = vec![AuthenticatorTransport::Usb];
        assert(pin_protocols@ =~= seq![PIN_PROTOCOL_VERSION]);
        assert(transports@ =~= seq![AuthenticatorTransport::Usb]);
        let response = AuthenticatorGetInfoResponse {
            versions,
            extensions: Some(extensions),
            aaguid: AAGUID,
            options: Some(options),
            max_msg_size: Some(MAX_MSG_SIZE),
            pin_protocols: Some(pin_protocols),
            max_credential_count_in_list: MAX_CREDENTIAL_COUNT_IN_LIST,
            // The size of an ID that holds its credential could stand here, but
            // browsers that pass it on would make the device recognizable.
            max_credential_id_length: None,
            transports: Some(transports),
            algorithms: Some(vec![state::es256_cred_param()]),
            default_cred_protect: DEFAULT_CRED_PROTECT,
            firmware_version: None,
        };
        Ok(ResponseData::AuthenticatorGetInfo(response))
    }
}

} // verus!
