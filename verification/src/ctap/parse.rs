//! Reading the data that requests are made of.

use crate::cbor::model;
use crate::cbor::model::{Item, Value};
use crate::ctap::data_formats;
use crate::ctap::data_formats::{
    AuthenticatorTransport, ClientPinSubCommand, CoseKey, CredentialProtectionPolicy,
    GetAssertionExtensions, GetAssertionHmacSecretInput, GetAssertionOptions,
    MakeCredentialExtensions, MakeCredentialOptions, PublicKeyCredentialDescriptor,
    PublicKeyCredentialParameter, PublicKeyCredentialRpEntity, PublicKeyCredentialType,
    PublicKeyCredentialUserEntity, SignatureAlgorithm,
};
use crate::ctap::fields;
use crate::ctap::status_code::Ctap2StatusCode;
use crate::text;
use vstd::prelude::*;

verus! {

/// What is said of a relying party.
pub struct RpModel {
    pub rp_id: Seq<char>,
    pub rp_name: Option<Seq<char>>,
    pub rp_icon: Option<Seq<char>>,
}

/// What is said of a user.
pub struct UserModel {
    pub user_id: Seq<u8>,
    pub user_name: Option<Seq<char>>,
    pub user_display_name: Option<Seq<char>>,
    pub user_icon: Option<Seq<char>>,
}

/// A credential that a relying party names.
pub struct DescriptorModel {
    pub key_type: PublicKeyCredentialType,
    pub key_id: Seq<u8>,
    pub transports: Option<Seq<AuthenticatorTransport>>,
}

/// What the hmac-secret extension is asked to compute on.
pub struct HmacInputModel {
    pub key_agreement: (Seq<u8>, Seq<u8>),
    pub salt_enc: Seq<u8>,
    pub salt_auth: Seq<u8>,
}

impl View for PublicKeyCredentialRpEntity {
    type V = RpModel;

    open spec fn view(&self) -> RpModel {
        RpModel {
            rp_id: self.rp_id@,
            rp_name: data_formats::text_model(self.rp_name),
            rp_icon: data_formats::text_model(self.rp_icon),
        }
    }
}

impl View for PublicKeyCredentialUserEntity {
    type V = UserModel;

    open spec fn view(&self) -> UserModel {
        UserModel {
            user_id: self.user_id@,
            user_name: data_formats::text_model(self.user_name),
            user_display_name: data_formats::text_model(self.user_display_name),
            user_icon: data_formats::text_model(self.user_icon),
        }
    }
}

impl View for PublicKeyCredentialDescriptor {
    type V = DescriptorModel;

    open spec fn view(&self) -> DescriptorModel {
        DescriptorModel {
            key_type: self.key_type,
            key_id: self.key_id@,
            transports: match self.transports {
                Some(list) => Some(list@),
                None => None,
            },
        }
    }
}

impl View for CoseKey {
    type V = (Seq<u8>, Seq<u8>);

    open spec fn view(&self) -> (Seq<u8>, Seq<u8>) {
        (self.x@, self.y@)
    }
}

impl View for GetAssertionHmacSecretInput {
    type V = HmacInputModel;

    open spec fn view(&self) -> HmacInputModel {
        HmacInputModel {
            key_agreement: self.key_agreement@,
            salt_enc: self.salt_enc@,
            salt_auth: self.salt_auth@,
        }
    }
}

/// What is read, seen through its view.
pub open spec fn viewed<T: View>(result: Result<T, Ctap2StatusCode>) -> Result<
    T::V,
    Ctap2StatusCode,
> {
    match result {
        Ok(t) => Ok(t@),
        Err(e) => Err(e),
    }
}

/// The views of a list.
pub open spec fn views<T: View>(list: Seq<T>) -> Seq<T::V> {
    list.map_values(|t: T| t@)
}

/// A relying party.
pub open spec fn as_rp(value: Item) -> Result<RpModel, Ctap2StatusCode> {
    match fields::as_entries(value) {
        Err(e) => Err(e),
        Ok(m) => {
            let text = |v: Item| fields::as_text(v);
            let rp_id = fields::need(fields::named(m, "id"@), text);
            let rp_name = fields::may(fields::named(m, "name"@), text);
            let rp_icon = fields::may(fields::named(m, "icon"@), text);
            if let Err(e) = rp_id {
                Err(e)
            } else if let Err(e) = rp_name {
                Err(e)
            } else if let Err(e) = rp_icon {
                Err(e)
            } else {
                Ok(
                    RpModel {
                        rp_id: rp_id->Ok_0,
                        rp_name: rp_name->Ok_0,
                        rp_icon: rp_icon->Ok_0,
                    },
                )
            }
        },
    }
}

/// A user.
pub open spec fn as_user(value: Item) -> Result<UserModel, Ctap2StatusCode> {
    match fields::as_entries(value) {
        Err(e) => Err(e),
        Ok(m) => {
            let text = |v: Item| fields::as_text(v);
            let user_id = fields::need(fields::named(m, "id"@), |v: Item| fields::as_bytes(v));
            let user_name = fields::may(fields::named(m, "name"@), text);
            let user_display_name = fields::may(fields::named(m, "displayName"@), text);
            let user_icon = fields::may(fields::named(m, "icon"@), text);
            if let Err(e) = user_id {
                Err(e)
            } else if let Err(e) = user_name {
                Err(e)
            } else if let Err(e) = user_display_name {
                Err(e)
            } else if let Err(e) = user_icon {
                Err(e)
            } else {
                Ok(
                    UserModel {
                        user_id: user_id->Ok_0,
                        user_name: user_name->Ok_0,
                        user_display_name: user_display_name->Ok_0,
                        user_icon: user_icon->Ok_0,
                    },
                )
            }
        },
    }
}

/// A kind of credential, by its name. Names that are not known are taken.
pub open spec fn as_cred_type(value: Item) -> Result<PublicKeyCredentialType, Ctap2StatusCode> {
    match fields::as_text(value) {
        Err(e) => Err(e),
        Ok(name) => Ok(
            if name == "public-key"@ {
                PublicKeyCredentialType::PublicKey
            } else {
                PublicKeyCredentialType::Unknown
            },
        ),
    }
}

/// An algorithm, by its number. Numbers that are not known are taken.
pub open spec fn as_algorithm(value: Item) -> Result<SignatureAlgorithm, Ctap2StatusCode> {
    match fields::as_integer(value) {
        Err(e) => Err(e),
        Ok(n) => Ok(
            if n == -7 {
                SignatureAlgorithm::ES256
            } else {
                SignatureAlgorithm::Unknown
            },
        ),
    }
}

/// A kind of credential, and its algorithm.
pub open spec fn as_parameter(value: Item) -> Result<
    PublicKeyCredentialParameter,
    Ctap2StatusCode,
> {
    match fields::as_entries(value) {
        Err(e) => Err(e),
        Ok(m) => {
            let cred_type = fields::need(fields::named(m, "type"@), |v: Item| as_cred_type(v));
            let alg = fields::need(fields::named(m, "alg"@), |v: Item| as_algorithm(v));
            if let Err(e) = cred_type {
                Err(e)
            } else if let Err(e) = alg {
                Err(e)
            } else {
                Ok(PublicKeyCredentialParameter { cred_type: cred_type->Ok_0, alg: alg->Ok_0 })
            }
        },
    }
}

/// A list of kinds of credentials and algorithms.
pub open spec fn as_parameters(value: Item) -> Result<
    Seq<PublicKeyCredentialParameter>,
    Ctap2StatusCode,
> {
    match fields::as_items(value) {
        Err(e) => Err(e),
        Ok(list) => fields::all(list, |v: Item| as_parameter(v)),
    }
}

/// A transport, by its name.
pub open spec fn as_transport(value: Item) -> Result<AuthenticatorTransport, Ctap2StatusCode> {
    match fields::as_text(value) {
        Err(e) => Err(e),
        Ok(name) => if name == "usb"@ {
            Ok(AuthenticatorTransport::Usb)
        } else if name == "nfc"@ {
            Ok(AuthenticatorTransport::Nfc)
        } else if name == "ble"@ {
            Ok(AuthenticatorTransport::Ble)
        } else if name == "internal"@ {
            Ok(AuthenticatorTransport::Internal)
        } else {
            fields::unexpected()
        },
    }
}

/// A list of transports.
pub open spec fn as_transports(value: Item) -> Result<
    Seq<AuthenticatorTransport>,
    Ctap2StatusCode,
> {
    match fields::as_items(value) {
        Err(e) => Err(e),
        Ok(list) => fields::all(list, |v: Item| as_transport(v)),
    }
}

/// A credential that a relying party names.
pub open spec fn as_descriptor(value: Item) -> Result<DescriptorModel, Ctap2StatusCode> {
    match fields::as_entries(value) {
        Err(e) => Err(e),
        Ok(m) => {
            let key_type = fields::need(fields::named(m, "type"@), |v: Item| as_cred_type(v));
            let key_id = fields::need(fields::named(m, "id"@), |v: Item| fields::as_bytes(v));
            let transports = fields::may(
                fields::named(m, "transports"@),
                |v: Item| as_transports(v),
            );
            if let Err(e) = key_type {
                Err(e)
            } else if let Err(e) = key_id {
                Err(e)
            } else if let Err(e) = transports {
                Err(e)
            } else {
                Ok(
                    DescriptorModel {
                        key_type: key_type->Ok_0,
                        key_id: key_id->Ok_0,
                        transports: transports->Ok_0,
                    },
                )
            }
        },
    }
}

/// A list of credentials that a relying party names.
pub open spec fn as_descriptors(value: Item) -> Result<Seq<DescriptorModel>, Ctap2StatusCode> {
    match fields::as_items(value) {
        Err(e) => Err(e),
        Ok(list) => fields::all(list, |v: Item| as_descriptor(v)),
    }
}

/// A policy, by its number.
pub open spec fn as_policy(value: Item) -> Result<CredentialProtectionPolicy, Ctap2StatusCode> {
    match fields::as_unsigned(value) {
        Err(e) => Err(e),
        Ok(n) => if n == 1 {
            Ok(CredentialProtectionPolicy::UserVerificationOptional)
        } else if n == 2 {
            Ok(CredentialProtectionPolicy::UserVerificationOptionalWithCredentialIdList)
        } else if n == 3 {
            Ok(CredentialProtectionPolicy::UserVerificationRequired)
        } else {
            fields::unexpected()
        },
    }
}

/// The extensions that a credential may be made with.
pub open spec fn as_make_extensions(value: Item) -> Result<
    MakeCredentialExtensions,
    Ctap2StatusCode,
> {
    match fields::as_entries(value) {
        Err(e) => Err(e),
        Ok(m) => {
            let hmac_secret = fields::as_flag(fields::named(m, "hmac-secret"@), false);
            let cred_protect = fields::may(
                fields::named(m, "credProtect"@),
                |v: Item| as_policy(v),
            );
            if let Err(e) = hmac_secret {
                Err(e)
            } else if let Err(e) = cred_protect {
                Err(e)
            } else {
                Ok(
                    MakeCredentialExtensions {
                        hmac_secret: hmac_secret->Ok_0,
                        cred_protect: cred_protect->Ok_0,
                    },
                )
            }
        },
    }
}

/// A COSE key for key agreement on P-256.
pub open spec fn as_cose_key(value: Item) -> Result<(Seq<u8>, Seq<u8>), Ctap2StatusCode> {
    match fields::as_entries(value) {
        Err(e) => Err(e),
        Ok(m) => {
            let integer = |v: Item| fields::as_integer(v);
            let coordinate = |v: Item| fields::as_coordinate(v);
            let key_type = fields::need(fields::at(m, 1), integer);
            let algorithm = fields::need(fields::at(m, 3), integer);
            let curve = fields::need(fields::at_negative(m, 0), integer);
            let x = fields::need(fields::at_negative(m, 1), coordinate);
            let y = fields::need(fields::at_negative(m, 2), coordinate);
            if let Err(e) = key_type {
                Err(e)
            } else if key_type->Ok_0 != 2 {
                Err(Ctap2StatusCode::CTAP2_ERR_UNSUPPORTED_ALGORITHM)
            } else if let Err(e) = algorithm {
                Err(e)
            } else if algorithm->Ok_0 != -25 && algorithm->Ok_0 != -7 {
                Err(Ctap2StatusCode::CTAP2_ERR_UNSUPPORTED_ALGORITHM)
            } else if let Err(e) = curve {
                Err(e)
            } else if curve->Ok_0 != 1 {
                Err(Ctap2StatusCode::CTAP2_ERR_UNSUPPORTED_ALGORITHM)
            } else if let Err(e) = x {
                Err(e)
            } else if let Err(e) = y {
                Err(e)
            } else {
                Ok((x->Ok_0, y->Ok_0))
            }
        },
    }
}

/// What the hmac-secret extension is asked to compute on.
pub open spec fn as_hmac_input(value: Item) -> Result<HmacInputModel, Ctap2StatusCode> {
    match fields::as_entries(value) {
        Err(e) => Err(e),
        Ok(m) => {
            let bytes = |v: Item| fields::as_bytes(v);
            let key_agreement = fields::need(fields::at(m, 1), |v: Item| as_cose_key(v));
            let salt_enc = fields::need(fields::at(m, 2), bytes);
            let salt_auth = fields::need(fields::at(m, 3), bytes);
            if let Err(e) = key_agreement {
                Err(e)
            } else if let Err(e) = salt_enc {
                Err(e)
            } else if let Err(e) = salt_auth {
                Err(e)
            } else {
                Ok(
                    HmacInputModel {
                        key_agreement: key_agreement->Ok_0,
                        salt_enc: salt_enc->Ok_0,
                        salt_auth: salt_auth->Ok_0,
                    },
                )
            }
        },
    }
}

/// The one extension that a credential may be used with.
pub open spec fn as_get_extensions(value: Item) -> Result<
    Option<HmacInputModel>,
    Ctap2StatusCode,
> {
    match fields::as_entries(value) {
        Err(e) => Err(e),
        Ok(m) => fields::may(fields::named(m, "hmac-secret"@), |v: Item| as_hmac_input(v)),
    }
}

/// Options for making a credential. The user has to be present.
pub open spec fn as_make_options(value: Item) -> Result<MakeCredentialOptions, Ctap2StatusCode> {
    match fields::as_entries(value) {
        Err(e) => Err(e),
        Ok(m) => {
            let rk = fields::as_flag(fields::named(m, "rk"@), false);
            let up = fields::as_flag(fields::named(m, "up"@), true);
            let uv = fields::as_flag(fields::named(m, "uv"@), false);
            if let Err(e) = rk {
                Err(e)
            } else if let Err(e) = up {
                Err(e)
            } else if !up->Ok_0 {
                Err(Ctap2StatusCode::CTAP2_ERR_INVALID_OPTION)
            } else if let Err(e) = uv {
                Err(e)
            } else {
                Ok(MakeCredentialOptions { rk: rk->Ok_0, uv: uv->Ok_0 })
            }
        },
    }
}

/// Options for using a credential. Whether it is stored cannot be asked for.
pub open spec fn as_get_options(value: Item) -> Result<GetAssertionOptions, Ctap2StatusCode> {
    match fields::as_entries(value) {
        Err(e) => Err(e),
        Ok(m) => {
            let rk = fields::may(fields::named(m, "rk"@), |v: Item| fields::as_bool(v));
            let up = fields::as_flag(fields::named(m, "up"@), true);
            let uv = fields::as_flag(fields::named(m, "uv"@), false);
            if let Err(e) = rk {
                Err(e)
            } else if rk->Ok_0 is Some {
                Err(Ctap2StatusCode::CTAP2_ERR_INVALID_OPTION)
            } else if let Err(e) = up {
                Err(e)
            } else if let Err(e) = uv {
                Err(e)
            } else {
                Ok(GetAssertionOptions { up: up->Ok_0, uv: uv->Ok_0 })
            }
        },
    }
}

/// What a request about the PIN asks for, by its number.
pub open spec fn as_sub_command(value: Item) -> Result<ClientPinSubCommand, Ctap2StatusCode> {
    match fields::as_unsigned(value) {
        Err(e) => Err(e),
        Ok(n) => if n == 1 {
            Ok(ClientPinSubCommand::GetPinRetries)
        } else if n == 2 {
            Ok(ClientPinSubCommand::GetKeyAgreement)
        } else if n == 3 {
            Ok(ClientPinSubCommand::SetPin)
        } else if n == 4 {
            Ok(ClientPinSubCommand::ChangePin)
        } else if n == 5 {
            Ok(ClientPinSubCommand::GetPinToken)
        } else if n == 6 {
            Ok(ClientPinSubCommand::GetPinUvAuthTokenUsingUvWithPermissions)
        } else if n == 7 {
            Ok(ClientPinSubCommand::GetUvRetries)
        } else if n == 8 {
            Ok(ClientPinSubCommand::SetMinPinLength)
        } else if n == 9 {
            Ok(ClientPinSubCommand::GetPinUvAuthTokenUsingPinWithPermissions)
        } else {
            Err(Ctap2StatusCode::CTAP1_ERR_INVALID_PARAMETER)
        },
    }
}

/// A list of texts.
pub open spec fn as_texts(value: Item) -> Result<Seq<Seq<char>>, Ctap2StatusCode> {
    match fields::as_items(value) {
        Err(e) => Err(e),
        Ok(list) => fields::all(list, |v: Item| fields::as_text(v)),
    }
}

/// A relying party.
pub fn rp_of(value: &Value) -> (rp: Result<PublicKeyCredentialRpEntity, Ctap2StatusCode>)
    ensures
        viewed(rp) == as_rp(value@),
{
    let m = fields::entries_of(value)?;
    let rp_id: String = fields::text_of(fields::needed(fields::find_named(m, "id"))?)?;
    let rp_name: Option<String> = fields::optional_text(fields::find_named(m, "name"))?;
    let rp_icon: Option<String> = fields::optional_text(fields::find_named(m, "icon"))?;
    Ok(PublicKeyCredentialRpEntity { rp_id, rp_name, rp_icon })
}

/// A user.
pub fn user_of(value: &Value) -> (user: Result<PublicKeyCredentialUserEntity, Ctap2StatusCode>)
    ensures
        viewed(user) == as_user(value@),
{
    let m = fields::entries_of(value)?;
    let user_id: Vec<u8> = fields::bytes_of(fields::needed(fields::find_named(m, "id"))?)?;
    let user_name: Option<String> = fields::optional_text(fields::find_named(m, "name"))?;
    let user_display_name: Option<String> = fields::optional_text(
        fields::find_named(m, "displayName"),
    )?;
    let user_icon: Option<String> = fields::optional_text(fields::find_named(m, "icon"))?;
    Ok(PublicKeyCredentialUserEntity { user_id, user_name, user_display_name, user_icon })
}

/// A kind of credential, by its name.
pub fn cred_type_of(value: &Value) -> (cred_type: Result<PublicKeyCredentialType, Ctap2StatusCode>)
    ensures
        cred_type == as_cred_type(value@),
{
    match value {
        Value::TextString(name) => Ok(
            if text::equal(name.as_str(), "public-key") {
                PublicKeyCredentialType::PublicKey
            } else {
                PublicKeyCredentialType::Unknown
            },
        ),
        _ => Err(Ctap2StatusCode::CTAP2_ERR_CBOR_UNEXPECTED_TYPE),
    }
}

/// An algorithm, by its number.
pub fn algorithm_of(value: &Value) -> (alg: Result<SignatureAlgorithm, Ctap2StatusCode>)
    ensures
        alg == as_algorithm(value@),
{
    if fields::is_integer(value, -7)? {
        Ok(SignatureAlgorithm::ES256)
    } else {
        Ok(SignatureAlgorithm::Unknown)
    }
}

/// A kind of credential, and its algorithm.
pub fn parameter_of(value: &Value) -> (parameter: Result<
    PublicKeyCredentialParameter,
    Ctap2StatusCode,
>)
    ensures
        parameter == as_parameter(value@),
{
    let m = fields::entries_of(value)?;
    let cred_type: PublicKeyCredentialType = cred_type_of(
        fields::needed(fields::find_named(m, "type"))?,
    )?;
    let alg: SignatureAlgorithm = algorithm_of(fields::needed(fields::find_named(m, "alg"))?)?;
    Ok(PublicKeyCredentialParameter { cred_type, alg })
}

/// A list of kinds of credentials and algorithms.
pub fn parameters_of(value: &Value) -> (parameters: Result<
    Vec<PublicKeyCredentialParameter>,
    Ctap2StatusCode,
>)
    ensures
        viewed(parameters) == as_parameters(value@),
{
    let list: &Vec<Value> = fields::items_of(value)?;
    let ghost items = model::items(list@);
    let ghost read = |v: Item| as_parameter(v);
    let mut parameters: Vec<PublicKeyCredentialParameter> = Vec::new();
    let mut i: usize = 0;
    proof {
        model::lemma_items_index(list@);
        assert(items.take(0) =~= Seq::empty());
        assert(parameters@ =~= Seq::empty());
    }
    while i < list.len()
        invariant
            i <= list@.len(),
            items.len() == list@.len(),
            forall|j: int| 0 <= j < items.len() ==> #[trigger] items[j] == list@[j]@,
            read == |v: Item| as_parameter(v),
            fields::as_items(value@) == Ok::<Seq<Item>, Ctap2StatusCode>(items),
            fields::all(items.take(i as int), read) == Ok::<_, Ctap2StatusCode>(parameters@),
        decreases list@.len() - i,
    {
        proof {
            fields::lemma_all_step(items, read, i as int);
        }
        let parameter: PublicKeyCredentialParameter = parameter_of(&list[i])?;
        parameters.push(parameter);
        i += 1;
    }
    assert(items.take(i as int) =~= items);
    Ok(parameters)
}

/// A transport, by its name.
pub fn transport_of(value: &Value) -> (transport: Result<AuthenticatorTransport, Ctap2StatusCode>)
    ensures
        transport == as_transport(value@),
{
    match value {
        Value::TextString(name) => if text::equal(name.as_str(), "usb") {
            Ok(AuthenticatorTransport::Usb)
        } else if text::equal(name.as_str(), "nfc") {
            Ok(AuthenticatorTransport::Nfc)
        } else if text::equal(name.as_str(), "ble") {
            Ok(AuthenticatorTransport::Ble)
        } else if text::equal(name.as_str(), "internal") {
            Ok(AuthenticatorTransport::Internal)
        } else {
            Err(Ctap2StatusCode::CTAP2_ERR_CBOR_UNEXPECTED_TYPE)
        },
        _ => Err(Ctap2StatusCode::CTAP2_ERR_CBOR_UNEXPECTED_TYPE),
    }
}

/// A list of transports.
pub fn transports_of(value: &Value) -> (transports: Result<
    Vec<AuthenticatorTransport>,
    Ctap2StatusCode,
>)
    ensures
        viewed(transports) == as_transports(value@),
{
    let list: &Vec<Value> = fields::items_of(value)?;
    let ghost items = model::items(list@);
    let ghost read = |v: Item| as_transport(v);
    let mut transports: Vec<AuthenticatorTransport> = Vec::new();
    let mut i: usize = 0;
    proof {
        model::lemma_items_index(list@);
        assert(items.take(0) =~= Seq::empty());
        assert(transports@ =~= Seq::empty());
    }
    while i < list.len()
        invariant
            i <= list@.len(),
            items.len() == list@.len(),
            forall|j: int| 0 <= j < items.len() ==> #[trigger] items[j] == list@[j]@,
            read == |v: Item| as_transport(v),
            fields::as_items(value@) == Ok::<Seq<Item>, Ctap2StatusCode>(items),
            fields::all(items.take(i as int), read) == Ok::<_, Ctap2StatusCode>(transports@),
        decreases list@.len() - i,
    {
        proof {
            fields::lemma_all_step(items, read, i as int);
        }
        let transport: AuthenticatorTransport = transport_of(&list[i])?;
        transports.push(transport);
        i += 1;
    }
    assert(items.take(i as int) =~= items);
    Ok(transports)
}

/// A credential that a relying party names.
pub fn descriptor_of(value: &Value) -> (descriptor: Result<
    PublicKeyCredentialDescriptor,
    Ctap2StatusCode,
>)
    ensures
        viewed(descriptor) == as_descriptor(value@),
{
    let m = fields::entries_of(value)?;
    let key_type: PublicKeyCredentialType = cred_type_of(
        fields::needed(fields::find_named(m, "type"))?,
    )?;
    let key_id: Vec<u8> = fields::bytes_of(fields::needed(fields::find_named(m, "id"))?)?;
    let transports: Option<Vec<AuthenticatorTransport>> = match fields::find_named(m, "transports") {
        Some(v) => Some(transports_of(v)?),
        None => None,
    };
    Ok(PublicKeyCredentialDescriptor { key_type, key_id, transports })
}

/// A list of credentials that a relying party names.
pub fn descriptors_of(value: &Value) -> (descriptors: Result<
    Vec<PublicKeyCredentialDescriptor>,
    Ctap2StatusCode,
>)
    ensures
        match descriptors {
            Ok(list) => as_descriptors(value@) == Ok::<_, Ctap2StatusCode>(views(list@)),
            Err(e) => as_descriptors(value@) == Err::<Seq<DescriptorModel>, _>(e),
        },
{
    let list: &Vec<Value> = fields::items_of(value)?;
    let ghost items = model::items(list@);
    let ghost read = |v: Item| as_descriptor(v);
    let mut descriptors: Vec<PublicKeyCredentialDescriptor> = Vec::new();
    let mut i: usize = 0;
    proof {
        model::lemma_items_index(list@);
        assert(items.take(0) =~= Seq::empty());
        assert(views(descriptors@) =~= Seq::empty());
    }
    while i < list.len()
        invariant
            i <= list@.len(),
            items.len() == list@.len(),
            forall|j: int| 0 <= j < items.len() ==> #[trigger] items[j] == list@[j]@,
            read == |v: Item| as_descriptor(v),
            fields::as_items(value@) == Ok::<Seq<Item>, Ctap2StatusCode>(items),
            fields::all(items.take(i as int), read) == Ok::<_, Ctap2StatusCode>(
                views(descriptors@),
            ),
        decreases list@.len() - i,
    {
        proof {
            fields::lemma_all_step(items, read, i as int);
        }
        let descriptor: PublicKeyCredentialDescriptor = descriptor_of(&list[i])?;
        let ghost before = descriptors@;
        descriptors.push(descriptor);
        assert(views(descriptors@) =~= views(before).push(descriptor@));
        i += 1;
    }
    assert(items.take(i as int) =~= items);
    Ok(descriptors)
}

/// A policy, by its number.
pub fn policy_of(value: &Value) -> (policy: Result<CredentialProtectionPolicy, Ctap2StatusCode>)
    ensures
        policy == as_policy(value@),
{
    let n: u64 = fields::unsigned_of(value)?;
    if n == 1 {
        Ok(CredentialProtectionPolicy::UserVerificationOptional)
    } else if n == 2 {
        Ok(CredentialProtectionPolicy::UserVerificationOptionalWithCredentialIdList)
    } else if n == 3 {
        Ok(CredentialProtectionPolicy::UserVerificationRequired)
    } else {
        Err(Ctap2StatusCode::CTAP2_ERR_CBOR_UNEXPECTED_TYPE)
    }
}

/// The extensions that a credential may be made with.
pub fn make_extensions_of(value: &Value) -> (extensions: Result<
    MakeCredentialExtensions,
    Ctap2StatusCode,
>)
    ensures
        extensions == as_make_extensions(value@),
{
    let m = fields::entries_of(value)?;
    let hmac_secret: bool = fields::flag_of(fields::find_named(m, "hmac-secret"), false)?;
    let cred_protect: Option<CredentialProtectionPolicy> = match fields::find_named(
        m,
        "credProtect",
    ) {
        Some(v) => Some(policy_of(v)?),
        None => None,
    };
    Ok(MakeCredentialExtensions { hmac_secret, cred_protect })
}

/// A COSE key for key agreement on P-256.
pub fn cose_key_of(value: &Value) -> (key: Result<CoseKey, Ctap2StatusCode>)
    ensures
        viewed(key) == as_cose_key(value@),
{
    let m = fields::entries_of(value)?;
    if !fields::is_integer(fields::needed(fields::find(m, 1))?, 2)? {
        return Err(Ctap2StatusCode::CTAP2_ERR_UNSUPPORTED_ALGORITHM);
    }
    let algorithm: &Value = fields::needed(fields::find(m, 3))?;
    if !fields::is_integer(algorithm, -25)? && !fields::is_integer(algorithm, -7)? {
        return Err(Ctap2StatusCode::CTAP2_ERR_UNSUPPORTED_ALGORITHM);
    }
    if !fields::is_integer(fields::needed(fields::find_negative(m, 0))?, 1)? {
        return Err(Ctap2StatusCode::CTAP2_ERR_UNSUPPORTED_ALGORITHM);
    }
    let x: [u8; 32] = fields::coordinate_of(fields::needed(fields::find_negative(m, 1))?)?;
    let y: [u8; 32] = fields::coordinate_of(fields::needed(fields::find_negative(m, 2))?)?;
    Ok(CoseKey { x, y })
}

/// What the hmac-secret extension is asked to compute on.
pub fn hmac_input_of(value: &Value) -> (input: Result<GetAssertionHmacSecretInput, Ctap2StatusCode>)
    ensures
        viewed(input) == as_hmac_input(value@),
{
    let m = fields::entries_of(value)?;
    let key_agreement: CoseKey = cose_key_of(fields::needed(fields::find(m, 1))?)?;
    let salt_enc: Vec<u8> = fields::bytes_of(fields::needed(fields::find(m, 2))?)?;
    let salt_auth: Vec<u8> = fields::bytes_of(fields::needed(fields::find(m, 3))?)?;
    Ok(GetAssertionHmacSecretInput { key_agreement, salt_enc, salt_auth })
}

/// What an optional input holds.
pub open spec fn hmac_input_model(input: Option<GetAssertionHmacSecretInput>) -> Option<
    HmacInputModel,
> {
    match input {
        Some(i) => Some(i@),
        None => None,
    }
}

/// The one extension that a credential may be used with.
pub fn get_extensions_of(value: &Value) -> (extensions: Result<
    GetAssertionExtensions,
    Ctap2StatusCode,
>)
    ensures
        match extensions {
            Ok(e) => as_get_extensions(value@) == Ok::<_, Ctap2StatusCode>(
                hmac_input_model(e.hmac_secret),
            ),
            Err(e) => as_get_extensions(value@) == Err::<Option<HmacInputModel>, _>(e),
        },
{
    let m = fields::entries_of(value)?;
    let hmac_secret: Option<GetAssertionHmacSecretInput> = match fields::find_named(
        m,
        "hmac-secret",
    ) {
        Some(v) => Some(hmac_input_of(v)?),
        None => None,
    };
    Ok(GetAssertionExtensions { hmac_secret })
}

/// Options for making a credential.
pub fn make_options_of(value: &Value) -> (options: Result<MakeCredentialOptions, Ctap2StatusCode>)
    ensures
        options == as_make_options(value@),
{
    let m = fields::entries_of(value)?;
    let rk: bool = fields::flag_of(fields::find_named(m, "rk"), false)?;
    let up: bool = fields::flag_of(fields::find_named(m, "up"), true)?;
    if !up {
        return Err(Ctap2StatusCode::CTAP2_ERR_INVALID_OPTION);
    }
    let uv: bool = fields::flag_of(fields::find_named(m, "uv"), false)?;
    Ok(MakeCredentialOptions { rk, uv })
}

/// Options for using a credential.
pub fn get_options_of(value: &Value) -> (options: Result<GetAssertionOptions, Ctap2StatusCode>)
    ensures
        options == as_get_options(value@),
{
    let m = fields::entries_of(value)?;
    if let Some(v) = fields::find_named(m, "rk") {
        // It is read for the right error only.
        let _ = fields::bool_of(v)?;
        return Err(Ctap2StatusCode::CTAP2_ERR_INVALID_OPTION);
    }
    let up: bool = fields::flag_of(fields::find_named(m, "up"), true)?;
    let uv: bool = fields::flag_of(fields::find_named(m, "uv"), false)?;
    Ok(GetAssertionOptions { up, uv })
}

/// What a request about the PIN asks for, by its number.
pub fn sub_command_of(value: &Value) -> (sub_command: Result<ClientPinSubCommand, Ctap2StatusCode>)
    ensures
        sub_command == as_sub_command(value@),
{
    let n: u64 = fields::unsigned_of(value)?;
    if n == 1 {
        Ok(ClientPinSubCommand::GetPinRetries)
    } else if n == 2 {
        Ok(ClientPinSubCommand::GetKeyAgreement)
    } else if n == 3 {
        Ok(ClientPinSubCommand::SetPin)
    } else if n == 4 {
        Ok(ClientPinSubCommand::ChangePin)
    } else if n == 5 {
        Ok(ClientPinSubCommand::GetPinToken)
    } else if n == 6 {
        Ok(ClientPinSubCommand::GetPinUvAuthTokenUsingUvWithPermissions)
    } else if n == 7 {
        Ok(ClientPinSubCommand::GetUvRetries)
    } else if n == 8 {
        Ok(ClientPinSubCommand::SetMinPinLength)
    } else if n == 9 {
        Ok(ClientPinSubCommand::GetPinUvAuthTokenUsingPinWithPermissions)
    } else {
        Err(Ctap2StatusCode::CTAP1_ERR_INVALID_PARAMETER)
    }
}

/// A list of texts.
pub fn texts_of(value: &Value) -> (texts: Result<Vec<String>, Ctap2StatusCode>)
    ensures
        match texts {
            Ok(list) => as_texts(value@) == Ok::<_, Ctap2StatusCode>(views(list@)),
            Err(e) => as_texts(value@) == Err::<Seq<Seq<char>>, _>(e),
        },
{
    let list: &Vec<Value> = fields::items_of(value)?;
    let ghost items = model::items(list@);
    let ghost read = |v: Item| fields::as_text(v);
    let mut texts: Vec<String> = Vec::new();
    let mut i: usize = 0;
    proof {
        model::lemma_items_index(list@);
        assert(items.take(0) =~= Seq::empty());
        assert(views(texts@) =~= Seq::empty());
    }
    while i < list.len()
        invariant
            i <= list@.len(),
            items.len() == list@.len(),
            forall|j: int| 0 <= j < items.len() ==> #[trigger] items[j] == list@[j]@,
            read == |v: Item| fields::as_text(v),
            fields::as_items(value@) == Ok::<Seq<Item>, Ctap2StatusCode>(items),
            fields::all(items.take(i as int), read) == Ok::<_, Ctap2StatusCode>(views(texts@)),
        decreases list@.len() - i,
    {
        proof {
            fields::lemma_all_step(items, read, i as int);
        }
        let text: String = fields::text_of(&list[i])?;
        let ghost before = texts@;
        texts.push(text);
        assert(views(texts@) =~= views(before).push(text@));
        i += 1;
    }
    assert(items.take(i as int) =~= items);
    Ok(texts)
}

} // verus!
