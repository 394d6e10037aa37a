//! What the authenticator answers, and how the answers are encoded.

use crate::cbor::builder;
use crate::cbor::model;
use crate::cbor::model::{Item, Value};
use crate::crypto::ecdsa;
use crate::ctap::data_formats::{
    AuthenticatorTransport, CoseKey, CredentialProtectionPolicy, PackedAttestationStatement,
    PublicKeyCredentialDescriptor, PublicKeyCredentialParameter, PublicKeyCredentialType,
    PublicKeyCredentialUserEntity,
};
use vstd::prelude::*;

verus! {

/// The answer to a request.
#[derive(Debug, PartialEq)]
pub enum ResponseData {
    AuthenticatorMakeCredential(AuthenticatorMakeCredentialResponse),
    AuthenticatorGetAssertion(AuthenticatorGetAssertionResponse),
    AuthenticatorGetInfo(AuthenticatorGetInfoResponse),
    AuthenticatorClientPin(Option<AuthenticatorClientPinResponse>),
    AuthenticatorReset,
}

/// A credential was made.
#[derive(Debug, PartialEq)]
pub struct AuthenticatorMakeCredentialResponse {
    pub fmt: String,
    pub auth_data: Vec<u8>,
    pub att_stmt: PackedAttestationStatement,
}

/// A credential was used.
#[derive(Debug, PartialEq)]
pub struct AuthenticatorGetAssertionResponse {
    pub credential: Option<PublicKeyCredentialDescriptor>,
    pub auth_data: Vec<u8>,
    pub signature: Vec<u8>,
    pub user: Option<PublicKeyCredentialUserEntity>,
    pub number_of_credentials: Option<u64>,
}

/// What the authenticator can do. The options stand in the order in which they
/// are encoded: shorter names first.
#[derive(Debug, PartialEq)]
pub struct AuthenticatorGetInfoResponse {
    pub versions: Vec<String>,
    pub extensions: Option<Vec<String>>,
    pub aaguid: [u8; 16],
    pub options: Option<Vec<(String, bool)>>,
    pub max_msg_size: Option<u64>,
    pub pin_protocols: Option<Vec<u64>>,
    pub max_credential_count_in_list: Option<u64>,
    pub max_credential_id_length: Option<u64>,
    pub transports: Option<Vec<AuthenticatorTransport>>,
    pub algorithms: Option<Vec<PublicKeyCredentialParameter>>,
    pub default_cred_protect: Option<CredentialProtectionPolicy>,
    pub firmware_version: Option<u64>,
}

/// What a request about the PIN is answered.
#[derive(Debug, PartialEq)]
pub struct AuthenticatorClientPinResponse {
    pub key_agreement: Option<CoseKey>,
    pub pin_token: Option<Vec<u8>>,
    pub retries: Option<u64>,
}

/// COSE names the algorithm of key agreement by the number -25.
pub const ECDH_NEGATED: u64 = 24;

impl PublicKeyCredentialType {
    /// The name of the kind.
    pub open spec fn name(self) -> Seq<char> {
        match self {
            PublicKeyCredentialType::PublicKey => "public-key"@,
            PublicKeyCredentialType::Unknown => "unknown"@,
        }
    }

    /// The name of the kind.
    pub fn to_name(self) -> (name: &'static str)
        ensures
            name@ == self.name(),
    {
        match self {
            PublicKeyCredentialType::PublicKey => "public-key",
            PublicKeyCredentialType::Unknown => "unknown",
        }
    }
}

impl AuthenticatorTransport {
    /// The name of the transport.
    pub open spec fn name(self) -> Seq<char> {
        match self {
            AuthenticatorTransport::Usb => "usb"@,
            AuthenticatorTransport::Nfc => "nfc"@,
            AuthenticatorTransport::Ble => "ble"@,
            AuthenticatorTransport::Internal => "internal"@,
        }
    }

    /// The name of the transport.
    pub fn to_name(self) -> (name: &'static str)
        ensures
            name@ == self.name(),
    {
        match self {
            AuthenticatorTransport::Usb => "usb",
            AuthenticatorTransport::Nfc => "nfc",
            AuthenticatorTransport::Ble => "ble",
            AuthenticatorTransport::Internal => "internal",
        }
    }
}

/// The list of texts.
pub open spec fn texts_item(list: Seq<String>) -> Item {
    Item::Array(list.map_values(|s: String| Item::TextString(s@)))
}

/// The list of byte strings.
pub open spec fn byte_strings_item(list: Seq<Vec<u8>>) -> Item {
    Item::Array(list.map_values(|s: Vec<u8>| Item::ByteString(s@)))
}

/// The list of numbers.
pub open spec fn numbers_item(list: Seq<u64>) -> Item {
    Item::Array(list.map_values(|n: u64| Item::Unsigned(n)))
}

/// The list of transports, by their names.
pub open spec fn transports_item(list: Seq<AuthenticatorTransport>) -> Item {
    Item::Array(list.map_values(|t: AuthenticatorTransport| Item::TextString(t.name())))
}

/// A kind of credential and its algorithm.
pub open spec fn parameter_item(parameter: PublicKeyCredentialParameter) -> Item {
    Item::Table(
        seq![
            (Item::TextString("alg"@), builder::integer_item(parameter.alg.number())),
            (Item::TextString("type"@), Item::TextString(parameter.cred_type.name())),
        ],
    )
}

/// The list of kinds of credentials and algorithms.
pub open spec fn parameters_item(list: Seq<PublicKeyCredentialParameter>) -> Item {
    Item::Array(list.map_values(|p: PublicKeyCredentialParameter| parameter_item(p)))
}

/// The options, each with whether it is on.
pub open spec fn options_item(list: Seq<(String, bool)>) -> Item {
    Item::Table(
        list.map_values(|o: (String, bool)| (Item::TextString(o.0@), builder::bool_item(o.1))),
    )
}

/// An optional value as an optional item.
pub open spec fn mapped<A>(value: Option<A>, f: spec_fn(A) -> Item) -> Option<Item> {
    match value {
        Some(v) => Some(f(v)),
        None => None,
    }
}

/// The item for a key of one byte string.
pub open spec fn bytes_item(s: Vec<u8>) -> Item {
    Item::ByteString(s@)
}

/// An attestation statement.
pub open spec fn attestation_item(statement: PackedAttestationStatement) -> Item {
    Item::Table(
        seq![
            (Item::TextString("alg"@), builder::integer_item(statement.alg as int)),
            (Item::TextString("sig"@), Item::ByteString(statement.sig@)),
        ] + builder::optional_entry(
            Item::TextString("x5c"@),
            mapped(statement.x5c, |list: Vec<Vec<u8>>| byte_strings_item(list@)),
        ) + builder::optional_entry(
            Item::TextString("ecdaaKeyId"@),
            mapped(statement.ecdaa_key_id, |s: Vec<u8>| bytes_item(s)),
        ),
    )
}

/// A credential that is named.
pub open spec fn descriptor_item(descriptor: PublicKeyCredentialDescriptor) -> Item {
    Item::Table(
        seq![
            (Item::TextString("id"@), Item::ByteString(descriptor.key_id@)),
            (Item::TextString("type"@), Item::TextString(descriptor.key_type.name())),
        ] + builder::optional_entry(
            Item::TextString("transports"@),
            mapped(
                descriptor.transports,
                |list: Vec<AuthenticatorTransport>| transports_item(list@),
            ),
        ),
    )
}

/// A user.
pub open spec fn user_item(user: PublicKeyCredentialUserEntity) -> Item {
    let text = |s: String| Item::TextString(s@);
    Item::Table(
        seq![(Item::TextString("id"@), Item::ByteString(user.user_id@))]
            + builder::optional_entry(Item::TextString("icon"@), mapped(user.user_icon, text))
            + builder::optional_entry(Item::TextString("name"@), mapped(user.user_name, text))
            + builder::optional_entry(
            Item::TextString("displayName"@),
            mapped(user.user_display_name, text),
        ),
    )
}

/// A credential was made.
pub open spec fn make_credential_item(response: AuthenticatorMakeCredentialResponse) -> Item {
    Item::Table(
        seq![
            (Item::Unsigned(1), Item::TextString(response.fmt@)),
            (Item::Unsigned(2), Item::ByteString(response.auth_data@)),
            (Item::Unsigned(3), attestation_item(response.att_stmt)),
        ],
    )
}

/// A credential was used.
pub open spec fn get_assertion_item(response: AuthenticatorGetAssertionResponse) -> Item {
    Item::Table(
        builder::optional_entry(
            Item::Unsigned(1),
            mapped(response.credential, |d: PublicKeyCredentialDescriptor| descriptor_item(d)),
        ) + seq![
            (Item::Unsigned(2), Item::ByteString(response.auth_data@)),
            (Item::Unsigned(3), Item::ByteString(response.signature@)),
        ] + builder::optional_entry(
            Item::Unsigned(4),
            mapped(response.user, |u: PublicKeyCredentialUserEntity| user_item(u)),
        ) + builder::optional_entry(
            Item::Unsigned(5),
            mapped(response.number_of_credentials, |n: u64| Item::Unsigned(n)),
        ),
    )
}

/// What every authenticator says that it can do.
pub open spec fn basic_info_entries(response: AuthenticatorGetInfoResponse) -> Seq<(Item, Item)> {
    seq![(Item::Unsigned(1), texts_item(response.versions@))] + builder::optional_entry(
        Item::Unsigned(2),
        mapped(response.extensions, |list: Vec<String>| texts_item(list@)),
    ) + seq![(Item::Unsigned(3), Item::ByteString(response.aaguid@))] + builder::optional_entry(
        Item::Unsigned(4),
        mapped(response.options, |list: Vec<(String, bool)>| options_item(list@)),
    ) + builder::optional_entry(
        Item::Unsigned(5),
        mapped(response.max_msg_size, |n: u64| Item::Unsigned(n)),
    ) + builder::optional_entry(
        Item::Unsigned(6),
        mapped(response.pin_protocols, |list: Vec<u64>| numbers_item(list@)),
    )
}

/// What FIDO 2.1 adds to it.
pub open spec fn further_info_entries(response: AuthenticatorGetInfoResponse) -> Seq<
    (Item, Item),
> {
    let number = |n: u64| Item::Unsigned(n);
    builder::optional_entry(
        Item::Unsigned(7),
        mapped(response.max_credential_count_in_list, number),
    ) + builder::optional_entry(
        Item::Unsigned(8),
        mapped(response.max_credential_id_length, number),
    ) + builder::optional_entry(
        Item::Unsigned(9),
        mapped(response.transports, |list: Vec<AuthenticatorTransport>| transports_item(list@)),
    ) + builder::optional_entry(
        Item::Unsigned(10),
        mapped(
            response.algorithms,
            |list: Vec<PublicKeyCredentialParameter>| parameters_item(list@),
        ),
    ) + builder::optional_entry(
        Item::Unsigned(12),
        mapped(
            response.default_cred_protect,
            |p: CredentialProtectionPolicy| Item::Unsigned(p.level()),
        ),
    ) + builder::optional_entry(Item::Unsigned(14), mapped(response.firmware_version, number))
}

/// What the authenticator can do.
pub open spec fn get_info_item(response: AuthenticatorGetInfoResponse) -> Item {
    Item::Table(basic_info_entries(response) + further_info_entries(response))
}

/// What a request about the PIN is answered.
pub open spec fn client_pin_item(response: AuthenticatorClientPinResponse) -> Item {
    Item::Table(
        builder::optional_entry(
            Item::Unsigned(1),
            mapped(
                response.key_agreement,
                |key: CoseKey| ecdsa::cose_item(ECDH_NEGATED, key.x@, key.y@),
            ),
        ) + builder::optional_entry(
            Item::Unsigned(2),
            mapped(response.pin_token, |s: Vec<u8>| bytes_item(s)),
        ) + builder::optional_entry(
            Item::Unsigned(3),
            mapped(response.retries, |n: u64| Item::Unsigned(n)),
        ),
    )
}

/// The item that follows the status byte, if one does.
pub open spec fn response_item(response: ResponseData) -> Option<Item> {
    match response {
        ResponseData::AuthenticatorMakeCredential(r) => Some(make_credential_item(r)),
        ResponseData::AuthenticatorGetAssertion(r) => Some(get_assertion_item(r)),
        ResponseData::AuthenticatorGetInfo(r) => Some(get_info_item(r)),
        ResponseData::AuthenticatorClientPin(Some(r)) => Some(client_pin_item(r)),
        ResponseData::AuthenticatorClientPin(None) => None,
        ResponseData::AuthenticatorReset => None,
    }
}

/// A list of texts.
fn texts_value(list: &Vec<String>) -> (value: Value)
    ensures
        value@ == texts_item(list@),
        model::nested_at_most(value@, 1),
{
    let mut values: Vec<Value> = Vec::new();
    let mut i: usize = 0;
    while i < list.len()
        invariant
            i <= list@.len(),
            values@.len() == i,
            forall|j: int|
                0 <= j < i ==> (#[trigger] values@[j])@ == Item::TextString(list@[j]@),
        decreases list@.len() - i,
    {
        values.push(builder::text(list[i].as_str()));
        i += 1;
    }
    proof {
        model::lemma_items_index(values@);
        model::lemma_items_nested(model::items(values@), 0);
        assert(model::items(values@) =~= texts_item(list@)->Array_0);
    }
    Value::Array(values)
}

/// A list of byte strings.
fn byte_strings_value(list: &Vec<Vec<u8>>) -> (value: Value)
    ensures
        value@ == byte_strings_item(list@),
        model::nested_at_most(value@, 1),
{
    let mut values: Vec<Value> = Vec::new();
    let mut i: usize = 0;
    while i < list.len()
        invariant
            i <= list@.len(),
            values@.len() == i,
            forall|j: int|
                0 <= j < i ==> (#[trigger] values@[j])@ == Item::ByteString(list@[j]@),
        decreases list@.len() - i,
    {
        values.push(builder::byte_string(list[i].as_slice()));
        i += 1;
    }
    proof {
        model::lemma_items_index(values@);
        model::lemma_items_nested(model::items(values@), 0);
        assert(model::items(values@) =~= byte_strings_item(list@)->Array_0);
    }
    Value::Array(values)
}

/// A list of numbers.
fn numbers_value(list: &Vec<u64>) -> (value: Value)
    ensures
        value@ == numbers_item(list@),
        model::nested_at_most(value@, 1),
{
    let mut values: Vec<Value> = Vec::new();
    let mut i: usize = 0;
    while i < list.len()
        invariant
            i <= list@.len(),
            values@.len() == i,
            forall|j: int| 0 <= j < i ==> (#[trigger] values@[j])@ == Item::Unsigned(list@[j]),
        decreases list@.len() - i,
    {
        values.push(Value::Unsigned(list[i]));
        i += 1;
    }
    proof {
        model::lemma_items_index(values@);
        model::lemma_items_nested(model::items(values@), 0);
        assert(model::items(values@) =~= numbers_item(list@)->Array_0);
    }
    Value::Array(values)
}

/// A list of transports.
fn transports_value(list: &Vec<AuthenticatorTransport>) -> (value: Value)
    ensures
        value@ == transports_item(list@),
        model::nested_at_most(value@, 1),
{
    let mut values: Vec<Value> = Vec::new();
    let mut i: usize = 0;
    while i < list.len()
        invariant
            i <= list@.len(),
            values@.len() == i,
            forall|j: int|
                0 <= j < i ==> (#[trigger] values@[j])@ == Item::TextString(list@[j].name()),
        decreases list@.len() - i,
    {
        values.push(builder::text(list[i].to_name()));
        i += 1;
    }
    proof {
        model::lemma_items_index(values@);
        model::lemma_items_nested(model::items(values@), 0);
        assert(model::items(values@) =~= transports_item(list@)->Array_0);
    }
    Value::Array(values)
}

/// A kind of credential and its algorithm.
fn parameter_value(parameter: &PublicKeyCredentialParameter) -> (value: Value)
    ensures
        value@ == parameter_item(*parameter),
        model::nested_at_most(value@, 1),
{
    let mut pairs: Vec<(Value, Value)> = Vec::new();
    builder::push(&mut pairs, builder::text("alg"), builder::integer(parameter.alg.to_i64()));
    builder::push(
        &mut pairs,
        builder::text("type"),
        builder::text(parameter.cred_type.to_name()),
    );
    assert(builder::flat(pairs@, 0));
    assert(model::entries(pairs@) =~= parameter_item(*parameter)->Table_0);
    Value::Table(pairs)
}

/// A list of kinds of credentials and algorithms.
fn parameters_value(list: &Vec<PublicKeyCredentialParameter>) -> (value: Value)
    ensures
        value@ == parameters_item(list@),
        model::nested_at_most(value@, 2),
{
    let mut values: Vec<Value> = Vec::new();
    let mut i: usize = 0;
    while i < list.len()
        invariant
            i <= list@.len(),
            values@.len() == i,
            forall|j: int|
                0 <= j < i ==> (#[trigger] values@[j])@ == parameter_item(list@[j])
                    && model::nested_at_most(values@[j]@, 1),
        decreases list@.len() - i,
    {
        values.push(parameter_value(&list[i]));
        i += 1;
    }
    proof {
        model::lemma_items_index(values@);
        model::lemma_items_nested(model::items(values@), 1);
        assert(model::items(values@) =~= parameters_item(list@)->Array_0);
    }
    Value::Array(values)
}

/// The options.
fn options_value(list: &Vec<(String, bool)>) -> (value: Value)
    ensures
        value@ == options_item(list@),
        model::nested_at_most(value@, 1),
{
    let mut pairs: Vec<(Value, Value)> = Vec::new();
    let mut i: usize = 0;
    while i < list.len()
        invariant
            i <= list@.len(),
            builder::flat(pairs@, 0),
            model::entries(pairs@) == options_item(list@.take(i as int))->Table_0,
        decreases list@.len() - i,
    {
        let option: &(String, bool) = &list[i];
        builder::push(&mut pairs, builder::text(option.0.as_str()), builder::boolean(option.1));
        assert(options_item(list@.take(i + 1))->Table_0 =~= options_item(
            list@.take(i as int),
        )->Table_0.push((Item::TextString(list@[i as int].0@), builder::bool_item(list@[i as int].1))));
        i += 1;
    }
    assert(list@.take(i as int) =~= list@);
    Value::Table(pairs)
}

/// An attestation statement.
fn attestation_value(statement: &PackedAttestationStatement) -> (value: Value)
    ensures
        value@ == attestation_item(*statement),
        model::nested_at_most(value@, 2),
{
    let mut pairs: Vec<(Value, Value)> = Vec::new();
    builder::push(&mut pairs, builder::text("alg"), builder::integer(statement.alg));
    builder::push(&mut pairs, builder::text("sig"), builder::byte_string(statement.sig.as_slice()));
    let x5c: Option<Value> = match &statement.x5c {
        Some(list) => Some(byte_strings_value(list)),
        None => None,
    };
    let ecdaa_key_id: Option<Value> = match &statement.ecdaa_key_id {
        Some(id) => Some(builder::byte_string(id.as_slice())),
        None => None,
    };
    builder::push_optional(&mut pairs, builder::text("x5c"), x5c);
    builder::push_optional(&mut pairs, builder::text("ecdaaKeyId"), ecdaa_key_id);
    assert(builder::flat(pairs@, 1));
    assert(model::entries(pairs@) =~= attestation_item(*statement)->Table_0);
    Value::Table(pairs)
}

/// A credential that is named.
fn descriptor_value(descriptor: &PublicKeyCredentialDescriptor) -> (value: Value)
    ensures
        value@ == descriptor_item(*descriptor),
        model::nested_at_most(value@, 2),
{
    let mut pairs: Vec<(Value, Value)> = Vec::new();
    builder::push(
        &mut pairs,
        builder::text("id"),
        builder::byte_string(descriptor.key_id.as_slice()),
    );
    builder::push(
        &mut pairs,
        builder::text("type"),
        builder::text(descriptor.key_type.to_name()),
    );
    let transports: Option<Value> = match &descriptor.transports {
        Some(list) => Some(transports_value(list)),
        None => None,
    };
    builder::push_optional(&mut pairs, builder::text("transports"), transports);
    assert(builder::flat(pairs@, 1));
    assert(model::entries(pairs@) =~= descriptor_item(*descriptor)->Table_0);
    Value::Table(pairs)
}

/// An optional text.
fn optional_text(s: &Option<String>) -> (value: Option<Value>)
    ensures
        builder::optional_item(value) == mapped(*s, |t: String| Item::TextString(t@)),
        value matches Some(v) ==> model::nested_at_most(v@, 0),
{
    match s {
        Some(t) => Some(builder::text(t.as_str())),
        None => None,
    }
}

/// A user.
fn user_value(user: &PublicKeyCredentialUserEntity) -> (value: Value)
    ensures
        value@ == user_item(*user),
        model::nested_at_most(value@, 1),
{
    let mut pairs: Vec<(Value, Value)> = Vec::new();
    builder::push(&mut pairs, builder::text("id"), builder::byte_string(user.user_id.as_slice()));
    builder::push_optional(&mut pairs, builder::text("icon"), optional_text(&user.user_icon));
    builder::push_optional(&mut pairs, builder::text("name"), optional_text(&user.user_name));
    builder::push_optional(
        &mut pairs,
        builder::text("displayName"),
        optional_text(&user.user_display_name),
    );
    assert(builder::flat(pairs@, 0));
    assert(model::entries(pairs@) =~= user_item(*user)->Table_0);
    Value::Table(pairs)
}

/// An optional number.
fn optional_number(n: Option<u64>) -> (value: Option<Value>)
    ensures
        builder::optional_item(value) == mapped(n, |m: u64| Item::Unsigned(m)),
        value matches Some(v) ==> model::nested_at_most(v@, 0),
{
    match n {
        Some(m) => Some(Value::Unsigned(m)),
        None => None,
    }
}

/// A credential was made.
fn make_credential_value(response: &AuthenticatorMakeCredentialResponse) -> (value: Value)
    ensures
        value@ == make_credential_item(*response),
        model::nested_at_most(value@, 4),
{
    let mut pairs: Vec<(Value, Value)> = Vec::new();
    builder::push(&mut pairs, Value::Unsigned(1), builder::text(response.fmt.as_str()));
    builder::push(
        &mut pairs,
        Value::Unsigned(2),
        builder::byte_string(response.auth_data.as_slice()),
    );
    let statement: Value = attestation_value(&response.att_stmt);
    proof {
        model::lemma_nested_monotone(statement@, 2, 3);
    }
    builder::push(&mut pairs, Value::Unsigned(3), statement);
    assert(builder::flat(pairs@, 3));
    assert(model::entries(pairs@) =~= make_credential_item(*response)->Table_0);
    Value::Table(pairs)
}

/// A credential was used.
fn get_assertion_value(response: &AuthenticatorGetAssertionResponse) -> (value: Value)
    ensures
        value@ == get_assertion_item(*response),
        model::nested_at_most(value@, 4),
{
    let mut pairs: Vec<(Value, Value)> = Vec::new();
    let credential: Option<Value> = match &response.credential {
        Some(descriptor) => Some(descriptor_value(descriptor)),
        None => None,
    };
    let user: Option<Value> = match &response.user {
        Some(user) => Some(user_value(user)),
        None => None,
    };
    proof {
        builder::lemma_optional_monotone(credential, 2, 3);
        builder::lemma_optional_monotone(user, 1, 3);
    }
    builder::push_optional(&mut pairs, Value::Unsigned(1), credential);
    builder::push(
        &mut pairs,
        Value::Unsigned(2),
        builder::byte_string(response.auth_data.as_slice()),
    );
    builder::push(
        &mut pairs,
        Value::Unsigned(3),
        builder::byte_string(response.signature.as_slice()),
    );
    builder::push_optional(&mut pairs, Value::Unsigned(4), user);
    builder::push_optional(
        &mut pairs,
        Value::Unsigned(5),
        optional_number(response.number_of_credentials),
    );
    assert(builder::flat(pairs@, 3));
    assert(model::entries(pairs@) =~= get_assertion_item(*response)->Table_0);
    Value::Table(pairs)
}

/// Appends what every authenticator says that it can do.
fn push_basic_info(
    pairs: &mut Vec<(Value, Value)>,
    response: &AuthenticatorGetInfoResponse,
)
    requires
        builder::flat(old(pairs)@, 3),
    ensures
        builder::flat(final(pairs)@, 3),
        model::entries(final(pairs)@) == model::entries(old(pairs)@) + basic_info_entries(
            *response,
        ),
{
    let versions: Value = texts_value(&response.versions);
    let extensions: Option<Value> = match &response.extensions {
        Some(list) => Some(texts_value(list)),
        None => None,
    };
    let options: Option<Value> = match &response.options {
        Some(list) => Some(options_value(list)),
        None => None,
    };
    let pin_protocols: Option<Value> = match &response.pin_protocols {
        Some(list) => Some(numbers_value(list)),
        None => None,
    };
    proof {
        model::lemma_nested_monotone(versions@, 1, 3);
        builder::lemma_optional_monotone(extensions, 1, 3);
        builder::lemma_optional_monotone(options, 1, 3);
        builder::lemma_optional_monotone(pin_protocols, 1, 3);
    }
    let ghost before = model::entries(pairs@);
    builder::push(pairs, Value::Unsigned(1), versions);
    builder::push_optional(pairs, Value::Unsigned(2), extensions);
    builder::push(pairs, Value::Unsigned(3), builder::byte_string(&response.aaguid));
    builder::push_optional(pairs, Value::Unsigned(4), options);
    builder::push_optional(pairs, Value::Unsigned(5), optional_number(response.max_msg_size));
    builder::push_optional(pairs, Value::Unsigned(6), pin_protocols);
    assert(model::entries(pairs@) =~= before + basic_info_entries(*response));
}

/// Appends what FIDO 2.1 adds to it.
fn push_further_info(
    pairs: &mut Vec<(Value, Value)>,
    response: &AuthenticatorGetInfoResponse,
)
    requires
        builder::flat(old(pairs)@, 3),
    ensures
        builder::flat(final(pairs)@, 3),
        model::entries(final(pairs)@) == model::entries(old(pairs)@) + further_info_entries(
            *response,
        ),
{
    let transports: Option<Value> = match &response.transports {
        Some(list) => Some(transports_value(list)),
        None => None,
    };
    let algorithms: Option<Value> = match &response.algorithms {
        Some(list) => Some(parameters_value(list)),
        None => None,
    };
    let default_cred_protect: Option<Value> = match response.default_cred_protect {
        Some(policy) => Some(Value::Unsigned(policy.to_level())),
        None => None,
    };
    proof {
        builder::lemma_optional_monotone(transports, 1, 3);
        builder::lemma_optional_monotone(algorithms, 2, 3);
    }
    let ghost before = model::entries(pairs@);
    builder::push_optional(
        pairs,
        Value::Unsigned(7),
        optional_number(response.max_credential_count_in_list),
    );
    builder::push_optional(
        pairs,
        Value::Unsigned(8),
        optional_number(response.max_credential_id_length),
    );
    builder::push_optional(pairs, Value::Unsigned(9), transports);
    builder::push_optional(pairs, Value::Unsigned(10), algorithms);
    builder::push_optional(pairs, Value::Unsigned(12), default_cred_protect);
    builder::push_optional(
        pairs,
        Value::Unsigned(14),
        optional_number(response.firmware_version),
    );
    proof {
        let number = |n: u64| Item::Unsigned(n);
        builder::lemma_joined(
            before,
            builder::optional_entry(
                Item::Unsigned(7),
                mapped(response.max_credential_count_in_list, number),
            ),
            builder::optional_entry(
                Item::Unsigned(8),
                mapped(response.max_credential_id_length, number),
            ),
            builder::optional_entry(Item::Unsigned(9), builder::optional_item(transports)),
            builder::optional_entry(Item::Unsigned(10), builder::optional_item(algorithms)),
            builder::optional_entry(
                Item::Unsigned(12),
                builder::optional_item(default_cred_protect),
            ),
            builder::optional_entry(Item::Unsigned(14), mapped(response.firmware_version, number)),
        );
    }
}

/// What the authenticator can do.
fn get_info_value(response: &AuthenticatorGetInfoResponse) -> (value: Value)
    ensures
        value@ == get_info_item(*response),
        model::nested_at_most(value@, 4),
{
    let mut pairs: Vec<(Value, Value)> = Vec::new();
    push_basic_info(&mut pairs, response);
    push_further_info(&mut pairs, response);
    assert(model::entries(pairs@) =~= get_info_item(*response)->Table_0);
    Value::Table(pairs)
}

/// What a request about the PIN is answered.
fn client_pin_value(response: &AuthenticatorClientPinResponse) -> (value: Value)
    ensures
        value@ == client_pin_item(*response),
        model::nested_at_most(value@, 4),
{
    let mut pairs: Vec<(Value, Value)> = Vec::new();
    let key_agreement: Option<Value> = match &response.key_agreement {
        Some(key) => Some(ecdsa::cose_value(ECDH_NEGATED, &key.x, &key.y)),
        None => None,
    };
    let pin_token: Option<Value> = match &response.pin_token {
        Some(token) => Some(builder::byte_string(token.as_slice())),
        None => None,
    };
    proof {
        builder::lemma_optional_monotone(key_agreement, 1, 3);
    }
    builder::push_optional(&mut pairs, Value::Unsigned(1), key_agreement);
    builder::push_optional(&mut pairs, Value::Unsigned(2), pin_token);
    builder::push_optional(&mut pairs, Value::Unsigned(3), optional_number(response.retries));
    assert(builder::flat(pairs@, 3));
    assert(model::entries(pairs@) =~= client_pin_item(*response)->Table_0);
    Value::Table(pairs)
}

impl ResponseData {
    /// The item that follows the status byte, if one does.
    pub fn into_cbor(self) -> (value: Option<Value>)
        ensures
            builder::optional_item(value) == response_item(self),
            value matches Some(v) ==> model::nested_at_most(v@, 4),
    {
        match &self {
            ResponseData::AuthenticatorMakeCredential(r) => Some(make_credential_value(r)),
            ResponseData::AuthenticatorGetAssertion(r) => Some(get_assertion_value(r)),
            ResponseData::AuthenticatorGetInfo(r) => Some(get_info_value(r)),
            ResponseData::AuthenticatorClientPin(response) => match response {
                Some(r) => Some(client_pin_value(r)),
                None => None,
            },
            ResponseData::AuthenticatorReset => None,
        }
    }
}

} // verus!
