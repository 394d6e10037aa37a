//! What requests are read as.

use crate::cbor::model;
use crate::cbor::model::{Item, SimpleValue};
use crate::cbor::reader;
use crate::ctap::command;
use crate::ctap::command::{
    AuthenticatorClientPinParameters, AuthenticatorGetAssertionParameters,
    AuthenticatorMakeCredentialParameters, Command, CommandModel,
};
use crate::ctap::data_formats::{
    AuthenticatorTransport, ClientPinSubCommand, CredentialProtectionPolicy,
    PublicKeyCredentialDescriptor, PublicKeyCredentialType, SignatureAlgorithm,
};
use crate::ctap::fields;
use crate::ctap::parse;
use crate::ctap::status_code::Ctap2StatusCode;
use vstd::prelude::*;

verus! {

/// Whether the last entry with a key has this value, or no entry has the key.
pub open spec fn says(m: Seq<(Item, Item)>, key: Item, value: Option<Item>) -> bool {
    match value {
        None => forall|i: int| 0 <= i < m.len() ==> (#[trigger] m[i]).0 != key,
        Some(v) => exists|i: int|
            0 <= i < m.len() && #[trigger] m[i] == (key, v) && forall|j: int|
                i < j < m.len() ==> (#[trigger] m[j]).0 != key,
    }
}

/// What is looked up is what the entries say.
pub proof fn law_entries_are_found(m: Seq<(Item, Item)>, key: Item, value: Option<Item>)
    ensures
        says(m, key, value) <==> fields::lookup(m, key) == value,
    decreases m.len(),
{
    if m.len() > 0 {
        let last = m.len() - 1;
        if m.last().0 == key {
            assert(m[last] == m.last());
            if let Some(v) = value {
                if says(m, key, value) {
                    let i = choose|i: int|
                        0 <= i < m.len() && #[trigger] m[i] == (key, v) && forall|j: int|
                            i < j < m.len() ==> (#[trigger] m[j]).0 != key;
                    assert(i == last);
                }
                if m.last().1 == v {
                    assert(m[last] == (key, v));
                }
            }
        } else {
            let rest = m.drop_last();
            law_entries_are_found(rest, key, value);
            assert forall|i: int| 0 <= i < rest.len() implies #[trigger] rest[i] == m[i] by {}
            assert(m[last] == m.last());
            match value {
                None => {
                    assert(says(rest, key, value) == says(m, key, value)) by {
                        if says(rest, key, value) {
                            assert forall|i: int| 0 <= i < m.len() implies (#[trigger] m[i]).0
                                != key by {
                                if i < last {
                                    assert(rest[i] == m[i]);
                                }
                            }
                        }
                        if says(m, key, value) {
                            assert forall|i: int| 0 <= i < rest.len() implies (
                            #[trigger] rest[i]).0 != key by {
                                assert(rest[i] == m[i]);
                            }
                        }
                    }
                },
                Some(v) => {
                    assert(says(rest, key, value) == says(m, key, value)) by {
                        if says(rest, key, value) {
                            let i = choose|i: int|
                                0 <= i < rest.len() && #[trigger] rest[i] == (key, v)
                                    && forall|j: int|
                                    i < j < rest.len() ==> (#[trigger] rest[j]).0 != key;
                            assert(m[i] == (key, v));
                            assert forall|j: int| i < j < m.len() implies (#[trigger] m[j]).0
                                != key by {
                                if j < last {
                                    assert(rest[j] == m[j]);
                                }
                            }
                        }
                        if says(m, key, value) {
                            let i = choose|i: int|
                                0 <= i < m.len() && #[trigger] m[i] == (key, v) && forall|j: int|
                                    i < j < m.len() ==> (#[trigger] m[j]).0 != key;
                            assert(i < last);
                            assert(rest[i] == (key, v));
                            assert forall|j: int| i < j < rest.len() implies (
                            #[trigger] rest[j]).0 != key by {
                                assert(rest[j] == m[j]);
                            }
                        }
                    }
                },
            }
        }
    }
}

/// The key of an entry that has a name.
pub open spec fn name_key(name: Seq<char>) -> Item {
    Item::TextString(name)
}

/// An optional text, as an item.
pub open spec fn text_item(text: Option<Seq<char>>) -> Option<Item> {
    match text {
        Some(s) => Some(Item::TextString(s)),
        None => None,
    }
}

/// Optional bytes, as an item.
pub open spec fn bytes_item(bytes: Option<Seq<u8>>) -> Option<Item> {
    match bytes {
        Some(s) => Some(Item::ByteString(s)),
        None => None,
    }
}

/// An optional number, as an item.
pub open spec fn number_item(number: Option<u64>) -> Option<Item> {
    match number {
        Some(n) => Some(Item::Unsigned(n)),
        None => None,
    }
}

/// A truth value, as an item.
pub open spec fn bool_item(b: bool) -> Item {
    Item::Simple(
        if b {
            SimpleValue::TrueValue
        } else {
            SimpleValue::FalseValue
        },
    )
}

/// Whether a flag is what an item says, or what it is without one.
pub open spec fn is_flag(flag: bool, value: Option<Item>, without: bool) -> bool {
    match value {
        Some(v) => v == bool_item(flag),
        None => flag == without,
    }
}

/// What is wrong with something that has to be there: that it is not, or that
/// it is of another kind.
pub open spec fn fault(value: Option<Item>, fits: bool) -> Option<Ctap2StatusCode> {
    if value is None {
        Some(Ctap2StatusCode::CTAP2_ERR_MISSING_PARAMETER)
    } else if fits {
        None
    } else {
        Some(Ctap2StatusCode::CTAP2_ERR_CBOR_UNEXPECTED_TYPE)
    }
}

/// What is wrong with something that need not be there.
pub open spec fn kind_fault(value: Option<Item>, fits: bool) -> Option<Ctap2StatusCode> {
    if value is Some && !fits {
        Some(Ctap2StatusCode::CTAP2_ERR_CBOR_UNEXPECTED_TYPE)
    } else {
        None
    }
}

/// What is wrong with what was read.
pub open spec fn read_fault<T>(value: Option<Item>, result: Result<T, Ctap2StatusCode>) -> Option<
    Ctap2StatusCode,
> {
    if value is Some && result is Err {
        Some(result->Err_0)
    } else {
        None
    }
}

/// What is wrong with what was read and has to be there.
pub open spec fn need_fault<T>(value: Option<Item>, result: Result<T, Ctap2StatusCode>) -> Option<
    Ctap2StatusCode,
> {
    if value is None {
        Some(Ctap2StatusCode::CTAP2_ERR_MISSING_PARAMETER)
    } else {
        read_fault(value, result)
    }
}

/// Whether an error is the first of the faults.
pub open spec fn is_first_fault(faults: Seq<Option<Ctap2StatusCode>>, e: Ctap2StatusCode) -> bool {
    exists|i: int|
        0 <= i < faults.len() && #[trigger] faults[i] == Some(e) && forall|j: int|
            0 <= j < i ==> #[trigger] faults[j] is None
}

/// Whether nothing is wrong.
pub open spec fn is_faultless(faults: Seq<Option<Ctap2StatusCode>>) -> bool {
    forall|i: int| 0 <= i < faults.len() ==> #[trigger] faults[i] is None
}

/// Whether an item is a text.
pub open spec fn is_text(value: Option<Item>) -> bool {
    value is Some && value->Some_0 is TextString
}

/// Whether an item is a byte string.
pub open spec fn is_bytes(value: Option<Item>) -> bool {
    value is Some && value->Some_0 is ByteString
}

/// Whether an item is a number that is not negative.
pub open spec fn is_number(value: Option<Item>) -> bool {
    value is Some && value->Some_0 is Unsigned
}

/// Whether an item is a number.
pub open spec fn is_integer(value: Option<Item>) -> bool {
    value is Some && (value->Some_0 is Unsigned || value->Some_0 is Negative)
}

/// Whether an item is a truth value.
pub open spec fn is_bool(value: Option<Item>) -> bool {
    value == Some(bool_item(true)) || value == Some(bool_item(false))
}

/// What the entries of a map say of a relying party is read.
pub proof fn law_party_is_read(
    m: Seq<(Item, Item)>,
    id: Option<Item>,
    name: Option<Item>,
    icon: Option<Item>,
)
    requires
        says(m, name_key("id"@), id),
        says(m, name_key("name"@), name),
        says(m, name_key("icon"@), icon),
    ensures
        ({
            let faults = seq![
                fault(id, is_text(id)),
                kind_fault(name, is_text(name)),
                kind_fault(icon, is_text(icon)),
            ];
            match parse::as_rp(Item::Table(m)) {
                Ok(rp) => {
                    &&& is_faultless(faults)
                    &&& id == Some(Item::TextString(rp.rp_id))
                    &&& name == text_item(rp.rp_name)
                    &&& icon == text_item(rp.rp_icon)
                },
                Err(e) => is_first_fault(faults, e),
            }
        }),
{
    law_entries_are_found(m, name_key("id"@), id);
    law_entries_are_found(m, name_key("name"@), name);
    law_entries_are_found(m, name_key("icon"@), icon);
    let faults = seq![
        fault(id, is_text(id)),
        kind_fault(name, is_text(name)),
        kind_fault(icon, is_text(icon)),
    ];
    assert(faults[0] == fault(id, is_text(id)));
    assert(faults[1] == kind_fault(name, is_text(name)));
    assert(faults[2] == kind_fault(icon, is_text(icon)));
}

/// What the entries of a map say of a user is read.
pub proof fn law_user_is_read(
    m: Seq<(Item, Item)>,
    id: Option<Item>,
    name: Option<Item>,
    display: Option<Item>,
    icon: Option<Item>,
)
    requires
        says(m, name_key("id"@), id),
        says(m, name_key("name"@), name),
        says(m, name_key("displayName"@), display),
        says(m, name_key("icon"@), icon),
    ensures
        ({
            let faults = seq![
                fault(id, is_bytes(id)),
                kind_fault(name, is_text(name)),
                kind_fault(display, is_text(display)),
                kind_fault(icon, is_text(icon)),
            ];
            match parse::as_user(Item::Table(m)) {
                Ok(user) => {
                    &&& is_faultless(faults)
                    &&& id == Some(Item::ByteString(user.user_id))
                    &&& name == text_item(user.user_name)
                    &&& display == text_item(user.user_display_name)
                    &&& icon == text_item(user.user_icon)
                },
                Err(e) => is_first_fault(faults, e),
            }
        }),
{
    law_entries_are_found(m, name_key("id"@), id);
    law_entries_are_found(m, name_key("name"@), name);
    law_entries_are_found(m, name_key("displayName"@), display);
    law_entries_are_found(m, name_key("icon"@), icon);
    let faults = seq![
        fault(id, is_bytes(id)),
        kind_fault(name, is_text(name)),
        kind_fault(display, is_text(display)),
        kind_fault(icon, is_text(icon)),
    ];
    assert(faults[0] == fault(id, is_bytes(id)));
    assert(faults[1] == kind_fault(name, is_text(name)));
    assert(faults[2] == kind_fault(display, is_text(display)));
    assert(faults[3] == kind_fault(icon, is_text(icon)));
}

/// Whether a kind of credential is the one of this name.
pub open spec fn is_cred_type(kind: PublicKeyCredentialType, value: Option<Item>) -> bool {
    kind is PublicKey <==> value == Some(Item::TextString("public-key"@))
}

/// A kind of credential and an algorithm are read; other names and numbers than
/// those that are known are taken too.
pub proof fn law_parameter_is_read(m: Seq<(Item, Item)>, kind: Option<Item>, alg: Option<Item>)
    requires
        says(m, name_key("type"@), kind),
        says(m, name_key("alg"@), alg),
    ensures
        ({
            let faults = seq![fault(kind, is_text(kind)), fault(alg, is_integer(alg))];
            match parse::as_parameter(Item::Table(m)) {
                Ok(parameter) => {
                    &&& is_faultless(faults)
                    &&& is_cred_type(parameter.cred_type, kind)
                    &&& parameter.alg == SignatureAlgorithm::ES256 <==> alg == Some(
                        Item::Negative(6),
                    )
                },
                Err(e) => is_first_fault(faults, e),
            }
        }),
{
    law_entries_are_found(m, name_key("type"@), kind);
    law_entries_are_found(m, name_key("alg"@), alg);
    let faults = seq![fault(kind, is_text(kind)), fault(alg, is_integer(alg))];
    assert(faults[0] == fault(kind, is_text(kind)));
    assert(faults[1] == fault(alg, is_integer(alg)));
}

/// Whether a list was read item by item; the first that could not be read
/// decides the error.
pub open spec fn is_read_list<T>(
    list: Seq<Item>,
    read: spec_fn(Item) -> Result<T, Ctap2StatusCode>,
    result: Result<Seq<T>, Ctap2StatusCode>,
) -> bool {
    match result {
        Ok(values) => values.len() == list.len() && forall|i: int|
            0 <= i < list.len() ==> #[trigger] read(list[i]) == Ok::<T, Ctap2StatusCode>(
                values[i],
            ),
        Err(e) => exists|i: int|
            0 <= i < list.len() && #[trigger] read(list[i]) == Err::<T, Ctap2StatusCode>(e)
                && forall|j: int| 0 <= j < i ==> #[trigger] read(list[j]) is Ok,
    }
}

proof fn lemma_list_is_read<T>(
    list: Seq<Item>,
    read: spec_fn(Item) -> Result<T, Ctap2StatusCode>,
)
    ensures
        is_read_list(list, read, fields::all(list, read)),
    decreases list.len(),
{
    if list.len() > 0 {
        let start = list.drop_last();
        let last = list.len() - 1;
        lemma_list_is_read(start, read);
        match fields::all(start, read) {
            Err(e) => {
                let i = choose|i: int|
                    0 <= i < start.len() && #[trigger] read(start[i]) == Err::<T, Ctap2StatusCode>(
                        e,
                    ) && forall|j: int| 0 <= j < i ==> #[trigger] read(start[j]) is Ok;
                assert(read(list[i]) == Err::<T, Ctap2StatusCode>(e));
                assert forall|j: int| 0 <= j < i implies #[trigger] read(list[j]) is Ok by {
                    assert(start[j] == list[j]);
                    assert(read(start[j]) is Ok);
                }
            },
            Ok(values) => {
                assert forall|i: int| 0 <= i < last implies #[trigger] read(list[i]) == Ok::<
                    T,
                    Ctap2StatusCode,
                >(values[i]) by {
                    assert(start[i] == list[i]);
                    assert(read(start[i]) is Ok);
                }
                assert(list[last] == list.last());
                assert(read(list[last]) == read(list.last()));
            },
        }
    }
}

/// Lists are read whole and in order.
pub proof fn law_lists_are_read(list: Seq<Item>)
    ensures
        is_read_list(
            list,
            |v: Item| parse::as_parameter(v),
            parse::as_parameters(Item::Array(list)),
        ),
        is_read_list(
            list,
            |v: Item| parse::as_transport(v),
            parse::as_transports(Item::Array(list)),
        ),
        is_read_list(
            list,
            |v: Item| parse::as_descriptor(v),
            parse::as_descriptors(Item::Array(list)),
        ),
        match parse::as_texts(Item::Array(list)) {
            Ok(texts) => texts.len() == list.len() && forall|i: int|
                0 <= i < list.len() ==> #[trigger] list[i] == Item::TextString(texts[i]),
            Err(e) => e == Ctap2StatusCode::CTAP2_ERR_CBOR_UNEXPECTED_TYPE && exists|i: int|
                0 <= i < list.len() && !((#[trigger] list[i]) is TextString),
        },
{
    lemma_list_is_read(list, |v: Item| parse::as_parameter(v));
    lemma_list_is_read(list, |v: Item| parse::as_transport(v));
    lemma_list_is_read(list, |v: Item| parse::as_descriptor(v));
    let read = |v: Item| fields::as_text(v);
    lemma_list_is_read(list, read);
    if let Ok(texts) = parse::as_texts(Item::Array(list)) {
        assert forall|i: int| 0 <= i < list.len() implies #[trigger] list[i] == Item::TextString(
            texts[i],
        ) by {
            assert(read(list[i]) == Ok::<Seq<char>, Ctap2StatusCode>(texts[i]));
        }
    }
}

/// A transport is read by its name.
pub proof fn law_transport_is_read(value: Item)
    ensures
        match parse::as_transport(value) {
            Ok(AuthenticatorTransport::Usb) => value == Item::TextString("usb"@),
            Ok(AuthenticatorTransport::Nfc) => value == Item::TextString("nfc"@),
            Ok(AuthenticatorTransport::Ble) => value == Item::TextString("ble"@),
            Ok(AuthenticatorTransport::Internal) => value == Item::TextString("internal"@),
            Err(e) => {
                &&& e == Ctap2StatusCode::CTAP2_ERR_CBOR_UNEXPECTED_TYPE
                &&& value != Item::TextString("usb"@)
                &&& value != Item::TextString("nfc"@)
                &&& value != Item::TextString("ble"@)
                &&& value != Item::TextString("internal"@)
            },
        },
{
}

/// The name of a credential is read.
pub proof fn law_descriptor_is_read(
    m: Seq<(Item, Item)>,
    kind: Option<Item>,
    id: Option<Item>,
    transports: Option<Item>,
)
    requires
        says(m, name_key("type"@), kind),
        says(m, name_key("id"@), id),
        says(m, name_key("transports"@), transports),
    ensures
        ({
            let faults = seq![
                fault(kind, is_text(kind)),
                fault(id, is_bytes(id)),
                read_fault(transports, parse::as_transports(transports->Some_0)),
            ];
            match parse::as_descriptor(Item::Table(m)) {
                Ok(descriptor) => {
                    &&& is_faultless(faults)
                    &&& is_cred_type(descriptor.key_type, kind)
                    &&& id == Some(Item::ByteString(descriptor.key_id))
                    &&& transports is None ==> descriptor.transports is None
                    &&& transports is Some ==> descriptor.transports is Some
                        && parse::as_transports(transports->Some_0) == Ok::<
                        Seq<AuthenticatorTransport>,
                        Ctap2StatusCode,
                    >(descriptor.transports->Some_0)
                },
                Err(e) => is_first_fault(faults, e),
            }
        }),
{
    law_entries_are_found(m, name_key("type"@), kind);
    law_entries_are_found(m, name_key("id"@), id);
    law_entries_are_found(m, name_key("transports"@), transports);
    let third = read_fault(transports, parse::as_transports(transports->Some_0));
    let faults = seq![fault(kind, is_text(kind)), fault(id, is_bytes(id)), third];
    assert(faults[0] == fault(kind, is_text(kind)));
    assert(faults[1] == fault(id, is_bytes(id)));
    assert(faults[2] == third);
}

/// A policy is read by its number.
pub proof fn law_policy_is_read(value: Item)
    ensures
        match parse::as_policy(value) {
            Ok(CredentialProtectionPolicy::UserVerificationOptional) => value == Item::Unsigned(1),
            Ok(CredentialProtectionPolicy::UserVerificationOptionalWithCredentialIdList) => value
                == Item::Unsigned(2),
            Ok(CredentialProtectionPolicy::UserVerificationRequired) => value == Item::Unsigned(3),
            Err(e) => e == Ctap2StatusCode::CTAP2_ERR_CBOR_UNEXPECTED_TYPE && !(value
                matches Item::Unsigned(n) && 1 <= n <= 3),
        },
{
}

/// The extensions that a credential is to be made with are read.
pub proof fn law_make_extensions_are_read(
    m: Seq<(Item, Item)>,
    secret: Option<Item>,
    protect: Option<Item>,
)
    requires
        says(m, name_key("hmac-secret"@), secret),
        says(m, name_key("credProtect"@), protect),
    ensures
        ({
            let faults = seq![
                kind_fault(secret, is_bool(secret)),
                read_fault(protect, parse::as_policy(protect->Some_0)),
            ];
            match parse::as_make_extensions(Item::Table(m)) {
                Ok(extensions) => {
                    &&& is_faultless(faults)
                    &&& is_flag(extensions.hmac_secret, secret, false)
                    &&& protect is None ==> extensions.cred_protect is None
                    &&& protect is Some ==> extensions.cred_protect is Some && parse::as_policy(
                        protect->Some_0,
                    ) == Ok::<CredentialProtectionPolicy, Ctap2StatusCode>(
                        extensions.cred_protect->Some_0,
                    )
                },
                Err(e) => is_first_fault(faults, e),
            }
        }),
{
    law_entries_are_found(m, name_key("hmac-secret"@), secret);
    law_entries_are_found(m, name_key("credProtect"@), protect);
    let second = read_fault(protect, parse::as_policy(protect->Some_0));
    let faults = seq![kind_fault(secret, is_bool(secret)), second];
    assert(faults[0] == kind_fault(secret, is_bool(secret)));
    assert(faults[1] == second);
}

/// Options for making a credential are read. A credential cannot be made
/// without presence.
pub proof fn law_make_options_are_read(
    m: Seq<(Item, Item)>,
    rk: Option<Item>,
    up: Option<Item>,
    uv: Option<Item>,
)
    requires
        says(m, name_key("rk"@), rk),
        says(m, name_key("up"@), up),
        says(m, name_key("uv"@), uv),
    ensures
        ({
            let refused = if up == Some(bool_item(false)) {
                Some(Ctap2StatusCode::CTAP2_ERR_INVALID_OPTION)
            } else {
                None
            };
            let faults = seq![
                kind_fault(rk, is_bool(rk)),
                kind_fault(up, is_bool(up)),
                refused,
                kind_fault(uv, is_bool(uv)),
            ];
            match parse::as_make_options(Item::Table(m)) {
                Ok(options) => {
                    &&& is_faultless(faults)
                    &&& is_flag(options.rk, rk, false)
                    &&& is_flag(options.uv, uv, false)
                },
                Err(e) => is_first_fault(faults, e),
            }
        }),
{
    law_entries_are_found(m, name_key("rk"@), rk);
    law_entries_are_found(m, name_key("up"@), up);
    law_entries_are_found(m, name_key("uv"@), uv);
    let refused = if up == Some(bool_item(false)) {
        Some(Ctap2StatusCode::CTAP2_ERR_INVALID_OPTION)
    } else {
        None
    };
    let faults = seq![
        kind_fault(rk, is_bool(rk)),
        kind_fault(up, is_bool(up)),
        refused,
        kind_fault(uv, is_bool(uv)),
    ];
    assert(faults[0] == kind_fault(rk, is_bool(rk)));
    assert(faults[1] == kind_fault(up, is_bool(up)));
    assert(faults[2] == refused);
    assert(faults[3] == kind_fault(uv, is_bool(uv)));
}

/// Options for using a credential are read. Whether it is stored cannot be
/// asked for.
pub proof fn law_use_options_are_read(
    m: Seq<(Item, Item)>,
    rk: Option<Item>,
    up: Option<Item>,
    uv: Option<Item>,
)
    requires
        says(m, name_key("rk"@), rk),
        says(m, name_key("up"@), up),
        says(m, name_key("uv"@), uv),
    ensures
        ({
            let refused = if rk is Some {
                Some(Ctap2StatusCode::CTAP2_ERR_INVALID_OPTION)
            } else {
                None
            };
            let faults = seq![
                kind_fault(rk, is_bool(rk)),
                refused,
                kind_fault(up, is_bool(up)),
                kind_fault(uv, is_bool(uv)),
            ];
            match parse::as_get_options(Item::Table(m)) {
                Ok(options) => {
                    &&& is_faultless(faults)
                    &&& is_flag(options.up, up, true)
                    &&& is_flag(options.uv, uv, false)
                },
                Err(e) => is_first_fault(faults, e),
            }
        }),
{
    law_entries_are_found(m, name_key("rk"@), rk);
    law_entries_are_found(m, name_key("up"@), up);
    law_entries_are_found(m, name_key("uv"@), uv);
    let refused = if rk is Some {
        Some(Ctap2StatusCode::CTAP2_ERR_INVALID_OPTION)
    } else {
        None
    };
    let faults = seq![
        kind_fault(rk, is_bool(rk)),
        refused,
        kind_fault(up, is_bool(up)),
        kind_fault(uv, is_bool(uv)),
    ];
    assert(faults[0] == kind_fault(rk, is_bool(rk)));
    assert(faults[1] == refused);
    assert(faults[2] == kind_fault(up, is_bool(up)));
    assert(faults[3] == kind_fault(uv, is_bool(uv)));
}

/// What is wrong with an item that has to be one of some numbers.
pub open spec fn number_fault(value: Option<Item>, known: bool) -> Option<Ctap2StatusCode> {
    if value is Some && is_integer(value) && !known {
        Some(Ctap2StatusCode::CTAP2_ERR_UNSUPPORTED_ALGORITHM)
    } else {
        fault(value, is_integer(value))
    }
}

/// What is wrong with an item that has to be 32 bytes.
pub open spec fn coordinate_fault(value: Option<Item>) -> Option<Ctap2StatusCode> {
    if is_bytes(value) && value->Some_0->ByteString_0.len() != 32 {
        Some(Ctap2StatusCode::CTAP1_ERR_INVALID_PARAMETER)
    } else {
        fault(value, is_bytes(value))
    }
}

/// A key for key agreement is read: it says that it is of two coordinates, for
/// an algorithm that is known, and on P-256; its coordinates have 32 bytes.
pub proof fn law_agreement_key_is_read(
    m: Seq<(Item, Item)>,
    kind: Option<Item>,
    alg: Option<Item>,
    curve: Option<Item>,
    x: Option<Item>,
    y: Option<Item>,
)
    requires
        says(m, Item::Unsigned(1), kind),
        says(m, Item::Unsigned(3), alg),
        says(m, Item::Negative(0), curve),
        says(m, Item::Negative(1), x),
        says(m, Item::Negative(2), y),
    ensures
        ({
            let faults = seq![
                number_fault(kind, kind == Some(Item::Unsigned(2))),
                number_fault(
                    alg,
                    alg == Some(Item::Negative(24)) || alg == Some(Item::Negative(6)),
                ),
                number_fault(curve, curve == Some(Item::Unsigned(1))),
                coordinate_fault(x),
                coordinate_fault(y),
            ];
            match parse::as_cose_key(Item::Table(m)) {
                Ok(key) => {
                    &&& is_faultless(faults)
                    &&& x == Some(Item::ByteString(key.0))
                    &&& y == Some(Item::ByteString(key.1))
                },
                Err(e) => is_first_fault(faults, e),
            }
        }),
{
    law_entries_are_found(m, Item::Unsigned(1), kind);
    law_entries_are_found(m, Item::Unsigned(3), alg);
    law_entries_are_found(m, Item::Negative(0), curve);
    law_entries_are_found(m, Item::Negative(1), x);
    law_entries_are_found(m, Item::Negative(2), y);
    let a = number_fault(kind, kind == Some(Item::Unsigned(2)));
    let b = number_fault(
        alg,
        alg == Some(Item::Negative(24)) || alg == Some(Item::Negative(6)),
    );
    let c = number_fault(curve, curve == Some(Item::Unsigned(1)));
    let faults = seq![a, b, c, coordinate_fault(x), coordinate_fault(y)];
    assert(faults[0] == a);
    assert(faults[1] == b);
    assert(faults[2] == c);
    assert(faults[3] == coordinate_fault(x));
    assert(faults[4] == coordinate_fault(y));
}

/// What the hmac-secret extension is to compute on is read.
pub proof fn law_secret_input_is_read(
    m: Seq<(Item, Item)>,
    key: Option<Item>,
    salts: Option<Item>,
    auth: Option<Item>,
)
    requires
        says(m, Item::Unsigned(1), key),
        says(m, Item::Unsigned(2), salts),
        says(m, Item::Unsigned(3), auth),
    ensures
        ({
            let faults = seq![
                need_fault(key, parse::as_cose_key(key->Some_0)),
                fault(salts, is_bytes(salts)),
                fault(auth, is_bytes(auth)),
            ];
            match parse::as_hmac_input(Item::Table(m)) {
                Ok(input) => {
                    &&& is_faultless(faults)
                    &&& parse::as_cose_key(key->Some_0) == Ok::<
                        (Seq<u8>, Seq<u8>),
                        Ctap2StatusCode,
                    >(input.key_agreement)
                    &&& salts == Some(Item::ByteString(input.salt_enc))
                    &&& auth == Some(Item::ByteString(input.salt_auth))
                },
                Err(e) => is_first_fault(faults, e),
            }
        }),
{
    law_entries_are_found(m, Item::Unsigned(1), key);
    law_entries_are_found(m, Item::Unsigned(2), salts);
    law_entries_are_found(m, Item::Unsigned(3), auth);
    let first = need_fault(key, parse::as_cose_key(key->Some_0));
    let faults = seq![first, fault(salts, is_bytes(salts)), fault(auth, is_bytes(auth))];
    assert(faults[0] == first);
    assert(faults[1] == fault(salts, is_bytes(salts)));
    assert(faults[2] == fault(auth, is_bytes(auth)));
}

/// The one extension that a credential can be used with is read.
pub proof fn law_use_extensions_are_read(m: Seq<(Item, Item)>, secret: Option<Item>)
    requires
        says(m, name_key("hmac-secret"@), secret),
    ensures
        match parse::as_get_extensions(Item::Table(m)) {
            Ok(None) => secret is None,
            Ok(Some(input)) => secret is Some && parse::as_hmac_input(secret->Some_0) == Ok::<
                _,
                Ctap2StatusCode,
            >(input),
            Err(e) => secret is Some && parse::as_hmac_input(secret->Some_0) == Err::<
                parse::HmacInputModel,
                _,
            >(e),
        },
{
    law_entries_are_found(m, name_key("hmac-secret"@), secret);
}

/// What is asked about the PIN is read by its number.
pub proof fn law_sub_command_is_read(value: Item)
    ensures
        match parse::as_sub_command(value) {
            Ok(ClientPinSubCommand::GetPinRetries) => value == Item::Unsigned(1),
            Ok(ClientPinSubCommand::GetKeyAgreement) => value == Item::Unsigned(2),
            Ok(ClientPinSubCommand::SetPin) => value == Item::Unsigned(3),
            Ok(ClientPinSubCommand::ChangePin) => value == Item::Unsigned(4),
            Ok(ClientPinSubCommand::GetPinToken) => value == Item::Unsigned(5),
            Ok(ClientPinSubCommand::GetPinUvAuthTokenUsingUvWithPermissions) => value
                == Item::Unsigned(6),
            Ok(ClientPinSubCommand::GetUvRetries) => value == Item::Unsigned(7),
            Ok(ClientPinSubCommand::SetMinPinLength) => value == Item::Unsigned(8),
            Ok(ClientPinSubCommand::GetPinUvAuthTokenUsingPinWithPermissions) => value
                == Item::Unsigned(9),
            Err(e) => match value {
                Item::Unsigned(n) => !(1 <= n <= 9) && e
                    == Ctap2StatusCode::CTAP1_ERR_INVALID_PARAMETER,
                _ => e == Ctap2StatusCode::CTAP2_ERR_CBOR_UNEXPECTED_TYPE,
            },
        },
{
}

/// Whether something was of another kind than expected.
pub open spec fn is_refused<T>(result: Result<T, Ctap2StatusCode>) -> bool {
    result is Err && result->Err_0 == Ctap2StatusCode::CTAP2_ERR_CBOR_UNEXPECTED_TYPE
}

/// Nothing that has named or numbered parts is read from what is no map, and no
/// list from what is none.
pub proof fn law_other_kinds_are_refused(value: Item)
    ensures
        !(value is Table) ==> {
            &&& is_refused(parse::as_rp(value))
            &&& is_refused(parse::as_user(value))
            &&& is_refused(parse::as_parameter(value))
            &&& is_refused(parse::as_descriptor(value))
            &&& is_refused(parse::as_make_extensions(value))
            &&& is_refused(parse::as_make_options(value))
            &&& is_refused(parse::as_get_options(value))
            &&& is_refused(parse::as_get_extensions(value))
            &&& is_refused(parse::as_cose_key(value))
            &&& is_refused(parse::as_hmac_input(value))
            &&& is_refused(command::as_make_credential(value))
            &&& is_refused(command::as_get_assertion(value))
            &&& is_refused(command::as_client_pin(value))
        },
        !(value is Array) ==> {
            &&& is_refused(parse::as_parameters(value))
            &&& is_refused(parse::as_transports(value))
            &&& is_refused(parse::as_descriptors(value))
            &&& is_refused(parse::as_texts(value))
        },
{
}

/// Whether something that need not be there was read, if it is.
pub open spec fn is_optional<T>(
    read: Option<T>,
    value: Option<Item>,
    result: Result<T, Ctap2StatusCode>,
) -> bool {
    match read {
        Some(t) => value is Some && result == Ok::<T, Ctap2StatusCode>(t),
        None => value is None,
    }
}

/// A request for a credential is read.
#[verifier::rlimit(40)]
pub proof fn law_making_is_read(
    m: Seq<(Item, Item)>,
    hash: Option<Item>,
    rp: Option<Item>,
    user: Option<Item>,
    parameters: Option<Item>,
    exclude: Option<Item>,
    extensions: Option<Item>,
    options: Option<Item>,
    auth: Option<Item>,
    protocol: Option<Item>,
)
    requires
        says(m, Item::Unsigned(1), hash),
        says(m, Item::Unsigned(2), rp),
        says(m, Item::Unsigned(3), user),
        says(m, Item::Unsigned(4), parameters),
        says(m, Item::Unsigned(5), exclude),
        says(m, Item::Unsigned(6), extensions),
        says(m, Item::Unsigned(7), options),
        says(m, Item::Unsigned(8), auth),
        says(m, Item::Unsigned(9), protocol),
    ensures
        ({
            let faults = seq![
                fault(hash, is_bytes(hash)),
                need_fault(rp, parse::as_rp(rp->Some_0)),
                need_fault(user, parse::as_user(user->Some_0)),
                need_fault(parameters, parse::as_parameters(parameters->Some_0)),
                read_fault(exclude, parse::as_descriptors(exclude->Some_0)),
                read_fault(extensions, parse::as_make_extensions(extensions->Some_0)),
                read_fault(options, parse::as_make_options(options->Some_0)),
                kind_fault(auth, is_bytes(auth)),
                kind_fault(protocol, is_number(protocol)),
            ];
            match command::as_make_credential(Item::Table(m)) {
                Ok(request) => {
                    &&& is_faultless(faults)
                    &&& hash == Some(Item::ByteString(request.client_data_hash))
                    &&& is_optional(Some(request.rp), rp, parse::as_rp(rp->Some_0))
                    &&& is_optional(Some(request.user), user, parse::as_user(user->Some_0))
                    &&& is_optional(
                        Some(request.pub_key_cred_params),
                        parameters,
                        parse::as_parameters(parameters->Some_0),
                    )
                    &&& is_optional(
                        request.exclude_list,
                        exclude,
                        parse::as_descriptors(exclude->Some_0),
                    )
                    &&& is_optional(
                        request.extensions,
                        extensions,
                        parse::as_make_extensions(extensions->Some_0),
                    )
                    &&& options is None ==> !request.options.rk && !request.options.uv
                    &&& options is Some ==> is_optional(
                        Some(request.options),
                        options,
                        parse::as_make_options(options->Some_0),
                    )
                    &&& auth == bytes_item(request.pin_uv_auth_param)
                    &&& protocol == number_item(request.pin_uv_auth_protocol)
                },
                Err(e) => is_first_fault(faults, e),
            }
        }),
{
    law_entries_are_found(m, Item::Unsigned(1), hash);
    law_entries_are_found(m, Item::Unsigned(2), rp);
    law_entries_are_found(m, Item::Unsigned(3), user);
    law_entries_are_found(m, Item::Unsigned(4), parameters);
    law_entries_are_found(m, Item::Unsigned(5), exclude);
    law_entries_are_found(m, Item::Unsigned(6), extensions);
    law_entries_are_found(m, Item::Unsigned(7), options);
    law_entries_are_found(m, Item::Unsigned(8), auth);
    law_entries_are_found(m, Item::Unsigned(9), protocol);
    let f0 = fault(hash, is_bytes(hash));
    let f1 = need_fault(rp, parse::as_rp(rp->Some_0));
    let f2 = need_fault(user, parse::as_user(user->Some_0));
    let f3 = need_fault(parameters, parse::as_parameters(parameters->Some_0));
    let f4 = read_fault(exclude, parse::as_descriptors(exclude->Some_0));
    let f5 = read_fault(extensions, parse::as_make_extensions(extensions->Some_0));
    let f6 = read_fault(options, parse::as_make_options(options->Some_0));
    let f7 = kind_fault(auth, is_bytes(auth));
    let f8 = kind_fault(protocol, is_number(protocol));
    let faults = seq![f0, f1, f2, f3, f4, f5, f6, f7, f8];
    assert(faults[0] == f0);
    assert(faults[1] == f1);
    assert(faults[2] == f2);
    assert(faults[3] == f3);
    assert(faults[4] == f4);
    assert(faults[5] == f5);
    assert(faults[6] == f6);
    assert(faults[7] == f7);
    assert(faults[8] == f8);
}

/// A request to use a credential is read.
#[verifier::rlimit(40)]
pub proof fn law_use_is_read(
    m: Seq<(Item, Item)>,
    rp_id: Option<Item>,
    hash: Option<Item>,
    allow: Option<Item>,
    extensions: Option<Item>,
    options: Option<Item>,
    auth: Option<Item>,
    protocol: Option<Item>,
)
    requires
        says(m, Item::Unsigned(1), rp_id),
        says(m, Item::Unsigned(2), hash),
        says(m, Item::Unsigned(3), allow),
        says(m, Item::Unsigned(4), extensions),
        says(m, Item::Unsigned(5), options),
        says(m, Item::Unsigned(6), auth),
        says(m, Item::Unsigned(7), protocol),
    ensures
        ({
            let faults = seq![
                fault(rp_id, is_text(rp_id)),
                fault(hash, is_bytes(hash)),
                read_fault(allow, parse::as_descriptors(allow->Some_0)),
                read_fault(extensions, parse::as_get_extensions(extensions->Some_0)),
                read_fault(options, parse::as_get_options(options->Some_0)),
                kind_fault(auth, is_bytes(auth)),
                kind_fault(protocol, is_number(protocol)),
            ];
            match command::as_get_assertion(Item::Table(m)) {
                Ok(request) => {
                    &&& is_faultless(faults)
                    &&& rp_id == Some(Item::TextString(request.rp_id))
                    &&& hash == Some(Item::ByteString(request.client_data_hash))
                    &&& is_optional(
                        request.allow_list,
                        allow,
                        parse::as_descriptors(allow->Some_0),
                    )
                    &&& is_optional(
                        request.extensions,
                        extensions,
                        parse::as_get_extensions(extensions->Some_0),
                    )
                    &&& options is None ==> request.options.up && !request.options.uv
                    &&& options is Some ==> is_optional(
                        Some(request.options),
                        options,
                        parse::as_get_options(options->Some_0),
                    )
                    &&& auth == bytes_item(request.pin_uv_auth_param)
                    &&& protocol == number_item(request.pin_uv_auth_protocol)
                },
                Err(e) => is_first_fault(faults, e),
            }
        }),
{
    law_entries_are_found(m, Item::Unsigned(1), rp_id);
    law_entries_are_found(m, Item::Unsigned(2), hash);
    law_entries_are_found(m, Item::Unsigned(3), allow);
    law_entries_are_found(m, Item::Unsigned(4), extensions);
    law_entries_are_found(m, Item::Unsigned(5), options);
    law_entries_are_found(m, Item::Unsigned(6), auth);
    law_entries_are_found(m, Item::Unsigned(7), protocol);
    let f0 = fault(rp_id, is_text(rp_id));
    let f1 = fault(hash, is_bytes(hash));
    let f2 = read_fault(allow, parse::as_descriptors(allow->Some_0));
    let f3 = read_fault(extensions, parse::as_get_extensions(extensions->Some_0));
    let f4 = read_fault(options, parse::as_get_options(options->Some_0));
    let f5 = kind_fault(auth, is_bytes(auth));
    let f6 = kind_fault(protocol, is_number(protocol));
    let faults = seq![f0, f1, f2, f3, f4, f5, f6];
    assert(faults[0] == f0);
    assert(faults[1] == f1);
    assert(faults[2] == f2);
    assert(faults[3] == f3);
    assert(faults[4] == f4);
    assert(faults[5] == f5);
    assert(faults[6] == f6);
}

/// A request about the PIN is read.
#[verifier::rlimit(40)]
pub proof fn law_pin_request_is_read(
    m: Seq<(Item, Item)>,
    protocol: Option<Item>,
    sub_command: Option<Item>,
    key: Option<Item>,
    auth: Option<Item>,
    new_pin: Option<Item>,
    pin_hash: Option<Item>,
    min_length: Option<Item>,
    rp_ids: Option<Item>,
    permissions: Option<Item>,
    rp_id: Option<Item>,
)
    requires
        says(m, Item::Unsigned(1), protocol),
        says(m, Item::Unsigned(2), sub_command),
        says(m, Item::Unsigned(3), key),
        says(m, Item::Unsigned(4), auth),
        says(m, Item::Unsigned(5), new_pin),
        says(m, Item::Unsigned(6), pin_hash),
        says(m, Item::Unsigned(7), min_length),
        says(m, Item::Unsigned(8), rp_ids),
        says(m, Item::Unsigned(9), permissions),
        says(m, Item::Unsigned(10), rp_id),
    ensures
        ({
            let faults = seq![
                fault(protocol, is_number(protocol)),
                need_fault(sub_command, parse::as_sub_command(sub_command->Some_0)),
                read_fault(key, parse::as_cose_key(key->Some_0)),
                kind_fault(auth, is_bytes(auth)),
                kind_fault(new_pin, is_bytes(new_pin)),
                kind_fault(pin_hash, is_bytes(pin_hash)),
                kind_fault(min_length, is_number(min_length)),
                read_fault(rp_ids, parse::as_texts(rp_ids->Some_0)),
                kind_fault(permissions, is_number(permissions)),
                kind_fault(rp_id, is_text(rp_id)),
            ];
            match command::as_client_pin(Item::Table(m)) {
                Ok(request) => {
                    &&& is_faultless(faults)
                    &&& protocol == Some(Item::Unsigned(request.pin_protocol))
                    &&& is_optional(
                        Some(request.sub_command),
                        sub_command,
                        parse::as_sub_command(sub_command->Some_0),
                    )
                    &&& is_optional(
                        request.key_agreement,
                        key,
                        parse::as_cose_key(key->Some_0),
                    )
                    &&& auth == bytes_item(request.pin_auth)
                    &&& new_pin == bytes_item(request.new_pin_enc)
                    &&& pin_hash == bytes_item(request.pin_hash_enc)
                    &&& min_length == number_item(request.min_pin_length)
                    &&& is_optional(
                        request.min_pin_length_rp_ids,
                        rp_ids,
                        parse::as_texts(rp_ids->Some_0),
                    )
                    &&& match permissions {
                        Some(Item::Unsigned(n)) => request.permissions is Some
                            && request.permissions->Some_0 as int == n % 256,
                        _ => request.permissions is None,
                    }
                    &&& rp_id == text_item(request.permissions_rp_id)
                },
                Err(e) => is_first_fault(faults, e),
            }
        }),
{
    law_entries_are_found(m, Item::Unsigned(1), protocol);
    law_entries_are_found(m, Item::Unsigned(2), sub_command);
    law_entries_are_found(m, Item::Unsigned(3), key);
    law_entries_are_found(m, Item::Unsigned(4), auth);
    law_entries_are_found(m, Item::Unsigned(5), new_pin);
    law_entries_are_found(m, Item::Unsigned(6), pin_hash);
    law_entries_are_found(m, Item::Unsigned(7), min_length);
    law_entries_are_found(m, Item::Unsigned(8), rp_ids);
    law_entries_are_found(m, Item::Unsigned(9), permissions);
    law_entries_are_found(m, Item::Unsigned(10), rp_id);
    let f0 = fault(protocol, is_number(protocol));
    let f1 = need_fault(sub_command, parse::as_sub_command(sub_command->Some_0));
    let f2 = read_fault(key, parse::as_cose_key(key->Some_0));
    let f3 = kind_fault(auth, is_bytes(auth));
    let f4 = kind_fault(new_pin, is_bytes(new_pin));
    let f5 = kind_fault(pin_hash, is_bytes(pin_hash));
    let f6 = kind_fault(min_length, is_number(min_length));
    let f7 = read_fault(rp_ids, parse::as_texts(rp_ids->Some_0));
    let f8 = kind_fault(permissions, is_number(permissions));
    let f9 = kind_fault(rp_id, is_text(rp_id));
    let faults = seq![f0, f1, f2, f3, f4, f5, f6, f7, f8, f9];
    assert(faults[0] == f0);
    assert(faults[1] == f1);
    assert(faults[2] == f2);
    assert(faults[3] == f3);
    assert(faults[4] == f4);
    assert(faults[5] == f5);
    assert(faults[6] == f6);
    assert(faults[7] == f7);
    assert(faults[8] == f8);
    assert(faults[9] == f9);
}

/// Whether reading the parameters of a request gave this result.
pub open spec fn is_result_of<T>(
    read: Result<T, Ctap2StatusCode>,
    result: Result<CommandModel, Ctap2StatusCode>,
    request: CommandModel,
) -> bool {
    match read {
        Ok(_) => result == Ok::<CommandModel, Ctap2StatusCode>(request),
        Err(e) => result == Err::<CommandModel, Ctap2StatusCode>(e),
    }
}

/// The first byte of a request tells what is asked for. Where there are
/// parameters, they follow, encoded.
pub proof fn law_first_byte_is_the_command(first: u8, rest: Seq<u8>)
    ensures
        command::command_of(Seq::empty()) == Err::<CommandModel, _>(
            Ctap2StatusCode::CTAP2_ERR_MISSING_PARAMETER,
        ),
        first == 4 ==> command::command_of(seq![first] + rest) == Ok::<_, Ctap2StatusCode>(
            CommandModel::GetInfo,
        ),
        first == 7 ==> command::command_of(seq![first] + rest) == Ok::<_, Ctap2StatusCode>(
            CommandModel::Reset,
        ),
        first == 8 ==> command::command_of(seq![first] + rest) == Ok::<_, Ctap2StatusCode>(
            CommandModel::GetNextAssertion,
        ),
        first == 11 ==> command::command_of(seq![first] + rest) == Ok::<_, Ctap2StatusCode>(
            CommandModel::Selection,
        ),
        first != 1 && first != 2 && first != 4 && first != 6 && first != 7 && first != 8 && first
            != 11 ==> command::command_of(seq![first] + rest) == Err::<CommandModel, _>(
            Ctap2StatusCode::CTAP1_ERR_INVALID_COMMAND,
        ),
        (first == 1 || first == 2 || first == 6) && (forall|v: Item| #[trigger]
            reader::readable(v) ==> model::encode(v) != rest) ==> command::command_of(
            seq![first] + rest,
        ) == Err::<CommandModel, _>(Ctap2StatusCode::CTAP2_ERR_INVALID_CBOR),
{
    assert((seq![first] + rest).skip(1) =~= rest);
}

/// The parameters that are encoded in a request are those that are read.
pub proof fn law_parameters_are_read(item: Item)
    requires
        reader::readable(item),
    ensures
        is_result_of(
            command::as_make_credential(item),
            command::command_of(seq![1u8] + model::encode(item)),
            CommandModel::MakeCredential(command::as_make_credential(item)->Ok_0),
        ),
        is_result_of(
            command::as_get_assertion(item),
            command::command_of(seq![2u8] + model::encode(item)),
            CommandModel::GetAssertion(command::as_get_assertion(item)->Ok_0),
        ),
        is_result_of(
            command::as_client_pin(item),
            command::command_of(seq![6u8] + model::encode(item)),
            CommandModel::ClientPin(command::as_client_pin(item)->Ok_0),
        ),
{
    let data = model::encode(item);
    assert((seq![1u8] + data).skip(1) =~= data);
    assert((seq![2u8] + data).skip(1) =~= data);
    assert((seq![6u8] + data).skip(1) =~= data);
    let read = choose|v: Item| #[trigger] reader::readable(v) && model::encode(v) == data;
    reader::law_encoding_is_injective(read, item);
}

/// Whether an optional text is the one that is seen.
pub open spec fn sees_text(seen: Option<Seq<char>>, text: Option<String>) -> bool {
    match text {
        Some(s) => seen == Some(s@),
        None => seen is None,
    }
}

/// Whether optional bytes are those that are seen.
pub open spec fn sees_bytes(seen: Option<Seq<u8>>, bytes: Option<Vec<u8>>) -> bool {
    match bytes {
        Some(s) => seen == Some(s@),
        None => seen is None,
    }
}

/// Whether an optional list of names of credentials is the one that is seen.
pub open spec fn sees_names(
    seen: Option<Seq<parse::DescriptorModel>>,
    list: Option<Vec<PublicKeyCredentialDescriptor>>,
) -> bool {
    match list {
        Some(l) => seen is Some && seen->Some_0.len() == l@.len() && forall|i: int|
            0 <= i < l@.len() ==> (#[trigger] seen->Some_0[i]).key_id == l@[i].key_id@
                && seen->Some_0[i].key_type == l@[i].key_type && (match l@[i].transports {
                Some(t) => seen->Some_0[i].transports == Some(t@),
                None => seen->Some_0[i].transports is None,
            }),
        None => seen is None,
    }
}

/// Of a request, all is seen that it holds.
pub proof fn law_requests_are_seen_whole(
    making: AuthenticatorMakeCredentialParameters,
    using: AuthenticatorGetAssertionParameters,
    pin: AuthenticatorClientPinParameters,
)
    ensures
        making@.client_data_hash == making.client_data_hash@,
        making@.rp.rp_id == making.rp.rp_id@,
        sees_text(making@.rp.rp_name, making.rp.rp_name),
        sees_text(making@.rp.rp_icon, making.rp.rp_icon),
        making@.user.user_id == making.user.user_id@,
        sees_text(making@.user.user_name, making.user.user_name),
        sees_text(making@.user.user_display_name, making.user.user_display_name),
        sees_text(making@.user.user_icon, making.user.user_icon),
        making@.pub_key_cred_params == making.pub_key_cred_params@,
        sees_names(making@.exclude_list, making.exclude_list),
        making@.extensions == making.extensions,
        making@.options == making.options,
        sees_bytes(making@.pin_uv_auth_param, making.pin_uv_auth_param),
        making@.pin_uv_auth_protocol == making.pin_uv_auth_protocol,
        using@.rp_id == using.rp_id@,
        using@.client_data_hash == using.client_data_hash@,
        sees_names(using@.allow_list, using.allow_list),
        match using.extensions {
            Some(extensions) => using@.extensions is Some && match extensions.hmac_secret {
                Some(input) => {
                    &&& using@.extensions->Some_0 is Some
                    &&& using@.extensions->Some_0->Some_0.key_agreement == (
                        input.key_agreement.x@,
                        input.key_agreement.y@,
                    )
                    &&& using@.extensions->Some_0->Some_0.salt_enc == input.salt_enc@
                    &&& using@.extensions->Some_0->Some_0.salt_auth == input.salt_auth@
                },
                None => using@.extensions->Some_0 is None,
            },
            None => using@.extensions is None,
        },
        using@.options == using.options,
        sees_bytes(using@.pin_uv_auth_param, using.pin_uv_auth_param),
        using@.pin_uv_auth_protocol == using.pin_uv_auth_protocol,
        pin@.pin_protocol == pin.pin_protocol,
        pin@.sub_command == pin.sub_command,
        match pin.key_agreement {
            Some(key) => pin@.key_agreement == Some((key.x@, key.y@)),
            None => pin@.key_agreement is None,
        },
        sees_bytes(pin@.pin_auth, pin.pin_auth),
        sees_bytes(pin@.new_pin_enc, pin.new_pin_enc),
        sees_bytes(pin@.pin_hash_enc, pin.pin_hash_enc),
        pin@.min_pin_length == pin.min_pin_length,
        match pin.min_pin_length_rp_ids {
            Some(list) => pin@.min_pin_length_rp_ids is Some
                && pin@.min_pin_length_rp_ids->Some_0.len() == list@.len() && forall|i: int|
                0 <= i < list@.len() ==> #[trigger] pin@.min_pin_length_rp_ids->Some_0[i]
                    == list@[i]@,
            None => pin@.min_pin_length_rp_ids is None,
        },
        pin@.permissions == pin.permissions,
        sees_text(pin@.permissions_rp_id, pin.permissions_rp_id),
        Command::AuthenticatorMakeCredential(making)@ == CommandModel::MakeCredential(making@),
        Command::AuthenticatorGetAssertion(using)@ == CommandModel::GetAssertion(using@),
        Command::AuthenticatorClientPin(pin)@ == CommandModel::ClientPin(pin@),
        Command::AuthenticatorGetInfo@ == CommandModel::GetInfo,
        Command::AuthenticatorReset@ == CommandModel::Reset,
        Command::AuthenticatorGetNextAssertion@ == CommandModel::GetNextAssertion,
        Command::AuthenticatorSelection@ == CommandModel::Selection,
{
}

} // verus!
