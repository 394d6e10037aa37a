//! What the encoded answers hold.

use crate::cbor::builder;
use crate::cbor::model;
use crate::cbor::model::Item;
use crate::ctap::data_formats::{
    AuthenticatorTransport, CredentialProtectionPolicy, PackedAttestationStatement,
    PublicKeyCredentialDescriptor, PublicKeyCredentialParameter, PublicKeyCredentialType,
    PublicKeyCredentialUserEntity, SignatureAlgorithm,
};
use crate::ctap::process;
use crate::ctap::response;
use crate::ctap::response::{
    AuthenticatorClientPinResponse, AuthenticatorGetAssertionResponse,
    AuthenticatorGetInfoResponse, AuthenticatorMakeCredentialResponse, ResponseData,
};
use crate::ctap::status_code::Ctap2StatusCode;
use vstd::prelude::*;

verus! {

/// Whether entries give a key exactly this value, or none.
pub open spec fn gives(entries: Seq<(Item, Item)>, key: Item, value: Option<Item>) -> bool {
    &&& forall|i: int|
        0 <= i < entries.len() && (#[trigger] entries[i]).0 == key ==> value == Some(entries[i].1)
    &&& value matches Some(v) ==> exists|i: int|
        0 <= i < entries.len() && #[trigger] entries[i] == (key, v)
}

proof fn lemma_gives_none(a: Seq<(Item, Item)>, b: Seq<(Item, Item)>, key: Item, value: Option<Item>)
    requires
        gives(a, key, value) && gives(b, key, None) || gives(a, key, None) && gives(b, key, value),
    ensures
        gives(a + b, key, value),
{
    let both = a + b;
    assert forall|i: int| 0 <= i < both.len() && (#[trigger] both[i]).0 == key implies value == Some(
        both[i].1,
    ) by {
        if i < a.len() {
            assert(both[i] == a[i]);
        } else {
            assert(both[i] == b[i - a.len()]);
        }
    }
    if let Some(v) = value {
        if gives(a, key, value) {
            let i = choose|i: int| 0 <= i < a.len() && #[trigger] a[i] == (key, v);
            assert(both[i] == (key, v));
        } else {
            let i = choose|i: int| 0 <= i < b.len() && #[trigger] b[i] == (key, v);
            assert(both[i + a.len()] == (key, v));
        }
    }
}

/// What an optional entry gives.
proof fn lemma_optional(key: Item, value: Option<Item>)
    ensures
        gives(builder::optional_entry(key, value), key, value),
        forall|other: Item|
            other != key ==> #[trigger] gives(builder::optional_entry(key, value), other, None),
{
    if let Some(v) = value {
        assert(builder::optional_entry(key, value)[0] == (key, v));
    }
}

/// The entries of optional parts, one after the other.
spec fn joined(parts: Seq<(Item, Option<Item>)>) -> Seq<(Item, Item)>
    decreases parts.len(),
{
    if parts.len() == 0 {
        Seq::empty()
    } else {
        joined(parts.drop_last()) + builder::optional_entry(parts.last().0, parts.last().1)
    }
}

/// Parts with different keys give each key its value, and no other key any.
proof fn lemma_joined(parts: Seq<(Item, Option<Item>)>)
    requires
        forall|i: int, j: int|
            0 <= i < j < parts.len() ==> (#[trigger] parts[i]).0 != (#[trigger] parts[j]).0,
    ensures
        forall|i: int|
            0 <= i < parts.len() ==> gives(
                joined(parts),
                (#[trigger] parts[i]).0,
                parts[i].1,
            ),
        forall|key: Item|
            (forall|i: int| 0 <= i < parts.len() ==> (#[trigger] parts[i]).0 != key)
                ==> #[trigger] gives(joined(parts), key, None),
    decreases parts.len(),
{
    if parts.len() > 0 {
        let rest = parts.drop_last();
        let last = parts.last();
        lemma_joined(rest);
        lemma_optional(last.0, last.1);
        let end = builder::optional_entry(last.0, last.1);
        assert forall|i: int| 0 <= i < parts.len() implies gives(
            joined(parts),
            (#[trigger] parts[i]).0,
            parts[i].1,
        ) by {
            if i < rest.len() {
                assert(rest[i] == parts[i]);
                assert(parts[i].0 != parts[parts.len() - 1].0);
                lemma_gives_none(joined(rest), end, parts[i].0, parts[i].1);
            } else {
                assert(gives(joined(rest), last.0, None));
                lemma_gives_none(joined(rest), end, last.0, last.1);
            }
        }
        assert forall|key: Item|
            (forall|i: int| 0 <= i < parts.len() ==> (#[trigger] parts[i]).0 != key) implies
            #[trigger] gives(joined(parts), key, None) by {
            assert forall|i: int| 0 <= i < rest.len() implies (#[trigger] rest[i]).0 != key by {
                assert(parts[i].0 != key);
            }
            assert(parts[parts.len() - 1].0 != key);
            lemma_gives_none(joined(rest), end, key, None);
        }
    }
}

/// The names of entries are different.
pub proof fn lemma_names()
    ensures
        "alg"@ != "sig"@ && "alg"@ != "x5c"@ && "sig"@ != "x5c"@,
        "ecdaaKeyId"@ != "alg"@ && "ecdaaKeyId"@ != "sig"@ && "ecdaaKeyId"@ != "x5c"@,
        "id"@ != "type"@ && "id"@ != "transports"@ && "type"@ != "transports"@,
        "id"@ != "icon"@ && "id"@ != "name"@ && "id"@ != "displayName"@,
        "icon"@ != "name"@ && "icon"@ != "displayName"@ && "name"@ != "displayName"@,
        "alg"@ != "type"@,
        "rk"@ != "up"@ && "rk"@ != "clientPin"@ && "up"@ != "clientPin"@,
{
    reveal_strlit("alg");
    reveal_strlit("sig");
    reveal_strlit("x5c");
    reveal_strlit("ecdaaKeyId");
    reveal_strlit("id");
    reveal_strlit("type");
    reveal_strlit("transports");
    reveal_strlit("icon");
    reveal_strlit("name");
    reveal_strlit("displayName");
    reveal_strlit("rk");
    reveal_strlit("up");
    reveal_strlit("clientPin");
    assert("id"@.len() == 2 && "type"@.len() == 4 && "transports"@.len() == 10);
    assert("icon"@.len() == 4 && "name"@.len() == 4 && "displayName"@.len() == 11);
    assert("alg"@.len() == 3 && "rk"@.len() == 2 && "clientPin"@.len() == 9);
    assert("alg"@[0] == 'a' && "sig"@[0] == 's' && "x5c"@[0] == 'x');
    assert("icon"@[0] == 'i' && "name"@[0] == 'n');
    assert("rk"@[0] == 'r' && "up"@[0] == 'u');
}

/// Whether an item is the list of these texts.
pub open spec fn is_text_list(item: Item, list: Seq<String>) -> bool {
    item matches Item::Array(items) && items.len() == list.len() && forall|i: int|
        0 <= i < list.len() ==> #[trigger] items[i] == Item::TextString(list[i]@)
}

/// The item that an entry of an answer to GetInfo has to be.
pub open spec fn is_options_map(item: Item, options: Seq<(String, bool)>) -> bool {
    item matches Item::Table(entries) && entries.len() == options.len() && forall|i: int|
        0 <= i < options.len() ==> #[trigger] entries[i] == (
            Item::TextString(options[i].0@),
            Item::Simple(
                if options[i].1 {
                    model::SimpleValue::TrueValue
                } else {
                    model::SimpleValue::FalseValue
                },
            ),
        )
}

/// The answer to a request about the PIN holds the key for key agreement under
/// 1, the token under 2 and the tries under 3, each if it is there.
pub proof fn law_pin_answer_holds(answer: AuthenticatorClientPinResponse)
    ensures
        response::response_item(ResponseData::AuthenticatorClientPin(Some(answer))) matches Some(
            Item::Table(entries),
        ) && {
            &&& gives(
                entries,
                Item::Unsigned(1),
                match answer.key_agreement {
                    Some(key) => Some(
                        Item::Table(
                            seq![
                                (Item::Unsigned(1), Item::Unsigned(2)),
                                (Item::Unsigned(3), Item::Negative(24)),
                                (Item::Negative(0), Item::Unsigned(1)),
                                (Item::Negative(1), Item::ByteString(key.x@)),
                                (Item::Negative(2), Item::ByteString(key.y@)),
                            ],
                        ),
                    ),
                    None => None,
                },
            )
            &&& gives(
                entries,
                Item::Unsigned(2),
                match answer.pin_token {
                    Some(token) => Some(Item::ByteString(token@)),
                    None => None,
                },
            )
            &&& gives(
                entries,
                Item::Unsigned(3),
                match answer.retries {
                    Some(n) => Some(Item::Unsigned(n)),
                    None => None,
                },
            )
        },
{
    let key = response::mapped(
        answer.key_agreement,
        |key: crate::ctap::data_formats::CoseKey| crate::crypto::ecdsa::cose_item(
            response::ECDH_NEGATED,
            key.x@,
            key.y@,
        ),
    );
    let token = response::mapped(answer.pin_token, |s: Vec<u8>| response::bytes_item(s));
    let retries = response::mapped(answer.retries, |n: u64| Item::Unsigned(n));
    let a = builder::optional_entry(Item::Unsigned(1), key);
    let b = builder::optional_entry(Item::Unsigned(2), token);
    let c = builder::optional_entry(Item::Unsigned(3), retries);
    lemma_optional(Item::Unsigned(1), key);
    lemma_optional(Item::Unsigned(2), token);
    lemma_optional(Item::Unsigned(3), retries);
    assert(response::client_pin_item(answer) == Item::Table(a + b + c));
    lemma_gives_none(a, b, Item::Unsigned(1), key);
    lemma_gives_none(a, b, Item::Unsigned(2), token);
    lemma_gives_none(a, b, Item::Unsigned(3), None);
    lemma_gives_none(a + b, c, Item::Unsigned(1), key);
    lemma_gives_none(a + b, c, Item::Unsigned(2), token);
    lemma_gives_none(a + b, c, Item::Unsigned(3), retries);
}

/// Whether an item is an attestation statement: its algorithm, its signature,
/// and the certificates and the key ID if they are there.
pub open spec fn is_statement(item: Item, statement: PackedAttestationStatement) -> bool {
    item matches Item::Table(entries) && {
        &&& gives(
            entries,
            Item::TextString("alg"@),
            Some(
                if statement.alg >= 0 {
                    Item::Unsigned(statement.alg as u64)
                } else {
                    Item::Negative((-1 - statement.alg) as u64)
                },
            ),
        )
        &&& gives(entries, Item::TextString("sig"@), Some(Item::ByteString(statement.sig@)))
        &&& match statement.x5c {
            None => gives(entries, Item::TextString("x5c"@), None),
            Some(list) => exists|items: Seq<Item>| #[trigger]
                is_byte_string_list(items, list@) && gives(
                    entries,
                    Item::TextString("x5c"@),
                    Some(Item::Array(items)),
                ),
        }
        &&& gives(
            entries,
            Item::TextString("ecdaaKeyId"@),
            match statement.ecdaa_key_id {
                Some(id) => Some(Item::ByteString(id@)),
                None => None,
            },
        )
    }
}

/// Whether items are these byte strings.
pub open spec fn is_byte_string_list(items: Seq<Item>, list: Seq<Vec<u8>>) -> bool {
    items.len() == list.len() && forall|i: int|
        0 <= i < list.len() ==> #[trigger] items[i] == Item::ByteString(list[i]@)
}

proof fn lemma_statement(statement: PackedAttestationStatement)
    ensures
        is_statement(response::attestation_item(statement), statement),
{
    lemma_names();
    let x5c = response::mapped(
        statement.x5c,
        |list: Vec<Vec<u8>>| response::byte_strings_item(list@),
    );
    let id = response::mapped(statement.ecdaa_key_id, |s: Vec<u8>| response::bytes_item(s));
    let alg = builder::integer_item(statement.alg as int);
    let parts: Seq<(Item, Option<Item>)> = seq![
        (Item::TextString("alg"@), Some(alg)),
        (Item::TextString("sig"@), Some(Item::ByteString(statement.sig@))),
        (Item::TextString("x5c"@), x5c),
        (Item::TextString("ecdaaKeyId"@), id),
    ];
    lemma_joined(parts);
    reveal_with_fuel(joined, 5);
    assert(response::attestation_item(statement)->Table_0 =~= joined(parts));
    let entries = joined(parts);
    assert(gives(entries, parts[0].0, parts[0].1));
    assert(gives(entries, parts[1].0, parts[1].1));
    assert(gives(entries, parts[2].0, parts[2].1));
    assert(gives(entries, parts[3].0, parts[3].1));
    if let Some(list) = statement.x5c {
        let items = response::byte_strings_item(list@)->Array_0;
        assert(is_byte_string_list(items, list@));
    }
}

/// The answer that a credential was made holds the format under 1, the data
/// under 2 and the attestation statement under 3.
pub proof fn law_make_answer_holds(answer: AuthenticatorMakeCredentialResponse)
    ensures
        response::response_item(ResponseData::AuthenticatorMakeCredential(answer)) matches Some(
            Item::Table(entries),
        ) && {
            &&& gives(entries, Item::Unsigned(1), Some(Item::TextString(answer.fmt@)))
            &&& gives(entries, Item::Unsigned(2), Some(Item::ByteString(answer.auth_data@)))
            &&& exists|statement: Item| #[trigger]
                is_statement(statement, answer.att_stmt) && gives(
                    entries,
                    Item::Unsigned(3),
                    Some(statement),
                )
        },
{
    let statement = response::attestation_item(answer.att_stmt);
    lemma_statement(answer.att_stmt);
    let parts: Seq<(Item, Option<Item>)> = seq![
        (Item::Unsigned(1), Some(Item::TextString(answer.fmt@))),
        (Item::Unsigned(2), Some(Item::ByteString(answer.auth_data@))),
        (Item::Unsigned(3), Some(statement)),
    ];
    lemma_joined(parts);
    reveal_with_fuel(joined, 4);
    assert(response::make_credential_item(answer)->Table_0 =~= joined(parts));
    let entries = joined(parts);
    assert(gives(entries, parts[0].0, parts[0].1));
    assert(gives(entries, parts[1].0, parts[1].1));
    assert(gives(entries, parts[2].0, parts[2].1));
}

/// Whether an item is a text, if there is one.
pub open spec fn text_if_any(text: Option<String>) -> Option<Item> {
    match text {
        Some(t) => Some(Item::TextString(t@)),
        None => None,
    }
}

/// Whether an item is a user: the ID, and the names and the icon if they are
/// there.
pub open spec fn is_user(item: Item, user: PublicKeyCredentialUserEntity) -> bool {
    item matches Item::Table(entries) && {
        &&& gives(entries, Item::TextString("id"@), Some(Item::ByteString(user.user_id@)))
        &&& gives(entries, Item::TextString("icon"@), text_if_any(user.user_icon))
        &&& gives(entries, Item::TextString("name"@), text_if_any(user.user_name))
        &&& gives(entries, Item::TextString("displayName"@), text_if_any(user.user_display_name))
    }
}

proof fn lemma_user(user: PublicKeyCredentialUserEntity)
    ensures
        is_user(response::user_item(user), user),
{
    lemma_names();
    let parts: Seq<(Item, Option<Item>)> = seq![
        (Item::TextString("id"@), Some(Item::ByteString(user.user_id@))),
        (Item::TextString("icon"@), text_if_any(user.user_icon)),
        (Item::TextString("name"@), text_if_any(user.user_name)),
        (Item::TextString("displayName"@), text_if_any(user.user_display_name)),
    ];
    lemma_joined(parts);
    reveal_with_fuel(joined, 5);
    assert(response::user_item(user)->Table_0 =~= joined(parts));
    let entries = joined(parts);
    assert(gives(entries, parts[0].0, parts[0].1));
    assert(gives(entries, parts[1].0, parts[1].1));
    assert(gives(entries, parts[2].0, parts[2].1));
    assert(gives(entries, parts[3].0, parts[3].1));
}

/// Whether an item names a credential: its ID and its kind, and no transports
/// if none are named.
pub open spec fn is_descriptor(item: Item, descriptor: PublicKeyCredentialDescriptor) -> bool {
    item matches Item::Table(entries) && {
        &&& gives(entries, Item::TextString("id"@), Some(Item::ByteString(descriptor.key_id@)))
        &&& descriptor.key_type == PublicKeyCredentialType::PublicKey ==> gives(
            entries,
            Item::TextString("type"@),
            Some(Item::TextString("public-key"@)),
        )
        &&& descriptor.transports is None ==> gives(entries, Item::TextString("transports"@), None)
    }
}

proof fn lemma_descriptor(descriptor: PublicKeyCredentialDescriptor)
    ensures
        is_descriptor(response::descriptor_item(descriptor), descriptor),
{
    lemma_names();
    let transports = response::mapped(
        descriptor.transports,
        |list: Vec<AuthenticatorTransport>| response::transports_item(list@),
    );
    let parts: Seq<(Item, Option<Item>)> = seq![
        (Item::TextString("id"@), Some(Item::ByteString(descriptor.key_id@))),
        (Item::TextString("type"@), Some(Item::TextString(descriptor.key_type.name()))),
        (Item::TextString("transports"@), transports),
    ];
    lemma_joined(parts);
    reveal_with_fuel(joined, 4);
    assert(response::descriptor_item(descriptor)->Table_0 =~= joined(parts));
    let entries = joined(parts);
    assert(gives(entries, parts[0].0, parts[0].1));
    assert(gives(entries, parts[1].0, parts[1].1));
    assert(gives(entries, parts[2].0, parts[2].1));
}

/// The answer that a credential was used holds the credential under 1, the data
/// under 2, the signature under 3, the user under 4 and the number of
/// credentials under 5, those that may be missing only if they are there.
pub proof fn law_use_answer_holds(answer: AuthenticatorGetAssertionResponse)
    ensures
        response::response_item(ResponseData::AuthenticatorGetAssertion(answer)) matches Some(
            Item::Table(entries),
        ) && {
            &&& match answer.credential {
                None => gives(entries, Item::Unsigned(1), None),
                Some(descriptor) => exists|item: Item| #[trigger]
                    is_descriptor(item, descriptor) && gives(
                        entries,
                        Item::Unsigned(1),
                        Some(item),
                    ),
            }
            &&& gives(entries, Item::Unsigned(2), Some(Item::ByteString(answer.auth_data@)))
            &&& gives(entries, Item::Unsigned(3), Some(Item::ByteString(answer.signature@)))
            &&& match answer.user {
                None => gives(entries, Item::Unsigned(4), None),
                Some(user) => exists|item: Item| #[trigger]
                    is_user(item, user) && gives(entries, Item::Unsigned(4), Some(item)),
            }
            &&& gives(
                entries,
                Item::Unsigned(5),
                match answer.number_of_credentials {
                    Some(n) => Some(Item::Unsigned(n)),
                    None => None,
                },
            )
        },
{
    let credential = response::mapped(
        answer.credential,
        |d: PublicKeyCredentialDescriptor| response::descriptor_item(d),
    );
    let user = response::mapped(
        answer.user,
        |u: PublicKeyCredentialUserEntity| response::user_item(u),
    );
    let number = response::mapped(answer.number_of_credentials, |n: u64| Item::Unsigned(n));
    if let Some(d) = answer.credential {
        lemma_descriptor(d);
    }
    if let Some(u) = answer.user {
        lemma_user(u);
    }
    let parts: Seq<(Item, Option<Item>)> = seq![
        (Item::Unsigned(1), credential),
        (Item::Unsigned(2), Some(Item::ByteString(answer.auth_data@))),
        (Item::Unsigned(3), Some(Item::ByteString(answer.signature@))),
        (Item::Unsigned(4), user),
        (Item::Unsigned(5), number),
    ];
    lemma_joined(parts);
    reveal_with_fuel(joined, 6);
    assert(response::get_assertion_item(answer)->Table_0 =~= joined(parts));
    let entries = joined(parts);
    assert(gives(entries, parts[0].0, parts[0].1));
    assert(gives(entries, parts[1].0, parts[1].1));
    assert(gives(entries, parts[2].0, parts[2].1));
    assert(gives(entries, parts[3].0, parts[3].1));
    assert(gives(entries, parts[4].0, parts[4].1));
}

/// Whether entries give a key a number, if there is one.
pub open spec fn gives_number(entries: Seq<(Item, Item)>, key: u64, n: Option<u64>) -> bool {
    gives(
        entries,
        Item::Unsigned(key),
        match n {
            Some(number) => Some(Item::Unsigned(number)),
            None => None,
        },
    )
}

/// Whether an item is the list of these numbers.
pub open spec fn is_number_list(item: Item, list: Seq<u64>) -> bool {
    item matches Item::Array(items) && items.len() == list.len() && forall|i: int|
        0 <= i < list.len() ==> #[trigger] items[i] == Item::Unsigned(list[i])
}

/// Whether an item is a list that names these transports.
pub open spec fn is_transport_list(item: Item, list: Seq<AuthenticatorTransport>) -> bool {
    item matches Item::Array(items) && items.len() == list.len() && forall|i: int|
        0 <= i < list.len() ==> #[trigger] items[i] == Item::TextString(
            match list[i] {
                AuthenticatorTransport::Usb => "usb"@,
                AuthenticatorTransport::Nfc => "nfc"@,
                AuthenticatorTransport::Ble => "ble"@,
                AuthenticatorTransport::Internal => "internal"@,
            },
        )
}

/// Whether an item is a list of these kinds of credentials, where ES256 is the
/// algorithm -7.
pub open spec fn is_parameter_list(item: Item, list: Seq<PublicKeyCredentialParameter>) -> bool {
    item matches Item::Array(items) && items.len() == list.len() && forall|i: int|
        0 <= i < list.len() && list[i].alg == SignatureAlgorithm::ES256 && list[i].cred_type
            == PublicKeyCredentialType::PublicKey ==> #[trigger] items[i] == Item::Table(
            seq![
                (Item::TextString("alg"@), Item::Negative(6)),
                (Item::TextString("type"@), Item::TextString("public-key"@)),
            ],
        )
}

/// The answer to GetInfo holds each thing that the authenticator says of itself
/// under its number, if it is there: the versions under 1, the extensions under
/// 2, the model under 3, the options under 4, each on or off as it is, the
/// largest message under 5, and so on.
pub proof fn law_info_answer_holds(answer: AuthenticatorGetInfoResponse)
    ensures
        response::response_item(ResponseData::AuthenticatorGetInfo(answer)) matches Some(
            Item::Table(entries),
        ) && {
            &&& exists|item: Item| #[trigger]
                is_text_list(item, answer.versions@) && gives(
                    entries,
                    Item::Unsigned(1),
                    Some(item),
                )
            &&& match answer.extensions {
                None => gives(entries, Item::Unsigned(2), None),
                Some(list) => exists|item: Item| #[trigger]
                    is_text_list(item, list@) && gives(entries, Item::Unsigned(2), Some(item)),
            }
            &&& gives(entries, Item::Unsigned(3), Some(Item::ByteString(answer.aaguid@)))
            &&& match answer.options {
                None => gives(entries, Item::Unsigned(4), None),
                Some(list) => exists|item: Item| #[trigger]
                    is_options_map(item, list@) && gives(entries, Item::Unsigned(4), Some(item)),
            }
            &&& gives_number(entries, 5, answer.max_msg_size)
            &&& match answer.pin_protocols {
                None => gives(entries, Item::Unsigned(6), None),
                Some(list) => exists|item: Item| #[trigger]
                    is_number_list(item, list@) && gives(entries, Item::Unsigned(6), Some(item)),
            }
            &&& gives_number(entries, 7, answer.max_credential_count_in_list)
            &&& gives_number(entries, 8, answer.max_credential_id_length)
            &&& match answer.transports {
                None => gives(entries, Item::Unsigned(9), None),
                Some(list) => exists|item: Item| #[trigger]
                    is_transport_list(item, list@) && gives(
                        entries,
                        Item::Unsigned(9),
                        Some(item),
                    ),
            }
            &&& match answer.algorithms {
                None => gives(entries, Item::Unsigned(10), None),
                Some(list) => exists|item: Item| #[trigger]
                    is_parameter_list(item, list@) && gives(
                        entries,
                        Item::Unsigned(10),
                        Some(item),
                    ),
            }
            &&& gives_number(
                entries,
                12,
                match answer.default_cred_protect {
                    None => None,
                    Some(CredentialProtectionPolicy::UserVerificationOptional) => Some(1u64),
                    Some(
                        CredentialProtectionPolicy::UserVerificationOptionalWithCredentialIdList,
                    ) => Some(2u64),
                    Some(CredentialProtectionPolicy::UserVerificationRequired) => Some(3u64),
                },
            )
            &&& gives_number(entries, 14, answer.firmware_version)
        },
{
    let parts = info_parts(answer);
    let entries = joined(parts);
    lemma_info_parts(answer);
    lemma_info_gives(answer);
    lemma_info_lists(answer);
    assert(is_text_list(parts[0].1->Some_0, answer.versions@));
    if let Some(list) = answer.extensions {
        assert(is_text_list(parts[1].1->Some_0, list@));
    }
    if let Some(list) = answer.options {
        assert(is_options_map(parts[3].1->Some_0, list@));
    }
    if let Some(list) = answer.pin_protocols {
        assert(is_number_list(parts[5].1->Some_0, list@));
    }
    if let Some(list) = answer.transports {
        assert(is_transport_list(parts[8].1->Some_0, list@));
    }
    if let Some(list) = answer.algorithms {
        assert(is_parameter_list(parts[9].1->Some_0, list@));
    }
}

/// The parts of an answer to GetInfo.
spec fn info_parts(answer: AuthenticatorGetInfoResponse) -> Seq<(Item, Option<Item>)> {
    let number = |n: u64| Item::Unsigned(n);
    seq![
        (Item::Unsigned(1), Some(response::texts_item(answer.versions@))),
        (
            Item::Unsigned(2),
            response::mapped(answer.extensions, |list: Vec<String>| response::texts_item(list@)),
        ),
        (Item::Unsigned(3), Some(Item::ByteString(answer.aaguid@))),
        (
            Item::Unsigned(4),
            response::mapped(
                answer.options,
                |list: Vec<(String, bool)>| response::options_item(list@),
            ),
        ),
        (Item::Unsigned(5), response::mapped(answer.max_msg_size, number)),
        (
            Item::Unsigned(6),
            response::mapped(answer.pin_protocols, |list: Vec<u64>| response::numbers_item(list@)),
        ),
        (Item::Unsigned(7), response::mapped(answer.max_credential_count_in_list, number)),
        (Item::Unsigned(8), response::mapped(answer.max_credential_id_length, number)),
        (
            Item::Unsigned(9),
            response::mapped(
                answer.transports,
                |list: Vec<AuthenticatorTransport>| response::transports_item(list@),
            ),
        ),
        (
            Item::Unsigned(10),
            response::mapped(
                answer.algorithms,
                |list: Vec<PublicKeyCredentialParameter>| response::parameters_item(list@),
            ),
        ),
        (
            Item::Unsigned(12),
            response::mapped(
                answer.default_cred_protect,
                |p: CredentialProtectionPolicy| Item::Unsigned(p.level()),
            ),
        ),
        (Item::Unsigned(14), response::mapped(answer.firmware_version, number)),
    ]
}

/// Each part of an answer to GetInfo stands under its number.
proof fn lemma_info_gives(answer: AuthenticatorGetInfoResponse)
    ensures
        ({
            let parts = info_parts(answer);
            let entries = joined(parts);
            &&& gives(entries, Item::Unsigned(1), parts[0].1)
            &&& gives(entries, Item::Unsigned(2), parts[1].1)
            &&& gives(entries, Item::Unsigned(3), parts[2].1)
            &&& gives(entries, Item::Unsigned(4), parts[3].1)
            &&& gives(entries, Item::Unsigned(5), parts[4].1)
            &&& gives(entries, Item::Unsigned(6), parts[5].1)
            &&& gives(entries, Item::Unsigned(7), parts[6].1)
            &&& gives(entries, Item::Unsigned(8), parts[7].1)
            &&& gives(entries, Item::Unsigned(9), parts[8].1)
            &&& gives(entries, Item::Unsigned(10), parts[9].1)
            &&& gives(entries, Item::Unsigned(12), parts[10].1)
            &&& gives(entries, Item::Unsigned(14), parts[11].1)
        }),
{
    let parts = info_parts(answer);
    assert(parts.len() == 12);
    lemma_joined(parts);
    assert(parts[0].0 == Item::Unsigned(1) && parts[1].0 == Item::Unsigned(2));
    assert(parts[2].0 == Item::Unsigned(3) && parts[3].0 == Item::Unsigned(4));
    assert(parts[4].0 == Item::Unsigned(5) && parts[5].0 == Item::Unsigned(6));
    assert(parts[6].0 == Item::Unsigned(7) && parts[7].0 == Item::Unsigned(8));
    assert(parts[8].0 == Item::Unsigned(9) && parts[9].0 == Item::Unsigned(10));
    assert(parts[10].0 == Item::Unsigned(12) && parts[11].0 == Item::Unsigned(14));
}

/// The lists in an answer to GetInfo are the lists that they are made from.
proof fn lemma_info_lists(answer: AuthenticatorGetInfoResponse)
    ensures
        is_text_list(response::texts_item(answer.versions@), answer.versions@),
        answer.extensions matches Some(list) ==> is_text_list(
            response::texts_item(list@),
            list@,
        ),
        answer.options matches Some(list) ==> is_options_map(
            response::options_item(list@),
            list@,
        ),
        answer.pin_protocols matches Some(list) ==> is_number_list(
            response::numbers_item(list@),
            list@,
        ),
        answer.transports matches Some(list) ==> is_transport_list(
            response::transports_item(list@),
            list@,
        ),
        answer.algorithms matches Some(list) ==> is_parameter_list(
            response::parameters_item(list@),
            list@,
        ),
{
}

/// The entries of an answer to GetInfo are those of its parts.
proof fn lemma_info_parts(answer: AuthenticatorGetInfoResponse)
    ensures
        response::get_info_item(answer) == Item::Table(joined(info_parts(answer))),
{
    let parts = info_parts(answer);
    let first = parts.take(6);
    let second = parts.skip(6);
    lemma_joined_split(first, second);
    assert(first + second =~= parts);
    assert(joined(first) =~= response::basic_info_entries(answer)) by {
        reveal_with_fuel(joined, 7);
    }
    assert(joined(second) =~= response::further_info_entries(answer)) by {
        reveal_with_fuel(joined, 7);
    }
}

/// The entries of parts one after the other stand one after the other.
proof fn lemma_joined_split(a: Seq<(Item, Option<Item>)>, b: Seq<(Item, Option<Item>)>)
    ensures
        joined(a + b) == joined(a) + joined(b),
    decreases b.len(),
{
    if b.len() == 0 {
        assert(a + b =~= a);
        assert(joined(a) + joined(b) =~= joined(a));
    } else {
        lemma_joined_split(a, b.drop_last());
        assert((a + b).drop_last() =~= a + b.drop_last());
        assert(joined(a + b) =~= joined(a) + joined(b));
    }
}

/// Answers without data are answers without an item.
pub proof fn law_empty_answers_hold_nothing()
    ensures
        response::response_item(ResponseData::AuthenticatorReset) is None,
        response::response_item(ResponseData::AuthenticatorClientPin(None)) is None,
{
}

/// A refusal is one byte, and not the one that answers begin with.
pub proof fn law_refusal_is_one_byte(code: Ctap2StatusCode)
    ensures
        process::reply(Err(code)).len() == 1,
        process::reply(Err(code))[0] == code.byte(),
        code.byte() != 0,
{
}

/// An answer is a zero byte and the encoded item, if there is one.
pub proof fn law_reply_is_the_encoded_answer(data: ResponseData)
    ensures
        process::reply(Ok(data)) == (match response::response_item(data) {
            Some(item) => seq![0u8] + model::encode(item),
            None => seq![0u8],
        }),
{
    if response::response_item(data) is None {
        assert(seq![0u8] + Seq::<u8>::empty() =~= seq![0u8]);
    }
}

} // verus!
