//! Every answer is encoded in canonical form, so that a client can read it.

use crate::cbor::builder;
use crate::cbor::model;
use crate::cbor::model::Item;
use crate::cbor::reader;
use crate::crypto::ecdsa;
use crate::ctap::data_formats::{
    AuthenticatorTransport, CredentialProtectionPolicy, PackedAttestationStatement,
    PublicKeyCredentialDescriptor, PublicKeyCredentialParameter, PublicKeyCredentialUserEntity,
};
use crate::ctap::get_assertion;
use crate::ctap::info;
use crate::ctap::make_credential;
use crate::ctap::response;
use crate::ctap::response::{
    AuthenticatorClientPinResponse, AuthenticatorGetAssertionResponse,
    AuthenticatorGetInfoResponse, AuthenticatorMakeCredentialResponse, ECDH_NEGATED,
};
use vstd::prelude::*;

verus! {

/// Whether entries are in canonical form and in order, each key before all that
/// follow it.
pub open spec fn ordered(list: Seq<(Item, Item)>) -> bool {
    &&& forall|i: int|
        0 <= i < list.len() ==> reader::is_key((#[trigger] list[i]).0) && reader::canonical(
            list[i].0,
        ) && reader::canonical(list[i].1)
    &&& forall|i: int, j: int|
        0 <= i < j < list.len() ==> reader::key_before((#[trigger] list[i]).0, (
        #[trigger] list[j]).0)
}

/// Whether all keys come before the given one.
pub open spec fn all_before(list: Seq<(Item, Item)>, key: Item) -> bool {
    forall|i: int| 0 <= i < list.len() ==> reader::key_before((#[trigger] list[i]).0, key)
}

/// Entries in order make a map in canonical form.
proof fn lemma_ordered(list: Seq<(Item, Item)>)
    requires
        ordered(list),
    ensures
        reader::canonical_entries(list),
    decreases list.len(),
{
    if list.len() > 0 {
        let start = list.drop_last();
        assert forall|i: int| 0 <= i < start.len() implies reader::is_key((#[trigger] start[i]).0)
            && reader::canonical(start[i].0) && reader::canonical(start[i].1) by {
            assert(start[i] == list[i]);
        }
        assert forall|i: int, j: int| 0 <= i < j < start.len() implies reader::key_before(
            (#[trigger] start[i]).0,
            (#[trigger] start[j]).0,
        ) by {
            assert(start[i] == list[i] && start[j] == list[j]);
        }
        lemma_ordered(start);
        assert(list.last() == list[list.len() - 1]);
    }
}

/// An entry with a later key can be added.
proof fn lemma_add(list: Seq<(Item, Item)>, key: Item, value: Item)
    requires
        ordered(list),
        all_before(list, key),
        reader::is_key(key),
        reader::canonical(key),
        reader::canonical(value),
    ensures
        ordered(list + seq![(key, value)]),
        forall|later: Item|
            reader::key_before(key, later) && all_before(list, later) ==> #[trigger] all_before(
                list + seq![(key, value)],
                later,
            ),
{
}

/// An entry with a later key can be added or left out.
proof fn lemma_add_optional(list: Seq<(Item, Item)>, key: Item, value: Option<Item>)
    requires
        ordered(list),
        all_before(list, key),
        reader::is_key(key),
        reader::canonical(key),
        value matches Some(v) ==> reader::canonical(v),
    ensures
        ordered(list + builder::optional_entry(key, value)),
        forall|later: Item|
            reader::key_before(key, later) && all_before(list, later) ==> #[trigger] all_before(
                list + builder::optional_entry(key, value),
                later,
            ),
{
    match value {
        Some(v) => {
            lemma_add(list, key, v);
        },
        None => {
            assert(list + Seq::<(Item, Item)>::empty() =~= list);
        },
    }
}

/// A list of items in canonical form is in canonical form.
proof fn lemma_canonical_list(list: Seq<Item>)
    requires
        forall|i: int| 0 <= i < list.len() ==> reader::canonical(#[trigger] list[i]),
    ensures
        reader::canonical_items(list),
    decreases list.len(),
{
    if list.len() > 0 {
        let start = list.drop_last();
        assert forall|i: int| 0 <= i < start.len() implies reader::canonical(
            #[trigger] start[i],
        ) by {
            assert(start[i] == list[i]);
        }
        lemma_canonical_list(start);
        assert(list.last() == list[list.len() - 1]);
    }
}

/// Whether a text is made of ASCII characters, as many as given.
spec fn is_short_ascii(s: Seq<char>) -> bool {
    s.len() <= 16 && vstd::utf8::is_ascii_chars(s)
}

/// A short text of ASCII characters is a key, and is encoded byte by byte.
proof fn lemma_name(s: Seq<char>)
    requires
        is_short_ascii(s),
    ensures
        reader::is_key(Item::TextString(s)),
        reader::canonical(Item::TextString(s)),
        vstd::utf8::encode_utf8(s).len() == s.len(),
        s.len() > 0 ==> vstd::utf8::encode_utf8(s)[0] == s[0] as u8,
{
    vstd::utf8::is_ascii_chars_encode_utf8(s);
}

/// The order of two names: the shorter one, or else the one with the smaller
/// first character.
proof fn lemma_names_before(a: Seq<char>, b: Seq<char>)
    requires
        is_short_ascii(a),
        is_short_ascii(b),
        a.len() > 0,
        a.len() < b.len() || (a.len() == b.len() && (a[0] as u8) < (b[0] as u8)),
    ensures
        reader::key_before(Item::TextString(a), Item::TextString(b)),
{
    lemma_name(a);
    lemma_name(b);
}

/// A list of byte strings is in canonical form.
proof fn lemma_byte_strings(list: Vec<Vec<u8>>)
    ensures
        reader::canonical(response::byte_strings_item(list@)),
{
    let items = response::byte_strings_item(list@)->Array_0;
    assert(list.len() == list@.len());
    assert forall|i: int| 0 <= i < items.len() implies reader::canonical(#[trigger] items[i]) by {
        assert(list@[i].len() == list@[i]@.len());
    }
    lemma_canonical_list(items);
}

/// A list of transports is in canonical form.
proof fn lemma_transports(list: Vec<AuthenticatorTransport>)
    ensures
        reader::canonical(response::transports_item(list@)),
{
    let items = response::transports_item(list@)->Array_0;
    assert(list.len() == list@.len());
    reveal_strlit("usb");
    reveal_strlit("nfc");
    reveal_strlit("ble");
    reveal_strlit("internal");
    assert forall|i: int| 0 <= i < items.len() implies reader::canonical(#[trigger] items[i]) by {
        lemma_name(list@[i].name());
    }
    lemma_canonical_list(items);
}

/// An attestation statement is in canonical form.
proof fn lemma_attestation(statement: PackedAttestationStatement)
    ensures
        reader::canonical(response::attestation_item(statement)),
{
    reveal_strlit("alg");
    reveal_strlit("sig");
    reveal_strlit("x5c");
    reveal_strlit("ecdaaKeyId");
    let (alg, sig, x5c, id) = (
        Item::TextString("alg"@),
        Item::TextString("sig"@),
        Item::TextString("x5c"@),
        Item::TextString("ecdaaKeyId"@),
    );
    lemma_name("alg"@);
    lemma_name("sig"@);
    lemma_name("x5c"@);
    lemma_name("ecdaaKeyId"@);
    lemma_names_before("alg"@, "sig"@);
    lemma_names_before("alg"@, "x5c"@);
    lemma_names_before("alg"@, "ecdaaKeyId"@);
    lemma_names_before("sig"@, "x5c"@);
    lemma_names_before("sig"@, "ecdaaKeyId"@);
    lemma_names_before("x5c"@, "ecdaaKeyId"@);
    let none = Seq::<(Item, Item)>::empty();
    let number = builder::integer_item(statement.alg as int);
    assert(statement.sig.len() == statement.sig@.len());
    lemma_add(none, alg, number);
    let one = none + seq![(alg, number)];
    lemma_add(one, sig, Item::ByteString(statement.sig@));
    let two = one + seq![(sig, Item::ByteString(statement.sig@))];
    let certificates = response::mapped(
        statement.x5c,
        |list: Vec<Vec<u8>>| response::byte_strings_item(list@),
    );
    if let Some(list) = statement.x5c {
        lemma_byte_strings(list);
    }
    lemma_add_optional(two, x5c, certificates);
    let three = two + builder::optional_entry(x5c, certificates);
    let key_id = response::mapped(
        statement.ecdaa_key_id,
        |s: Vec<u8>| response::bytes_item(s),
    );
    if let Some(s) = statement.ecdaa_key_id {
        assert(s.len() == s@.len());
    }
    lemma_add_optional(three, id, key_id);
    let four = three + builder::optional_entry(id, key_id);
    assert(four =~= response::attestation_item(statement)->Table_0);
    lemma_ordered(four);
}

/// A credential that is named is in canonical form.
proof fn lemma_descriptor(descriptor: PublicKeyCredentialDescriptor)
    ensures
        reader::canonical(response::descriptor_item(descriptor)),
{
    reveal_strlit("id");
    reveal_strlit("type");
    reveal_strlit("transports");
    reveal_strlit("public-key");
    reveal_strlit("unknown");
    lemma_name("id"@);
    lemma_name("type"@);
    lemma_name("transports"@);
    lemma_name(descriptor.key_type.name());
    lemma_names_before("id"@, "type"@);
    lemma_names_before("id"@, "transports"@);
    lemma_names_before("type"@, "transports"@);
    let (id, kind, transports) = (
        Item::TextString("id"@),
        Item::TextString("type"@),
        Item::TextString("transports"@),
    );
    let none = Seq::<(Item, Item)>::empty();
    assert(descriptor.key_id.len() == descriptor.key_id@.len());
    lemma_add(none, id, Item::ByteString(descriptor.key_id@));
    let one = none + seq![(id, Item::ByteString(descriptor.key_id@))];
    let name = Item::TextString(descriptor.key_type.name());
    lemma_add(one, kind, name);
    let two = one + seq![(kind, name)];
    let list = response::mapped(
        descriptor.transports,
        |list: Vec<AuthenticatorTransport>| response::transports_item(list@),
    );
    if let Some(l) = descriptor.transports {
        lemma_transports(l);
    }
    lemma_add_optional(two, transports, list);
    let three = two + builder::optional_entry(transports, list);
    assert(three =~= response::descriptor_item(descriptor)->Table_0);
    lemma_ordered(three);
}

/// Whether the length of an optional text fits into 64 bits.
pub open spec fn fits(s: Option<String>) -> bool {
    s matches Some(t) ==> vstd::utf8::encode_utf8(t@).len() <= u64::MAX
}

/// A user is in canonical form.
proof fn lemma_user(user: PublicKeyCredentialUserEntity)
    requires
        fits(user.user_icon),
        fits(user.user_name),
        fits(user.user_display_name),
    ensures
        reader::canonical(response::user_item(user)),
{
    reveal_strlit("id");
    reveal_strlit("icon");
    reveal_strlit("name");
    reveal_strlit("displayName");
    lemma_name("id"@);
    lemma_name("icon"@);
    lemma_name("name"@);
    lemma_name("displayName"@);
    lemma_names_before("id"@, "icon"@);
    lemma_names_before("id"@, "name"@);
    lemma_names_before("id"@, "displayName"@);
    lemma_names_before("icon"@, "name"@);
    lemma_names_before("icon"@, "displayName"@);
    lemma_names_before("name"@, "displayName"@);
    let text = |s: String| Item::TextString(s@);
    let none = Seq::<(Item, Item)>::empty();
    let id = Item::ByteString(user.user_id@);
    assert(user.user_id.len() == user.user_id@.len());
    lemma_add(none, Item::TextString("id"@), id);
    let one = none + seq![(Item::TextString("id"@), id)];
    let icon = response::mapped(user.user_icon, text);
    lemma_add_optional(one, Item::TextString("icon"@), icon);
    let two = one + builder::optional_entry(Item::TextString("icon"@), icon);
    let name = response::mapped(user.user_name, text);
    lemma_add_optional(two, Item::TextString("name"@), name);
    let three = two + builder::optional_entry(Item::TextString("name"@), name);
    let display = response::mapped(user.user_display_name, text);
    lemma_add_optional(three, Item::TextString("displayName"@), display);
    let four = three + builder::optional_entry(Item::TextString("displayName"@), display);
    assert(four =~= response::user_item(user)->Table_0);
    lemma_ordered(four);
}

/// A COSE key is in canonical form.
proof fn lemma_cose(alg: u64, x: Seq<u8>, y: Seq<u8>)
    requires
        alg <= i64::MAX,
        x.len() == 32,
        y.len() == 32,
    ensures
        reader::canonical(ecdsa::cose_item(alg, x, y)),
{
    let list = ecdsa::cose_item(alg, x, y)->Table_0;
    assert(ordered(list));
    lemma_ordered(list);
}

/// The answer with a new credential is in canonical form.
pub proof fn law_make_credential_is_canonical(r: AuthenticatorMakeCredentialResponse)
    requires
        fits(Some(r.fmt)),
    ensures
        reader::canonical(response::make_credential_item(r)),
{
    lemma_attestation(r.att_stmt);
    assert(r.auth_data.len() == r.auth_data@.len());
    let list = response::make_credential_item(r)->Table_0;
    assert(ordered(list));
    lemma_ordered(list);
}

/// The answer with the use of a credential is in canonical form.
pub proof fn law_get_assertion_is_canonical(r: AuthenticatorGetAssertionResponse)
    requires
        r.user matches Some(u) ==> fits(u.user_icon) && fits(u.user_name) && fits(
            u.user_display_name,
        ),
    ensures
        reader::canonical(response::get_assertion_item(r)),
{
    let none = Seq::<(Item, Item)>::empty();
    let credential = response::mapped(
        r.credential,
        |d: PublicKeyCredentialDescriptor| response::descriptor_item(d),
    );
    if let Some(d) = r.credential {
        lemma_descriptor(d);
    }
    lemma_add_optional(none, Item::Unsigned(1), credential);
    let one = none + builder::optional_entry(Item::Unsigned(1), credential);
    assert(r.auth_data.len() == r.auth_data@.len());
    lemma_add(one, Item::Unsigned(2), Item::ByteString(r.auth_data@));
    let two = one + seq![(Item::Unsigned(2), Item::ByteString(r.auth_data@))];
    assert(r.signature.len() == r.signature@.len());
    lemma_add(two, Item::Unsigned(3), Item::ByteString(r.signature@));
    let three = two + seq![(Item::Unsigned(3), Item::ByteString(r.signature@))];
    let user = response::mapped(
        r.user,
        |u: PublicKeyCredentialUserEntity| response::user_item(u),
    );
    if let Some(u) = r.user {
        lemma_user(u);
    }
    lemma_add_optional(three, Item::Unsigned(4), user);
    let four = three + builder::optional_entry(Item::Unsigned(4), user);
    let number = response::mapped(r.number_of_credentials, |n: u64| Item::Unsigned(n));
    lemma_add_optional(four, Item::Unsigned(5), number);
    let five = four + builder::optional_entry(Item::Unsigned(5), number);
    assert(five =~= response::get_assertion_item(r)->Table_0);
    lemma_ordered(five);
}

/// The answer to a request about the PIN is in canonical form.
pub proof fn law_client_pin_is_canonical(r: AuthenticatorClientPinResponse)
    ensures
        reader::canonical(response::client_pin_item(r)),
{
    let none = Seq::<(Item, Item)>::empty();
    let key = response::mapped(
        r.key_agreement,
        |key: crate::ctap::data_formats::CoseKey|
            ecdsa::cose_item(ECDH_NEGATED, key.x@, key.y@),
    );
    if let Some(k) = r.key_agreement {
        lemma_cose(ECDH_NEGATED, k.x@, k.y@);
    }
    lemma_add_optional(none, Item::Unsigned(1), key);
    let one = none + builder::optional_entry(Item::Unsigned(1), key);
    let token = response::mapped(r.pin_token, |s: Vec<u8>| response::bytes_item(s));
    if let Some(s) = r.pin_token {
        assert(s.len() == s@.len());
    }
    lemma_add_optional(one, Item::Unsigned(2), token);
    let two = one + builder::optional_entry(Item::Unsigned(2), token);
    let retries = response::mapped(r.retries, |n: u64| Item::Unsigned(n));
    lemma_add_optional(two, Item::Unsigned(3), retries);
    let three = two + builder::optional_entry(Item::Unsigned(3), retries);
    assert(three =~= response::client_pin_item(r)->Table_0);
    lemma_ordered(three);
}

/// What the answer says of extensions is in canonical form.
pub proof fn law_extensions_are_canonical(
    hmac_secret: bool,
    policy: Option<CredentialProtectionPolicy>,
    output: Seq<u8>,
)
    requires
        output.len() <= 64,
    ensures
        reader::canonical(make_credential::extension_item(hmac_secret, policy)),
        reader::canonical(get_assertion::hmac_output_item(output)),
{
    reveal_strlit("credProtect");
    reveal_strlit("hmac-secret");
    lemma_name("credProtect"@);
    lemma_name("hmac-secret"@);
    lemma_names_before("credProtect"@, "hmac-secret"@);
    let none = Seq::<(Item, Item)>::empty();
    let protect: Option<Item> = match policy {
        Some(p) => Some(Item::Unsigned(p.level())),
        None => None,
    };
    lemma_add_optional(none, Item::TextString("credProtect"@), protect);
    let one = none + builder::optional_entry(Item::TextString("credProtect"@), protect);
    let hmac: Option<Item> = if hmac_secret {
        Some(builder::bool_item(true))
    } else {
        None
    };
    lemma_add_optional(one, Item::TextString("hmac-secret"@), hmac);
    let two = one + builder::optional_entry(Item::TextString("hmac-secret"@), hmac);
    assert(two =~= make_credential::extension_item(hmac_secret, policy)->Table_0);
    lemma_ordered(two);
    let list = get_assertion::hmac_output_item(output)->Table_0;
    assert(ordered(list));
    lemma_ordered(list);
}

/// A list of texts that are short and of ASCII characters is in canonical form.
proof fn lemma_texts(list: Vec<String>)
    requires
        forall|i: int| 0 <= i < list@.len() ==> is_short_ascii((#[trigger] list@[i])@),
    ensures
        reader::canonical(response::texts_item(list@)),
{
    let items = response::texts_item(list@)->Array_0;
    assert(list.len() == list@.len());
    assert forall|i: int| 0 <= i < items.len() implies reader::canonical(#[trigger] items[i]) by {
        lemma_name(list@[i]@);
    }
    lemma_canonical_list(items);
}

/// The options that the authenticator says of itself are in canonical form.
proof fn lemma_options(list: Vec<(String, bool)>, pin_set: bool)
    requires
        list@.len() == 3,
        info::is_option(list@[0], "rk"@, true),
        info::is_option(list@[1], "up"@, true),
        info::is_option(list@[2], "clientPin"@, pin_set),
    ensures
        reader::canonical(response::options_item(list@)),
{
    reveal_strlit("rk");
    reveal_strlit("up");
    reveal_strlit("clientPin");
    lemma_name("rk"@);
    lemma_name("up"@);
    lemma_name("clientPin"@);
    lemma_names_before("rk"@, "up"@);
    lemma_names_before("rk"@, "clientPin"@);
    lemma_names_before("up"@, "clientPin"@);
    let entries = response::options_item(list@)->Table_0;
    assert(entries.len() == 3);
    assert(ordered(entries));
    lemma_ordered(entries);
}

/// A kind of credential and its algorithm are in canonical form.
proof fn lemma_parameters(list: Vec<PublicKeyCredentialParameter>)
    ensures
        reader::canonical(response::parameters_item(list@)),
{
    reveal_strlit("alg");
    reveal_strlit("type");
    reveal_strlit("public-key");
    reveal_strlit("unknown");
    lemma_name("alg"@);
    lemma_name("type"@);
    lemma_names_before("alg"@, "type"@);
    let items = response::parameters_item(list@)->Array_0;
    assert(list.len() == list@.len());
    assert forall|i: int| 0 <= i < items.len() implies reader::canonical(#[trigger] items[i]) by {
        lemma_name(list@[i].cred_type.name());
        let entries = response::parameter_item(list@[i])->Table_0;
        assert(ordered(entries));
        lemma_ordered(entries);
    }
    lemma_canonical_list(items);
}

/// What the authenticator says of itself is in canonical form.
pub proof fn law_get_info_is_canonical(r: AuthenticatorGetInfoResponse, pin_set: bool)
    requires
        info::is_info(r, pin_set),
    ensures
        reader::canonical(response::get_info_item(r)),
{
    reveal_strlit("U2F_V2");
    reveal_strlit("FIDO_2_0");
    reveal_strlit("hmac-secret");
    lemma_texts(r.versions);
    lemma_texts(r.extensions->Some_0);
    lemma_options(r.options->Some_0, pin_set);
    lemma_transports(r.transports->Some_0);
    lemma_parameters(r.algorithms->Some_0);
    let protocols = response::numbers_item(r.pin_protocols->Some_0@);
    lemma_canonical_list(protocols->Array_0);
    let list = response::get_info_item(r)->Table_0;
    let expected = seq![
        (Item::Unsigned(1), response::texts_item(r.versions@)),
        (Item::Unsigned(2), response::texts_item(r.extensions->Some_0@)),
        (Item::Unsigned(3), Item::ByteString(r.aaguid@)),
        (Item::Unsigned(4), response::options_item(r.options->Some_0@)),
        (Item::Unsigned(5), Item::Unsigned(info::MAX_MSG_SIZE)),
        (Item::Unsigned(6), protocols),
        (Item::Unsigned(9), response::transports_item(r.transports->Some_0@)),
        (Item::Unsigned(10), response::parameters_item(r.algorithms->Some_0@)),
    ];
    assert(list =~= expected);
    assert(ordered(expected));
    lemma_ordered(expected);
}

} // verus!
