//! Taking data items apart.

use crate::bytes;
use crate::cbor::model;
use crate::cbor::model::{Item, SimpleValue, Value};
use crate::ctap::status_code::Ctap2StatusCode;
use crate::text;
use vstd::prelude::*;
use vstd::slice::slice_to_vec;

verus! {

/// The item that a key leads to.
pub open spec fn lookup(entries: Seq<(Item, Item)>, key: Item) -> Option<Item>
    decreases entries.len(),
{
    if entries.len() == 0 {
        None
    } else if entries.last().0 == key {
        Some(entries.last().1)
    } else {
        lookup(entries.drop_last(), key)
    }
}

/// The item for a number as key.
pub open spec fn at(entries: Seq<(Item, Item)>, key: u64) -> Option<Item> {
    lookup(entries, Item::Unsigned(key))
}

/// The item for the number `-1 - key` as key.
pub open spec fn at_negative(entries: Seq<(Item, Item)>, key: u64) -> Option<Item> {
    lookup(entries, Item::Negative(key))
}

/// The item for a name as key.
pub open spec fn named(entries: Seq<(Item, Item)>, name: Seq<char>) -> Option<Item> {
    lookup(entries, Item::TextString(name))
}

/// What something is read as that has to be there.
pub open spec fn need<T>(
    value: Option<Item>,
    read: spec_fn(Item) -> Result<T, Ctap2StatusCode>,
) -> Result<T, Ctap2StatusCode> {
    match value {
        None => Err(Ctap2StatusCode::CTAP2_ERR_MISSING_PARAMETER),
        Some(v) => read(v),
    }
}

/// What something is read as that need not be there.
pub open spec fn may<T>(
    value: Option<Item>,
    read: spec_fn(Item) -> Result<T, Ctap2StatusCode>,
) -> Result<Option<T>, Ctap2StatusCode> {
    match value {
        None => Ok(None),
        Some(v) => match read(v) {
            Ok(t) => Ok(Some(t)),
            Err(e) => Err(e),
        },
    }
}

/// What the items of a list are read as. The first that cannot be read decides
/// the error.
pub open spec fn all<T>(
    list: Seq<Item>,
    read: spec_fn(Item) -> Result<T, Ctap2StatusCode>,
) -> Result<Seq<T>, Ctap2StatusCode>
    decreases list.len(),
{
    if list.len() == 0 {
        Ok(Seq::empty())
    } else {
        match all(list.drop_last(), read) {
            Err(e) => Err(e),
            Ok(start) => match read(list.last()) {
                Err(e) => Err(e),
                Ok(t) => Ok(start.push(t)),
            },
        }
    }
}

/// Where the start of a list cannot be read, the list cannot be read either.
pub proof fn lemma_all_fails<T>(
    list: Seq<Item>,
    read: spec_fn(Item) -> Result<T, Ctap2StatusCode>,
    i: int,
)
    requires
        0 <= i <= list.len(),
        all(list.take(i), read) is Err,
    ensures
        all(list, read) == all(list.take(i), read),
    decreases list.len(),
{
    if i == list.len() {
        assert(list.take(i) =~= list);
    } else {
        assert(list.drop_last().take(i) =~= list.take(i));
        lemma_all_fails(list.drop_last(), read, i);
    }
}

/// Reading one item more of a list.
pub proof fn lemma_all_step<T>(
    list: Seq<Item>,
    read: spec_fn(Item) -> Result<T, Ctap2StatusCode>,
    i: int,
)
    requires
        0 <= i < list.len(),
        all(list.take(i), read) is Ok,
    ensures
        match read(list[i]) {
            Ok(t) => all(list.take(i + 1), read) == Ok::<Seq<T>, Ctap2StatusCode>(
                all(list.take(i), read)->Ok_0.push(t),
            ),
            Err(e) => all(list, read) == Err::<Seq<T>, Ctap2StatusCode>(e),
        },
{
    assert(list.take(i + 1).drop_last() =~= list.take(i));
    if read(list[i]) is Err {
        lemma_all_fails(list, read, i + 1);
    }
}

/// The error for an item of another kind than expected.
pub open spec fn unexpected<T>() -> Result<T, Ctap2StatusCode> {
    Err(Ctap2StatusCode::CTAP2_ERR_CBOR_UNEXPECTED_TYPE)
}

/// The entries of a map.
pub open spec fn as_entries(value: Item) -> Result<Seq<(Item, Item)>, Ctap2StatusCode> {
    match value {
        Item::Table(entries) => Ok(entries),
        _ => unexpected(),
    }
}

/// The items of a list.
pub open spec fn as_items(value: Item) -> Result<Seq<Item>, Ctap2StatusCode> {
    match value {
        Item::Array(list) => Ok(list),
        _ => unexpected(),
    }
}

/// A byte string.
pub open spec fn as_bytes(value: Item) -> Result<Seq<u8>, Ctap2StatusCode> {
    match value {
        Item::ByteString(s) => Ok(s),
        _ => unexpected(),
    }
}

/// A text.
pub open spec fn as_text(value: Item) -> Result<Seq<char>, Ctap2StatusCode> {
    match value {
        Item::TextString(s) => Ok(s),
        _ => unexpected(),
    }
}

/// A number that is not negative.
pub open spec fn as_unsigned(value: Item) -> Result<u64, Ctap2StatusCode> {
    match value {
        Item::Unsigned(n) => Ok(n),
        _ => unexpected(),
    }
}

/// A number.
pub open spec fn as_integer(value: Item) -> Result<int, Ctap2StatusCode> {
    match value {
        Item::Unsigned(n) => Ok(n as int),
        Item::Negative(n) => Ok(-1 - n),
        _ => unexpected(),
    }
}

/// A truth value.
pub open spec fn as_bool(value: Item) -> Result<bool, Ctap2StatusCode> {
    match value {
        Item::Simple(SimpleValue::TrueValue) => Ok(true),
        Item::Simple(SimpleValue::FalseValue) => Ok(false),
        _ => unexpected(),
    }
}

/// What an optional item says.
pub open spec fn seen(value: Option<&Value>) -> Option<Item> {
    match value {
        Some(v) => Some(v@),
        None => None,
    }
}

/// The item for a number as key.
pub fn find(entries: &Vec<(Value, Value)>, key: u64) -> (value: Option<&Value>)
    ensures
        seen(value) == at(model::entries(entries@), key),
{
    let mut i: usize = entries.len();
    assert(entries@.take(i as int) =~= entries@);
    while i > 0
        invariant
            i <= entries@.len(),
            at(model::entries(entries@), key) == at(model::entries(entries@.take(i as int)), key),
        decreases i,
    {
        i -= 1;
        let ghost next = entries@.take(i + 1);
        assert(next.drop_last() =~= entries@.take(i as int));
        assert(model::entries(next).drop_last() =~= model::entries(entries@.take(i as int)));
        assert(model::entries(next).last() == (entries@[i as int].0@, entries@[i as int].1@));
        if let Value::Unsigned(n) = &entries[i].0 {
            if *n == key {
                return Some(&entries[i].1);
            }
        }
    }
    None
}

/// The item for the number `-1 - key` as key.
pub fn find_negative(entries: &Vec<(Value, Value)>, key: u64) -> (value: Option<&Value>)
    ensures
        seen(value) == at_negative(model::entries(entries@), key),
{
    let mut i: usize = entries.len();
    assert(entries@.take(i as int) =~= entries@);
    while i > 0
        invariant
            i <= entries@.len(),
            at_negative(model::entries(entries@), key) == at_negative(
                model::entries(entries@.take(i as int)),
                key,
            ),
        decreases i,
    {
        i -= 1;
        let ghost next = entries@.take(i + 1);
        assert(next.drop_last() =~= entries@.take(i as int));
        assert(model::entries(next).drop_last() =~= model::entries(entries@.take(i as int)));
        assert(model::entries(next).last() == (entries@[i as int].0@, entries@[i as int].1@));
        if let Value::Negative(n) = &entries[i].0 {
            if *n == key {
                return Some(&entries[i].1);
            }
        }
    }
    None
}

/// The item for a name as key.
pub fn find_named<'b>(entries: &'b Vec<(Value, Value)>, name: &str) -> (value: Option<&'b Value>)
    ensures
        seen(value) == named(model::entries(entries@), name@),
{
    let mut i: usize = entries.len();
    assert(entries@.take(i as int) =~= entries@);
    while i > 0
        invariant
            i <= entries@.len(),
            named(model::entries(entries@), name@) == named(
                model::entries(entries@.take(i as int)),
                name@,
            ),
        decreases i,
    {
        i -= 1;
        let ghost next = entries@.take(i + 1);
        assert(next.drop_last() =~= entries@.take(i as int));
        assert(model::entries(next).drop_last() =~= model::entries(entries@.take(i as int)));
        assert(model::entries(next).last() == (entries@[i as int].0@, entries@[i as int].1@));
        if let Value::TextString(s) = &entries[i].0 {
            if text::equal(s.as_str(), name) {
                return Some(&entries[i].1);
            }
        }
    }
    None
}

/// An item that has to be there.
pub fn needed(value: Option<&Value>) -> (needed: Result<&Value, Ctap2StatusCode>)
    ensures
        match needed {
            Ok(v) => value == Some(v),
            Err(e) => value is None && e == Ctap2StatusCode::CTAP2_ERR_MISSING_PARAMETER,
        },
{
    match value {
        Some(v) => Ok(v),
        None => Err(Ctap2StatusCode::CTAP2_ERR_MISSING_PARAMETER),
    }
}

/// The entries of a map.
pub fn entries_of(value: &Value) -> (entries: Result<&Vec<(Value, Value)>, Ctap2StatusCode>)
    ensures
        match entries {
            Ok(list) => as_entries(value@) == Ok::<Seq<(Item, Item)>, Ctap2StatusCode>(
                model::entries(list@),
            ),
            Err(e) => as_entries(value@) == Err::<Seq<(Item, Item)>, _>(e),
        },
{
    match value {
        Value::Table(list) => Ok(list),
        _ => Err(Ctap2StatusCode::CTAP2_ERR_CBOR_UNEXPECTED_TYPE),
    }
}

/// The items of a list.
pub fn items_of(value: &Value) -> (items: Result<&Vec<Value>, Ctap2StatusCode>)
    ensures
        match items {
            Ok(list) => as_items(value@) == Ok::<Seq<Item>, Ctap2StatusCode>(model::items(list@)),
            Err(e) => as_items(value@) == Err::<Seq<Item>, _>(e),
        },
{
    match value {
        Value::Array(list) => Ok(list),
        _ => Err(Ctap2StatusCode::CTAP2_ERR_CBOR_UNEXPECTED_TYPE),
    }
}

/// A byte string.
pub fn bytes_of(value: &Value) -> (bytes: Result<Vec<u8>, Ctap2StatusCode>)
    ensures
        match bytes {
            Ok(s) => as_bytes(value@) == Ok::<Seq<u8>, Ctap2StatusCode>(s@),
            Err(e) => as_bytes(value@) == Err::<Seq<u8>, _>(e),
        },
{
    match value {
        Value::ByteString(s) => Ok(slice_to_vec(s.as_slice())),
        _ => Err(Ctap2StatusCode::CTAP2_ERR_CBOR_UNEXPECTED_TYPE),
    }
}

/// A text.
pub fn text_of(value: &Value) -> (text: Result<String, Ctap2StatusCode>)
    ensures
        match text {
            Ok(s) => as_text(value@) == Ok::<Seq<char>, Ctap2StatusCode>(s@),
            Err(e) => as_text(value@) == Err::<Seq<char>, _>(e),
        },
{
    match value {
        Value::TextString(s) => Ok(s.clone()),
        _ => Err(Ctap2StatusCode::CTAP2_ERR_CBOR_UNEXPECTED_TYPE),
    }
}

/// A number that is not negative.
pub fn unsigned_of(value: &Value) -> (n: Result<u64, Ctap2StatusCode>)
    ensures
        n == as_unsigned(value@),
{
    match value {
        Value::Unsigned(n) => Ok(*n),
        _ => Err(Ctap2StatusCode::CTAP2_ERR_CBOR_UNEXPECTED_TYPE),
    }
}

/// Whether a number is the given one.
pub fn is_integer(value: &Value, expected: i64) -> (same: Result<bool, Ctap2StatusCode>)
    ensures
        match same {
            Ok(b) => as_integer(value@) matches Ok(n) && b == (n == expected),
            Err(e) => as_integer(value@) == Err::<int, _>(e),
        },
{
    match value {
        Value::Unsigned(n) => Ok(expected >= 0 && *n == expected as u64),
        Value::Negative(n) => Ok(expected < 0 && *n == (-1 - expected) as u64),
        _ => Err(Ctap2StatusCode::CTAP2_ERR_CBOR_UNEXPECTED_TYPE),
    }
}

/// A truth value.
pub fn bool_of(value: &Value) -> (b: Result<bool, Ctap2StatusCode>)
    ensures
        b == as_bool(value@),
{
    match value {
        Value::Simple(SimpleValue::TrueValue) => Ok(true),
        Value::Simple(SimpleValue::FalseValue) => Ok(false),
        _ => Err(Ctap2StatusCode::CTAP2_ERR_CBOR_UNEXPECTED_TYPE),
    }
}

/// A byte string that need not be there.
pub fn optional_bytes(value: Option<&Value>) -> (bytes: Result<Option<Vec<u8>>, Ctap2StatusCode>)
    ensures
        match bytes {
            Ok(s) => may(seen(value), |v: Item| as_bytes(v)) == Ok::<
                Option<Seq<u8>>,
                Ctap2StatusCode,
            >(crate::ctap::data_formats::bytes_model(s)),
            Err(e) => may(seen(value), |v: Item| as_bytes(v)) == Err::<Option<Seq<u8>>, _>(e),
        },
{
    match value {
        Some(v) => Ok(Some(bytes_of(v)?)),
        None => Ok(None),
    }
}

/// A text that need not be there.
pub fn optional_text(value: Option<&Value>) -> (text: Result<Option<String>, Ctap2StatusCode>)
    ensures
        match text {
            Ok(s) => may(seen(value), |v: Item| as_text(v)) == Ok::<
                Option<Seq<char>>,
                Ctap2StatusCode,
            >(crate::ctap::data_formats::text_model(s)),
            Err(e) => may(seen(value), |v: Item| as_text(v)) == Err::<Option<Seq<char>>, _>(e),
        },
{
    match value {
        Some(v) => Ok(Some(text_of(v)?)),
        None => Ok(None),
    }
}

/// A number that need not be there.
pub fn optional_unsigned(value: Option<&Value>) -> (n: Result<Option<u64>, Ctap2StatusCode>)
    ensures
        n == may(seen(value), |v: Item| as_unsigned(v)),
{
    match value {
        Some(v) => Ok(Some(unsigned_of(v)?)),
        None => Ok(None),
    }
}

/// A truth value, with what it is if it is not there.
pub open spec fn as_flag(value: Option<Item>, default: bool) -> Result<bool, Ctap2StatusCode> {
    match value {
        Some(v) => as_bool(v),
        None => Ok(default),
    }
}

/// A truth value, with what it is if it is not there.
pub fn flag_of(value: Option<&Value>, default: bool) -> (flag: Result<bool, Ctap2StatusCode>)
    ensures
        flag == as_flag(seen(value), default),
{
    match value {
        Some(v) => bool_of(v),
        None => Ok(default),
    }
}

/// A byte string of 32 bytes.
pub open spec fn as_coordinate(value: Item) -> Result<Seq<u8>, Ctap2StatusCode> {
    match as_bytes(value) {
        Ok(s) => if s.len() == 32 {
            Ok(s)
        } else {
            Err(Ctap2StatusCode::CTAP1_ERR_INVALID_PARAMETER)
        },
        Err(e) => Err(e),
    }
}

/// A byte string of 32 bytes.
pub fn coordinate_of(value: &Value) -> (coordinate: Result<[u8; 32], Ctap2StatusCode>)
    ensures
        match coordinate {
            Ok(c) => as_coordinate(value@) == Ok::<Seq<u8>, Ctap2StatusCode>(c@),
            Err(e) => as_coordinate(value@) == Err::<Seq<u8>, _>(e),
        },
{
    match value {
        Value::ByteString(s) => if s.len() == 32 {
            Ok(bytes::to_array(s.as_slice()))
        } else {
            Err(Ctap2StatusCode::CTAP1_ERR_INVALID_PARAMETER)
        },
        _ => Err(Ctap2StatusCode::CTAP2_ERR_CBOR_UNEXPECTED_TYPE),
    }
}

} // verus!
