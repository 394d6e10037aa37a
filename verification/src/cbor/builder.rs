//! Putting data items together.

use crate::cbor::model;
use crate::cbor::model::{Item, Value};
use vstd::prelude::*;
use vstd::slice::slice_to_vec;

verus! {

/// The item for a number.
pub open spec fn integer_item(n: int) -> Item {
    if n >= 0 {
        Item::Unsigned(n as u64)
    } else {
        Item::Negative((-1 - n) as u64)
    }
}

/// The item for a truth value.
pub open spec fn bool_item(b: bool) -> Item {
    Item::Simple(
        if b {
            model::SimpleValue::TrueValue
        } else {
            model::SimpleValue::FalseValue
        },
    )
}

/// The entry for a key, if there is an item for it.
pub open spec fn optional_entry(key: Item, value: Option<Item>) -> Seq<(Item, Item)> {
    match value {
        Some(v) => seq![(key, v)],
        None => Seq::empty(),
    }
}

/// What an optional item says.
pub open spec fn optional_item(value: Option<Value>) -> Option<Item> {
    match value {
        Some(v) => Some(v@),
        None => None,
    }
}

/// The item for a number.
pub fn integer(n: i64) -> (value: Value)
    ensures
        value@ == integer_item(n as int),
        model::nested_at_most(value@, 0),
{
    if n >= 0 {
        Value::Unsigned(n as u64)
    } else {
        Value::Negative((-1 - n) as u64)
    }
}

/// The item for a truth value.
pub fn boolean(b: bool) -> (value: Value)
    ensures
        value@ == bool_item(b),
        model::nested_at_most(value@, 0),
{
    if b {
        Value::Simple(model::SimpleValue::TrueValue)
    } else {
        Value::Simple(model::SimpleValue::FalseValue)
    }
}

/// The item for a text.
pub fn text(s: &str) -> (value: Value)
    ensures
        value@ == Item::TextString(s@),
        model::nested_at_most(value@, 0),
{
    Value::TextString(s.to_owned())
}

/// The item for a byte string.
pub fn byte_string(s: &[u8]) -> (value: Value)
    ensures
        value@ == Item::ByteString(s@),
        model::nested_at_most(value@, 0),
{
    Value::ByteString(slice_to_vec(s))
}

/// Whether every key and item of a map is nested at most so deep.
pub open spec fn flat(pairs: Seq<(Value, Value)>, depth: int) -> bool {
    model::entries_nested_at_most(model::entries(pairs), depth)
}

/// Appends an entry.
pub fn push(pairs: &mut Vec<(Value, Value)>, key: Value, value: Value)
    ensures
        model::entries(final(pairs)@) == model::entries(old(pairs)@).push((key@, value@)),
        forall|depth: int| #[trigger]
            flat(final(pairs)@, depth) == (flat(old(pairs)@, depth) && model::nested_at_most(
                key@,
                depth,
            ) && model::nested_at_most(value@, depth)),
{
    let ghost before = pairs@;
    pairs.push((key, value));
    assert(pairs@.drop_last() =~= before);
    assert(model::entries(pairs@).drop_last() =~= model::entries(before));
}

/// Appends an entry, if there is an item for it.
pub fn push_optional(pairs: &mut Vec<(Value, Value)>, key: Value, value: Option<Value>)
    ensures
        model::entries(final(pairs)@) == model::entries(old(pairs)@) + optional_entry(
            key@,
            optional_item(value),
        ),
        forall|depth: int| #[trigger]
            flat(final(pairs)@, depth) == (flat(old(pairs)@, depth) && (value matches Some(v)
                ==> model::nested_at_most(key@, depth) && model::nested_at_most(v@, depth))),
{
    let ghost before = model::entries(pairs@);
    match value {
        Some(v) => {
            push(pairs, key, v);
            assert(model::entries(pairs@) =~= before + optional_entry(key@, Some(v@)));
        },
        None => {
            assert(before + Seq::empty() =~= before);
        },
    }
}

/// An optional item that is nested at most so deep is nested at most deeper.
pub proof fn lemma_optional_monotone(value: Option<Value>, depth: int, deeper: int)
    requires
        value matches Some(v) ==> model::nested_at_most(v@, depth),
        depth <= deeper,
    ensures
        value matches Some(v) ==> model::nested_at_most(v@, deeper),
{
    if let Some(v) = value {
        model::lemma_nested_monotone(v@, depth, deeper);
    }
}

/// It does not matter how six lists are joined to a first one.
pub proof fn lemma_joined(
    first: Seq<(Item, Item)>,
    a: Seq<(Item, Item)>,
    b: Seq<(Item, Item)>,
    c: Seq<(Item, Item)>,
    d: Seq<(Item, Item)>,
    e: Seq<(Item, Item)>,
    f: Seq<(Item, Item)>,
)
    ensures
        first + a + b + c + d + e + f == first + (a + b + c + d + e + f),
{
    assert(first + a + b + c + d + e + f =~= first + (a + b + c + d + e + f));
}

} // verus!
