//! CBOR data items, and the bytes that they are encoded as.

use vstd::prelude::*;

verus! {

/// The simple values that are in use.
#[derive(Clone, Copy, Debug, PartialEq, Eq, Structural)]
pub enum SimpleValue {
    FalseValue,
    TrueValue,
    NullValue,
    Undefined,
}

impl SimpleValue {
    /// The number that stands for the value in an encoding.
    pub open spec fn number(self) -> u64 {
        match self {
            SimpleValue::FalseValue => 20,
            SimpleValue::TrueValue => 21,
            SimpleValue::NullValue => 22,
            SimpleValue::Undefined => 23,
        }
    }

    /// The number that stands for the value in an encoding.
    pub fn to_number(self) -> (number: u64)
        ensures
            number == self.number(),
    {
        match self {
            SimpleValue::FalseValue => 20,
            SimpleValue::TrueValue => 21,
            SimpleValue::NullValue => 22,
            SimpleValue::Undefined => 23,
        }
    }
}

/// A data item.
#[derive(Debug, PartialEq)]
pub enum Value {
    /// A number that is not negative.
    Unsigned(u64),
    /// The negative number `-1 - n`.
    Negative(u64),
    /// A byte string.
    ByteString(Vec<u8>),
    /// A text string.
    TextString(String),
    /// A list of items.
    Array(Vec<Value>),
    /// A list of keys, each with the item that it leads to.
    Table(Vec<(Value, Value)>),
    /// One of the simple values.
    Simple(SimpleValue),
}

/// What a data item says.
pub enum Item {
    Unsigned(u64),
    Negative(u64),
    ByteString(Seq<u8>),
    TextString(Seq<char>),
    Array(Seq<Item>),
    Table(Seq<(Item, Item)>),
    Simple(SimpleValue),
}

impl View for Value {
    type V = Item;

    open spec fn view(&self) -> Item {
        item(*self)
    }
}

/// What a data item says.
pub open spec fn item(value: Value) -> Item
    decreases value,
{
    match value {
        Value::Unsigned(n) => Item::Unsigned(n),
        Value::Negative(n) => Item::Negative(n),
        Value::ByteString(s) => Item::ByteString(s@),
        Value::TextString(s) => Item::TextString(s@),
        Value::Array(s) => Item::Array(items(s@)),
        Value::Table(s) => Item::Table(entries(s@)),
        Value::Simple(s) => Item::Simple(s),
    }
}

/// What the items of a list say.
pub open spec fn items(values: Seq<Value>) -> Seq<Item>
    decreases values,
{
    if values.len() == 0 {
        Seq::empty()
    } else {
        items(values.drop_last()).push(item(values.last()))
    }
}

/// What the entries of a map say.
pub open spec fn entries(pairs: Seq<(Value, Value)>) -> Seq<(Item, Item)>
    decreases pairs,
{
    if pairs.len() == 0 {
        Seq::empty()
    } else {
        entries(pairs.drop_last()).push((item(pairs.last().0), item(pairs.last().1)))
    }
}

/// The lists that stand for lists are as long as those.
pub proof fn lemma_items_index(values: Seq<Value>)
    ensures
        items(values).len() == values.len(),
        forall|i: int| 0 <= i < values.len() ==> #[trigger] items(values)[i] == item(values[i]),
    decreases values.len(),
{
    if values.len() > 0 {
        lemma_items_index(values.drop_last());
    }
}

/// The maps that stand for maps are as long as those.
pub proof fn lemma_entries_index(pairs: Seq<(Value, Value)>)
    ensures
        entries(pairs).len() == pairs.len(),
        forall|i: int|
            0 <= i < pairs.len() ==> #[trigger] entries(pairs)[i] == (
                item(pairs[i].0),
                item(pairs[i].1),
            ),
    decreases pairs.len(),
{
    if pairs.len() > 0 {
        lemma_entries_index(pairs.drop_last());
    }
}

/// The head of an item: its major type, and a number in as few bytes as
/// possible.
pub open spec fn head(major: u8, n: u64) -> Seq<u8> {
    let m = (major * 32) as u8;
    if n < 24 {
        seq![(m + n) as u8]
    } else if n <= 0xff {
        seq![(m + 24) as u8] + crate::bytes::be_bytes(n as nat, 1)
    } else if n <= 0xffff {
        seq![(m + 25) as u8] + crate::bytes::be_bytes(n as nat, 2)
    } else if n <= 0xffff_ffff {
        seq![(m + 26) as u8] + crate::bytes::be_bytes(n as nat, 4)
    } else {
        seq![(m + 27) as u8] + crate::bytes::be_bytes(n as nat, 8)
    }
}

/// The bytes that an item is encoded as.
pub open spec fn encode(value: Item) -> Seq<u8>
    decreases value,
{
    match value {
        Item::Unsigned(n) => head(0, n),
        Item::Negative(n) => head(1, n),
        Item::ByteString(s) => head(2, s.len() as u64) + s,
        Item::TextString(s) => head(3, vstd::utf8::encode_utf8(s).len() as u64)
            + vstd::utf8::encode_utf8(s),
        Item::Array(s) => head(4, s.len() as u64) + encode_items(s),
        Item::Table(s) => head(5, s.len() as u64) + encode_entries(s),
        Item::Simple(s) => head(7, s.number()),
    }
}

/// The bytes of the items of a list, one after the other.
pub open spec fn encode_items(list: Seq<Item>) -> Seq<u8>
    decreases list,
{
    if list.len() == 0 {
        Seq::empty()
    } else {
        encode_items(list.drop_last()) + encode(list.last())
    }
}

/// The bytes of the keys and items of a map, one after the other.
pub open spec fn encode_entries(list: Seq<(Item, Item)>) -> Seq<u8>
    decreases list,
{
    if list.len() == 0 {
        Seq::empty()
    } else {
        encode_entries(list.drop_last()) + (encode(list.last().0) + encode(list.last().1))
    }
}

/// How deep items may be nested in one another.
pub const MAX_NESTING: i8 = 4;

/// Whether at most `depth` lists and maps are nested in one another.
pub open spec fn nested_at_most(value: Item, depth: int) -> bool
    decreases value,
{
    depth >= 0 && match value {
        Item::Array(s) => items_nested_at_most(s, depth - 1),
        Item::Table(s) => entries_nested_at_most(s, depth - 1),
        _ => true,
    }
}

/// Whether this holds of every item of a list.
pub open spec fn items_nested_at_most(list: Seq<Item>, depth: int) -> bool
    decreases list,
{
    list.len() == 0 || (items_nested_at_most(list.drop_last(), depth) && nested_at_most(
        list.last(),
        depth,
    ))
}

/// Whether this holds of every key and item of a map.
pub open spec fn entries_nested_at_most(list: Seq<(Item, Item)>, depth: int) -> bool
    decreases list,
{
    list.len() == 0 || (entries_nested_at_most(list.drop_last(), depth) && nested_at_most(
        list.last().0,
        depth,
    ) && nested_at_most(list.last().1, depth))
}

/// An item that is nested at most so deep is nested at most deeper.
pub proof fn lemma_nested_monotone(value: Item, depth: int, deeper: int)
    requires
        nested_at_most(value, depth),
        depth <= deeper,
    ensures
        nested_at_most(value, deeper),
    decreases value,
{
    match value {
        Item::Array(s) => {
            lemma_items_nested_monotone(s, depth - 1, deeper - 1);
        },
        Item::Table(s) => {
            lemma_entries_nested_monotone(s, depth - 1, deeper - 1);
        },
        _ => {},
    }
}

proof fn lemma_items_nested_monotone(list: Seq<Item>, depth: int, deeper: int)
    requires
        items_nested_at_most(list, depth),
        depth <= deeper,
    ensures
        items_nested_at_most(list, deeper),
    decreases list,
{
    if list.len() > 0 {
        lemma_items_nested_monotone(list.drop_last(), depth, deeper);
        lemma_nested_monotone(list.last(), depth, deeper);
    }
}

proof fn lemma_entries_nested_monotone(list: Seq<(Item, Item)>, depth: int, deeper: int)
    requires
        entries_nested_at_most(list, depth),
        depth <= deeper,
    ensures
        entries_nested_at_most(list, deeper),
    decreases list,
{
    if list.len() > 0 {
        lemma_entries_nested_monotone(list.drop_last(), depth, deeper);
        lemma_nested_monotone(list.last().0, depth, deeper);
        lemma_nested_monotone(list.last().1, depth, deeper);
    }
}

/// A list is nested at most so deep as all of its items are.
pub proof fn lemma_items_nested(list: Seq<Item>, depth: int)
    ensures
        items_nested_at_most(list, depth) <==> (forall|i: int|
            0 <= i < list.len() ==> nested_at_most(#[trigger] list[i], depth)),
    decreases list.len(),
{
    if list.len() > 0 {
        lemma_items_nested(list.drop_last(), depth);
        assert(forall|i: int|
            0 <= i < list.len() - 1 ==> #[trigger] list[i] == list.drop_last()[i]);
        assert(forall|i: int| 0 <= i < list.len() - 1 ==> #[trigger] list.drop_last()[i] == list[i]);
    }
}

/// A map is nested at most so deep as all of its keys and items are.
pub proof fn lemma_entries_nested(list: Seq<(Item, Item)>, depth: int)
    ensures
        entries_nested_at_most(list, depth) <==> (forall|i: int|
            0 <= i < list.len() ==> nested_at_most((#[trigger] list[i]).0, depth)
                && nested_at_most(list[i].1, depth)),
    decreases list.len(),
{
    if list.len() > 0 {
        lemma_entries_nested(list.drop_last(), depth);
        assert(forall|i: int|
            0 <= i < list.len() - 1 ==> #[trigger] list[i] == list.drop_last()[i]);
        assert(forall|i: int| 0 <= i < list.len() - 1 ==> #[trigger] list.drop_last()[i] == list[i]);
    }
}

} // verus!
