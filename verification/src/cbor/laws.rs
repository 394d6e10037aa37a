//! What the encoding of data items promises.

use crate::bytes;
use crate::cbor::model;
use crate::cbor::model::{Item, SimpleValue};
use crate::cbor::reader;
use vstd::prelude::*;

verus! {

/// Whether bytes are a head: the highest three bits of the first tell the kind;
/// the others are the number if it is below 24, and else tell in how many bytes
/// it follows, which are as few as possible.
pub open spec fn is_head(head: Seq<u8>, major: int, n: int) -> bool {
    &&& head.len() > 0
    &&& head[0] / 32 == major
    &&& {
        ||| head.len() == 1 && n < 24 && head[0] % 32 == n
        ||| head.len() == 2 && 24 <= n && head[0] % 32 == 24
        ||| head.len() == 3 && 0x100 <= n && head[0] % 32 == 25
        ||| head.len() == 5 && 0x1_0000 <= n && head[0] % 32 == 26
        ||| head.len() == 9 && 0x1_0000_0000 <= n && head[0] % 32 == 27
    }
    &&& head.len() > 1 ==> bytes::be_nat(head.skip(1)) == n
}

/// Heads are told apart from what follows them, and spell their number.
pub proof fn law_heads_spell_numbers(major: u8, n: u64)
    requires
        major < 8,
    ensures
        is_head(model::head(major, n), major as int, n as int),
{
    let head = model::head(major, n);
    if n >= 24 {
        let len: nat = if n <= 0xff {
            1
        } else if n <= 0xffff {
            2
        } else if n <= 0xffff_ffff {
            4
        } else {
            8
        };
        assert(n < vstd::arithmetic::power::pow(256, len)) by {
            assert(vstd::arithmetic::power::pow(256, 1) == 0x100) by {
                reveal_with_fuel(vstd::arithmetic::power::pow, 2);
            }
            assert(vstd::arithmetic::power::pow(256, 2) == 0x1_0000) by {
                reveal_with_fuel(vstd::arithmetic::power::pow, 3);
            }
            assert(vstd::arithmetic::power::pow(256, 4) == 0x1_0000_0000) by {
                reveal_with_fuel(vstd::arithmetic::power::pow, 5);
            }
            assert(vstd::arithmetic::power::pow(256, 8) == 0x1_0000_0000_0000_0000) by {
                reveal_with_fuel(vstd::arithmetic::power::pow, 9);
            }
        }
        bytes::lemma_be_nat_of_bytes(n as nat, len);
        assert(head.skip(1) =~= bytes::be_bytes(n as nat, len));
    }
}

/// Whether bytes are a head and what follows it.
pub open spec fn is_headed(encoded: Seq<u8>, major: int, n: int, contents: Seq<u8>) -> bool {
    exists|head: Seq<u8>| #[trigger] is_head(head, major, n) && encoded == head + contents
}

/// Every kind of item is encoded behind a head of its own: numbers by the head
/// alone, strings with their bytes, lists with their items, and maps with their
/// keys and items.
pub proof fn law_kinds_are_told_by_heads(value: Item)
    ensures
        match value {
            Item::Unsigned(n) => is_head(model::encode(value), 0, n as int),
            Item::Negative(n) => is_head(model::encode(value), 1, n as int),
            Item::ByteString(s) => s.len() <= u64::MAX ==> is_headed(
                model::encode(value),
                2,
                s.len() as int,
                s,
            ),
            Item::TextString(s) => vstd::utf8::encode_utf8(s).len() <= u64::MAX ==> is_headed(
                model::encode(value),
                3,
                vstd::utf8::encode_utf8(s).len() as int,
                vstd::utf8::encode_utf8(s),
            ),
            Item::Array(list) => list.len() <= u64::MAX ==> is_headed(
                model::encode(value),
                4,
                list.len() as int,
                model::encode_items(list),
            ),
            Item::Table(list) => list.len() <= u64::MAX ==> is_headed(
                model::encode(value),
                5,
                list.len() as int,
                model::encode_entries(list),
            ),
            Item::Simple(SimpleValue::FalseValue) => model::encode(value) == seq![0xf4u8],
            Item::Simple(SimpleValue::TrueValue) => model::encode(value) == seq![0xf5u8],
            Item::Simple(SimpleValue::NullValue) => model::encode(value) == seq![0xf6u8],
            Item::Simple(SimpleValue::Undefined) => model::encode(value) == seq![0xf7u8],
        },
{
    match value {
        Item::Unsigned(n) => law_heads_spell_numbers(0, n),
        Item::Negative(n) => law_heads_spell_numbers(1, n),
        Item::ByteString(s) => law_heads_spell_numbers(2, s.len() as u64),
        Item::TextString(s) => law_heads_spell_numbers(
            3,
            vstd::utf8::encode_utf8(s).len() as u64,
        ),
        Item::Array(list) => law_heads_spell_numbers(4, list.len() as u64),
        Item::Table(list) => law_heads_spell_numbers(5, list.len() as u64),
        Item::Simple(_) => {},
    }
}

/// The items of a list, and the keys and items of a map, are encoded one after
/// the other.
pub proof fn law_parts_follow_each_other(
    list: Seq<Item>,
    entries: Seq<(Item, Item)>,
    key: Item,
    value: Item,
)
    ensures
        model::encode_items(Seq::empty()) == Seq::<u8>::empty(),
        model::encode_items(list.push(value)) == model::encode_items(list) + model::encode(value),
        model::encode_entries(Seq::empty()) == Seq::<u8>::empty(),
        model::encode_entries(entries.push((key, value))) == model::encode_entries(entries)
            + model::encode(key) + model::encode(value),
{
    assert(list.push(value).drop_last() =~= list);
    assert(entries.push((key, value)).drop_last() =~= entries);
}

/// Whether one byte string comes before another of the same length: at the first
/// byte at which they differ, its byte is the lower one.
pub open spec fn differs_lower(a: Seq<u8>, b: Seq<u8>) -> bool {
    exists|k: int|
        0 <= k < a.len() && k < b.len() && #[trigger] a[k] < b[k] && forall|i: int|
            0 <= i < k ==> #[trigger] a[i] == b[i]
}

proof fn lemma_lexicographic(a: Seq<u8>, b: Seq<u8>)
    ensures
        reader::lexicographic(a, b) <==> differs_lower(a, b),
    decreases a.len(),
{
    if a.len() > 0 && b.len() > 0 {
        if a[0] == b[0] {
            let c = a.skip(1);
            let d = b.skip(1);
            lemma_lexicographic(c, d);
            if differs_lower(c, d) {
                let k = choose|k: int|
                    0 <= k < c.len() && k < d.len() && #[trigger] c[k] < d[k] && forall|i: int|
                        0 <= i < k ==> #[trigger] c[i] == d[i];
                assert(a[k + 1] < b[k + 1]);
                assert forall|i: int| 0 <= i < k + 1 implies #[trigger] a[i] == b[i] by {
                    if i > 0 {
                        assert(c[i - 1] == d[i - 1]);
                    }
                }
            }
            if differs_lower(a, b) {
                let k = choose|k: int|
                    0 <= k < a.len() && k < b.len() && #[trigger] a[k] < b[k] && forall|i: int|
                        0 <= i < k ==> #[trigger] a[i] == b[i];
                assert(c[k - 1] < d[k - 1]);
                assert forall|i: int| 0 <= i < k - 1 implies #[trigger] c[i] == d[i] by {
                    assert(a[i + 1] == b[i + 1]);
                }
            }
        } else {
            if a[0] < b[0] {
                assert(differs_lower(a, b));
            } else if differs_lower(a, b) {
                let k = choose|k: int|
                    0 <= k < a.len() && k < b.len() && #[trigger] a[k] < b[k] && forall|i: int|
                        0 <= i < k ==> #[trigger] a[i] == b[i];
                assert(k != 0);
                assert(a[0] == b[0]);
            }
        }
    }
}

/// Whether one string comes before another: shorter ones first.
pub open spec fn comes_before(a: Seq<u8>, b: Seq<u8>) -> bool {
    a.len() < b.len() || a.len() == b.len() && differs_lower(a, b)
}

/// Keys come in order: numbers first, the negative ones behind the others and
/// the closest to zero first; then byte strings and then texts, shorter ones
/// first. Nothing else is a key.
pub proof fn law_keys_are_ordered(a: Item, b: Item)
    requires
        reader::is_key(a),
        reader::is_key(b),
    ensures
        !(a is Array) && !(a is Table) && !(a is Simple),
        reader::key_before(a, b) <==> match (a, b) {
            (Item::Unsigned(m), Item::Unsigned(n)) => m < n,
            (Item::Unsigned(_), _) => true,
            (Item::Negative(_), Item::Unsigned(_)) => false,
            (Item::Negative(m), Item::Negative(n)) => m < n,
            (Item::Negative(_), _) => true,
            (Item::ByteString(s), Item::ByteString(t)) => comes_before(s, t),
            (Item::ByteString(_), Item::TextString(_)) => true,
            (Item::TextString(s), Item::TextString(t)) => comes_before(
                vstd::utf8::encode_utf8(s),
                vstd::utf8::encode_utf8(t),
            ),
            _ => false,
        },
{
    match (a, b) {
        (Item::ByteString(s), Item::ByteString(t)) => lemma_lexicographic(s, t),
        (Item::TextString(s), Item::TextString(t)) => lemma_lexicographic(
            vstd::utf8::encode_utf8(s),
            vstd::utf8::encode_utf8(t),
        ),
        _ => {},
    }
}

proof fn lemma_canonical_items(list: Seq<Item>)
    ensures
        reader::canonical_items(list) <==> (forall|i: int|
            0 <= i < list.len() ==> reader::canonical(#[trigger] list[i])),
    decreases list.len(),
{
    if list.len() > 0 {
        let start = list.drop_last();
        lemma_canonical_items(start);
        assert(list[list.len() - 1] == list.last());
        assert(forall|i: int| 0 <= i < start.len() ==> #[trigger] start[i] == list[i]);
        assert(forall|i: int| 0 <= i < start.len() ==> #[trigger] list[i] == start[i]);
    }
}

/// Whether an entry of a map is in canonical form: its key is one, and comes
/// behind the one before it.
pub open spec fn is_canonical_entry(list: Seq<(Item, Item)>, i: int) -> bool {
    &&& list[i].0 is Unsigned || list[i].0 is Negative || list[i].0 is ByteString
        || list[i].0 is TextString
    &&& reader::canonical(list[i].0)
    &&& reader::canonical(list[i].1)
    &&& i > 0 ==> reader::key_before(list[i - 1].0, list[i].0)
}

proof fn lemma_canonical_entries(list: Seq<(Item, Item)>)
    ensures
        reader::canonical_entries(list) <==> (forall|i: int|
            0 <= i < list.len() ==> #[trigger] is_canonical_entry(list, i)),
    decreases list.len(),
{
    if list.len() > 0 {
        let start = list.drop_last();
        let last = list.len() - 1;
        lemma_canonical_entries(start);
        assert(list[last] == list.last());
        assert forall|i: int| 0 <= i < last implies is_canonical_entry(start, i)
            == #[trigger] is_canonical_entry(list, i) by {
            assert(start[i] == list[i]);
        }
        assert forall|i: int| 0 <= i < last implies #[trigger] is_canonical_entry(start, i)
            == is_canonical_entry(list, i) by {
            assert(start[i] == list[i]);
        }
        if reader::canonical_entries(list) {
            assert(is_canonical_entry(list, last));
        }
        if forall|i: int| 0 <= i < list.len() ==> #[trigger] is_canonical_entry(list, i) {
            assert(is_canonical_entry(list, last));
            assert forall|i: int| 0 <= i < start.len() implies #[trigger] is_canonical_entry(
                start,
                i,
            ) by {
                assert(is_canonical_entry(list, i));
            }
        }
    }
}

/// Exactly those items can be read that are in canonical form and not nested
/// more than four deep. Of the simple items all are, and negative numbers that
/// fit into 64 bits; lists and maps are if their parts are.
pub proof fn law_canonical_items_are_readable(value: Item)
    ensures
        reader::readable(value) <==> reader::canonical(value) && model::nested_at_most(value, 4),
        reader::canonical(value) <==> match value {
            Item::Unsigned(_) => true,
            Item::Negative(n) => n < 0x8000_0000_0000_0000,
            Item::ByteString(s) => s.len() <= u64::MAX,
            Item::TextString(s) => vstd::utf8::encode_utf8(s).len() <= u64::MAX,
            Item::Array(list) => list.len() <= u64::MAX && forall|i: int|
                0 <= i < list.len() ==> reader::canonical(#[trigger] list[i]),
            Item::Table(list) => list.len() <= u64::MAX && forall|i: int|
                0 <= i < list.len() ==> #[trigger] is_canonical_entry(list, i),
            Item::Simple(_) => true,
        },
{
    match value {
        Item::Array(list) => lemma_canonical_items(list),
        Item::Table(list) => lemma_canonical_entries(list),
        _ => {},
    }
}

/// What is not a list or a map is nested in nothing; a list or a map is nested
/// one deeper than its parts.
pub proof fn law_nesting_counts_lists_and_maps(value: Item, depth: int)
    ensures
        model::nested_at_most(value, depth) <==> depth >= 0 && match value {
            Item::Array(list) => forall|i: int|
                0 <= i < list.len() ==> model::nested_at_most(#[trigger] list[i], depth - 1),
            Item::Table(list) => forall|i: int|
                0 <= i < list.len() ==> model::nested_at_most((#[trigger] list[i]).0, depth - 1)
                    && model::nested_at_most(list[i].1, depth - 1),
            _ => true,
        },
{
    match value {
        Item::Array(list) => model::lemma_items_nested(list, depth - 1),
        Item::Table(list) => model::lemma_entries_nested(list, depth - 1),
        _ => {},
    }
}

} // verus!
