//! Reading data items.

use crate::bytes;
use crate::cbor::model;
use crate::cbor::model::{Item, SimpleValue, Value, MAX_NESTING};
use vstd::prelude::*;
use vstd::slice::{slice_subrange, slice_to_vec};

verus! {

/// Whether one byte string comes before another of the same length: by the
/// first byte in which they differ.
pub open spec fn lexicographic(a: Seq<u8>, b: Seq<u8>) -> bool
    decreases a.len(),
{
    if a.len() == 0 || b.len() == 0 {
        false
    } else if a[0] != b[0] {
        a[0] < b[0]
    } else {
        lexicographic(a.skip(1), b.skip(1))
    }
}

/// Whether one byte string comes before another: shorter ones come first.
pub open spec fn shorter_first(a: Seq<u8>, b: Seq<u8>) -> bool {
    a.len() < b.len() || (a.len() == b.len() && lexicographic(a, b))
}

/// The rank of a kind of key among the kinds.
pub open spec fn key_rank(key: Item) -> int {
    match key {
        Item::Unsigned(_) => 0,
        Item::Negative(_) => 1,
        Item::ByteString(_) => 2,
        Item::TextString(_) => 3,
        _ => 4,
    }
}

/// Whether an item may be a key.
pub open spec fn is_key(key: Item) -> bool {
    key_rank(key) < 4
}

/// Whether one key comes before another in a map.
pub open spec fn key_before(a: Item, b: Item) -> bool {
    match (a, b) {
        (Item::Unsigned(m), Item::Unsigned(n)) => m < n,
        (Item::Negative(m), Item::Negative(n)) => m < n,
        (Item::ByteString(s), Item::ByteString(t)) => shorter_first(s, t),
        (Item::TextString(s), Item::TextString(t)) => shorter_first(
            vstd::utf8::encode_utf8(s),
            vstd::utf8::encode_utf8(t),
        ),
        _ => key_rank(a) < key_rank(b),
    }
}

/// Whether an item is in canonical form: keys are numbers or strings, and come
/// in their order, none of them twice; negative numbers fit into 64 bits; and
/// so do all lengths.
pub open spec fn canonical(value: Item) -> bool
    decreases value,
{
    match value {
        Item::Unsigned(_) => true,
        Item::Negative(n) => n <= i64::MAX,
        Item::ByteString(s) => s.len() <= u64::MAX,
        Item::TextString(s) => vstd::utf8::encode_utf8(s).len() <= u64::MAX,
        Item::Array(s) => s.len() <= u64::MAX && canonical_items(s),
        Item::Table(s) => s.len() <= u64::MAX && canonical_entries(s),
        Item::Simple(_) => true,
    }
}

/// Whether all items of a list are in canonical form.
pub open spec fn canonical_items(list: Seq<Item>) -> bool
    decreases list,
{
    list.len() == 0 || (canonical_items(list.drop_last()) && canonical(list.last()))
}

/// Whether all entries of a map are in canonical form, and in order.
pub open spec fn canonical_entries(list: Seq<(Item, Item)>) -> bool
    decreases list,
{
    list.len() == 0 || {
        &&& canonical_entries(list.drop_last())
        &&& is_key(list.last().0)
        &&& canonical(list.last().0)
        &&& canonical(list.last().1)
        &&& list.len() > 1 ==> key_before(list[list.len() - 2].0, list.last().0)
    }
}

/// The head at the start of a byte string, and what follows it. Heads that are
/// longer than they need to be are none.
pub open spec fn decode_head(b: Seq<u8>) -> Option<(u8, u64, Seq<u8>)> {
    if b.len() == 0 {
        None
    } else {
        let major = b[0] / 32;
        let info = b[0] % 32;
        if info < 24 {
            Some((major, info as u64, b.skip(1)))
        } else if info == 24 {
            decode_long_head(b, major, 1, 24)
        } else if info == 25 {
            decode_long_head(b, major, 2, 0x100)
        } else if info == 26 {
            decode_long_head(b, major, 4, 0x1_0000)
        } else if info == 27 {
            decode_long_head(b, major, 8, 0x1_0000_0000)
        } else {
            None
        }
    }
}

/// A head whose number has `len` bytes and is at least `least`.
pub open spec fn decode_long_head(
    b: Seq<u8>,
    major: u8,
    len: int,
    least: nat,
) -> Option<(u8, u64, Seq<u8>)> {
    let n = bytes::be_nat(b.subrange(1, 1 + len));
    if b.len() < 1 + len || n < least {
        None
    } else {
        Some((major, n as u64, b.skip(1 + len)))
    }
}

/// The item at the start of a byte string, and what follows it.
pub open spec fn decode(b: Seq<u8>, depth: int) -> Option<(Item, Seq<u8>)>
    decreases depth + 1, 0int,
{
    if depth < 0 {
        None
    } else {
        match decode_head(b) {
            None => None,
            Some((major, n, rest)) => if major == 0 {
                Some((Item::Unsigned(n), rest))
            } else if major == 1 {
                if n <= i64::MAX {
                    Some((Item::Negative(n), rest))
                } else {
                    None
                }
            } else if major == 2 {
                if n <= rest.len() {
                    Some((Item::ByteString(rest.take(n as int)), rest.skip(n as int)))
                } else {
                    None
                }
            } else if major == 3 {
                if n <= rest.len() && vstd::utf8::valid_utf8(rest.take(n as int)) {
                    Some(
                        (
                            Item::TextString(vstd::utf8::decode_utf8(rest.take(n as int))),
                            rest.skip(n as int),
                        ),
                    )
                } else {
                    None
                }
            } else if major == 4 {
                match decode_items(rest, n as nat, depth - 1) {
                    Some((list, after)) => Some((Item::Array(list), after)),
                    None => None,
                }
            } else if major == 5 {
                match decode_entries(rest, n as nat, depth - 1) {
                    Some((list, after)) => Some((Item::Table(list), after)),
                    None => None,
                }
            } else if major == 7 {
                match simple(n) {
                    Some(s) => Some((Item::Simple(s), rest)),
                    None => None,
                }
            } else {
                None
            },
        }
    }
}

/// The simple value that a number stands for.
pub open spec fn simple(n: u64) -> Option<SimpleValue> {
    if n == 20 {
        Some(SimpleValue::FalseValue)
    } else if n == 21 {
        Some(SimpleValue::TrueValue)
    } else if n == 22 {
        Some(SimpleValue::NullValue)
    } else if n == 23 {
        Some(SimpleValue::Undefined)
    } else {
        None
    }
}

/// The first `n` items of a byte string, and what follows them.
pub open spec fn decode_items(b: Seq<u8>, n: nat, depth: int) -> Option<(Seq<Item>, Seq<u8>)>
    decreases depth + 1, n + 1,
{
    if n == 0 {
        Some((Seq::empty(), b))
    } else if depth < 0 {
        None
    } else {
        match decode_items(b, (n - 1) as nat, depth) {
            None => None,
            Some((list, rest)) => match decode(rest, depth) {
                None => None,
                Some((value, after)) => Some((list.push(value), after)),
            },
        }
    }
}

/// The first `n` entries of a byte string, and what follows them.
pub open spec fn decode_entries(b: Seq<u8>, n: nat, depth: int) -> Option<
    (Seq<(Item, Item)>, Seq<u8>),
>
    decreases depth + 1, n + 1,
{
    if n == 0 {
        Some((Seq::empty(), b))
    } else if depth < 0 {
        None
    } else {
        match decode_entries(b, (n - 1) as nat, depth) {
            None => None,
            Some((list, rest)) => match decode(rest, depth) {
                None => None,
                Some((key, between)) => if !is_key(key) || (list.len() > 0 && !key_before(
                    list.last().0,
                    key,
                )) {
                    None
                } else {
                    match decode(between, depth) {
                        None => None,
                        Some((value, after)) => Some((list.push((key, value)), after)),
                    }
                },
            },
        }
    }
}

/// A head that is read is the one that was written.
proof fn lemma_head_sound(b: Seq<u8>)
    ensures
        decode_head(b) matches Some((major, n, rest)) ==> major < 8 && b == model::head(major, n)
            + rest,
{
    if let Some((major, n, rest)) = decode_head(b) {
        let info = b[0] % 32;
        assert(b[0] == major * 32 + info);
        let len: int = if info < 24 {
            0
        } else if info == 24 {
            1
        } else if info == 25 {
            2
        } else if info == 26 {
            4
        } else {
            8
        };
        if info >= 24 {
            let digits = b.subrange(1, 1 + len);
            bytes::lemma_be_bytes_of_nat(digits);
            bytes::lemma_be_nat_bound(digits);
            bytes::lemma_powers();
            assert(b =~= seq![b[0]] + digits + rest);
            assert(model::head(major, n) =~= seq![b[0]] + digits);
        } else {
            assert(b =~= seq![b[0]] + rest);
            assert(model::head(major, n) =~= seq![b[0]]);
        }
    }
}

/// A head that was written is the one that is read.
proof fn lemma_head_complete(major: u8, n: u64, rest: Seq<u8>)
    requires
        major < 8,
    ensures
        decode_head(model::head(major, n) + rest) == Some((major, n, rest)),
{
    let b = model::head(major, n) + rest;
    let m = (major * 32) as u8;
    if n < 24 {
        assert(b.skip(1) =~= rest);
    } else {
        let (len, info): (nat, int) = if n <= 0xff {
            (1, 24)
        } else if n <= 0xffff {
            (2, 25)
        } else if n <= 0xffff_ffff {
            (4, 26)
        } else {
            (8, 27)
        };
        let digits = bytes::be_bytes(n as nat, len);
        bytes::lemma_powers();
        bytes::lemma_be_nat_of_bytes(n as nat, len);
        assert(model::head(major, n) =~= seq![(m + info) as u8] + digits);
        assert(b.subrange(1, 1 + len as int) =~= digits);
        assert(b.skip(1 + len as int) =~= rest);
    }
}

/// An item that is read is in canonical form, and was encoded by the bytes that
/// it was read from.
proof fn lemma_decode_sound(b: Seq<u8>, depth: int)
    ensures
        decode(b, depth) matches Some((value, rest)) ==> canonical(value)
            && model::nested_at_most(value, depth) && b == model::encode(value) + rest,
    decreases depth + 1, 0int,
{
    if depth >= 0 {
        lemma_head_sound(b);
        if let Some((major, n, rest)) = decode_head(b) {
            let h = model::head(major, n);
            if let Some((value, after)) = decode(b, depth) {
                if major == 2 {
                    assert(b =~= h + rest.take(n as int) + rest.skip(n as int));
                } else if major == 3 {
                    vstd::utf8::decode_utf8_encode_utf8(rest.take(n as int));
                    assert(b =~= h + rest.take(n as int) + rest.skip(n as int));
                } else if major == 4 {
                    lemma_items_sound(rest, n as nat, depth - 1);
                    let list = value->Array_0;
                    assert(b =~= h + model::encode_items(list) + after);
                } else if major == 5 {
                    lemma_entries_sound(rest, n as nat, depth - 1);
                    let list = value->Table_0;
                    assert(b =~= h + model::encode_entries(list) + after);
                }
            }
        }
    }
}

proof fn lemma_items_sound(b: Seq<u8>, n: nat, depth: int)
    ensures
        decode_items(b, n, depth) matches Some((list, rest)) ==> list.len() == n
            && canonical_items(list) && model::items_nested_at_most(list, depth) && b
            == model::encode_items(list) + rest,
    decreases depth + 1, n + 1,
{
    if n == 0 {
        assert(b =~= Seq::<u8>::empty() + b);
    } else if depth >= 0 {
        lemma_items_sound(b, (n - 1) as nat, depth);
        if let Some((list, rest)) = decode_items(b, (n - 1) as nat, depth) {
            lemma_decode_sound(rest, depth);
            if let Some((value, after)) = decode(rest, depth) {
                let longer = list.push(value);
                assert(longer.drop_last() =~= list);
                assert(b =~= model::encode_items(longer) + after);
            }
        }
    }
}

proof fn lemma_entries_sound(b: Seq<u8>, n: nat, depth: int)
    ensures
        decode_entries(b, n, depth) matches Some((list, rest)) ==> list.len() == n
            && canonical_entries(list) && model::entries_nested_at_most(list, depth) && b
            == model::encode_entries(list) + rest,
    decreases depth + 1, n + 1,
{
    if n == 0 {
        assert(b =~= Seq::<u8>::empty() + b);
    } else if depth >= 0 {
        lemma_entries_sound(b, (n - 1) as nat, depth);
        if let Some((list, rest)) = decode_entries(b, (n - 1) as nat, depth) {
            lemma_decode_sound(rest, depth);
            if let Some((key, between)) = decode(rest, depth) {
                lemma_decode_sound(between, depth);
                if let Some((value, after)) = decode(between, depth) {
                    if decode_entries(b, n, depth) is Some {
                        let longer = list.push((key, value));
                        assert(longer.drop_last() =~= list);
                        assert(b =~= model::encode_entries(longer) + after);
                    }
                }
            }
        }
    }
}

/// An item in canonical form is read back from its encoding.
#[verifier::spinoff_prover]
#[verifier::rlimit(60)]
proof fn lemma_decode_complete(value: Item, rest: Seq<u8>, depth: int)
    requires
        canonical(value),
        model::nested_at_most(value, depth),
    ensures
        decode(model::encode(value) + rest, depth) == Some((value, rest)),
    decreases value,
{
    match value {
        Item::Unsigned(n) => {
            lemma_head_complete(0, n, rest);
        },
        Item::Negative(n) => {
            lemma_head_complete(1, n, rest);
        },
        Item::ByteString(s) => {
            let h = model::head(2, s.len() as u64);
            lemma_head_complete(2, s.len() as u64, s + rest);
            assert(model::encode(value) + rest =~= h + (s + rest));
            assert((s + rest).take(s.len() as int) =~= s);
            assert((s + rest).skip(s.len() as int) =~= rest);
        },
        Item::TextString(s) => {
            let e = vstd::utf8::encode_utf8(s);
            let h = model::head(3, e.len() as u64);
            lemma_head_complete(3, e.len() as u64, e + rest);
            vstd::utf8::encode_utf8_valid_utf8(s);
            vstd::utf8::encode_utf8_decode_utf8(s);
            assert(model::encode(value) + rest =~= h + (e + rest));
            assert((e + rest).take(e.len() as int) =~= e);
            assert((e + rest).skip(e.len() as int) =~= rest);
        },
        Item::Array(s) => {
            let h = model::head(4, s.len() as u64);
            let e = model::encode_items(s);
            lemma_head_complete(4, s.len() as u64, e + rest);
            lemma_items_complete(s, rest, depth - 1);
            assert(model::encode(value) + rest =~= h + (e + rest));
        },
        Item::Table(s) => {
            let h = model::head(5, s.len() as u64);
            let e = model::encode_entries(s);
            lemma_head_complete(5, s.len() as u64, e + rest);
            lemma_entries_complete(s, rest, depth - 1);
            assert(model::encode(value) + rest =~= h + (e + rest));
        },
        Item::Simple(s) => {
            lemma_head_complete(7, s.number(), rest);
        },
    }
}

proof fn lemma_items_complete(list: Seq<Item>, rest: Seq<u8>, depth: int)
    requires
        canonical_items(list),
        model::items_nested_at_most(list, depth),
    ensures
        decode_items(model::encode_items(list) + rest, list.len(), depth) == Some((list, rest)),
    decreases list,
{
    if list.len() == 0 {
        assert(Seq::<u8>::empty() + rest =~= rest);
        assert(list =~= Seq::empty());
    } else {
        let start = list.drop_last();
        let last = model::encode(list.last());
        lemma_items_complete(start, last + rest, depth);
        lemma_decode_complete(list.last(), rest, depth);
        assert(model::encode_items(list) + rest =~= model::encode_items(start) + (last + rest));
        assert(list =~= start.push(list.last()));
    }
}

#[verifier::spinoff_prover]
#[verifier::rlimit(60)]
proof fn lemma_entries_complete(list: Seq<(Item, Item)>, rest: Seq<u8>, depth: int)
    requires
        canonical_entries(list),
        model::entries_nested_at_most(list, depth),
    ensures
        decode_entries(model::encode_entries(list) + rest, list.len(), depth) == Some(
            (list, rest),
        ),
    decreases list,
{
    if list.len() == 0 {
        assert(Seq::<u8>::empty() + rest =~= rest);
        assert(list =~= Seq::empty());
    } else {
        let start = list.drop_last();
        let key = model::encode(list.last().0);
        let value = model::encode(list.last().1);
        lemma_entries_complete(start, key + (value + rest), depth);
        lemma_decode_complete(list.last().0, value + rest, depth);
        lemma_decode_complete(list.last().1, rest, depth);
        assert(model::encode_entries(list) + rest =~= model::encode_entries(start) + (key + (value
            + rest)));
        assert(list =~= start.push(list.last()));
    }
}

/// Calls `core::str::from_utf8`: bytes that are valid UTF-8 are taken as the
/// text that they encode, and others are refused.
#[verifier::external_body]
fn text_of(bytes: &[u8]) -> (text: Option<String>)
    ensures
        match text {
            Some(t) => vstd::utf8::encode_utf8(t@) == bytes@,
            None => !vstd::utf8::valid_utf8(bytes@),
        },
{
    match core::str::from_utf8(bytes) {
        Ok(text) => Some(text.to_owned()),
        Err(_) => None,
    }
}

/// Whether one byte string comes before another.
fn is_shorter_first(a: &[u8], b: &[u8]) -> (before: bool)
    ensures
        before == shorter_first(a@, b@),
{
    if a.len() != b.len() {
        return a.len() < b.len();
    }
    let mut i: usize = 0;
    assert(a@.skip(0) =~= a@);
    assert(b@.skip(0) =~= b@);
    while i < a.len()
        invariant
            i <= a@.len(),
            a@.len() == b@.len(),
            lexicographic(a@, b@) == lexicographic(a@.skip(i as int), b@.skip(i as int)),
        decreases a@.len() - i,
    {
        assert(a@.skip(i as int).skip(1) =~= a@.skip(i + 1));
        assert(b@.skip(i as int).skip(1) =~= b@.skip(i + 1));
        if a[i] != b[i] {
            return a[i] < b[i];
        }
        i += 1;
    }
    false
}

/// The rank of a kind of key among the kinds.
fn rank(key: &Value) -> (rank: u8)
    ensures
        rank == key_rank(key@),
{
    match key {
        Value::Unsigned(_) => 0,
        Value::Negative(_) => 1,
        Value::ByteString(_) => 2,
        Value::TextString(_) => 3,
        _ => 4,
    }
}

/// Whether one key comes before another in a map.
fn is_key_before(a: &Value, b: &Value) -> (before: bool)
    ensures
        before == key_before(a@, b@),
{
    match (a, b) {
        (Value::Unsigned(m), Value::Unsigned(n)) => *m < *n,
        (Value::Negative(m), Value::Negative(n)) => *m < *n,
        (Value::ByteString(s), Value::ByteString(t)) => is_shorter_first(
            s.as_slice(),
            t.as_slice(),
        ),
        (Value::TextString(s), Value::TextString(t)) => is_shorter_first(
            s.as_str().as_bytes(),
            t.as_str().as_bytes(),
        ),
        _ => rank(a) < rank(b),
    }
}

/// The number that `len` bytes spell, from `pos` on.
fn read_be(data: &[u8], pos: usize, len: usize) -> (n: u64)
    requires
        len <= 8,
        pos + len <= data@.len(),
    ensures
        n == bytes::be_nat(data@.subrange(pos as int, pos + len)),
{
    let mut n: u64 = 0;
    let mut i: usize = 0;
    let end: usize = data.len();
    assert(data@.subrange(pos as int, pos + 0) =~= Seq::empty());
    while i < len
        invariant
            i <= len <= 8,
            pos + len <= end,
            end == data@.len(),
            n == bytes::be_nat(data@.subrange(pos as int, pos + i)),
        decreases len - i,
    {
        proof {
            let digits = data@.subrange(pos as int, pos + i);
            let longer = data@.subrange(pos as int, pos + i + 1);
            assert(longer.drop_last() =~= digits);
            bytes::lemma_be_nat_bound(longer);
            vstd::arithmetic::power::lemma_pow_increases(256, longer.len(), 8);
            bytes::lemma_powers();
        }
        n = n * 256 + data[pos + i] as u64;
        i += 1;
    }
    n
}

/// Reads a head at `pos`: its major type, its number, and where it ends.
fn read_head(data: &[u8], pos: usize) -> (head: Option<(u8, u64, usize)>)
    requires
        pos <= data@.len(),
    ensures
        match head {
            Some((major, n, end)) => pos < end <= data@.len() && decode_head(data@.skip(pos as int))
                == Some((major, n, data@.skip(end as int))),
            None => decode_head(data@.skip(pos as int)) is None,
        },
{
    if pos >= data.len() {
        return None;
    }
    let ghost b = data@.skip(pos as int);
    let first: u8 = data[pos];
    let major: u8 = first / 32;
    let info: u8 = first % 32;
    let (len, least): (usize, u64) = if info < 24 {
        assert(b.skip(1) =~= data@.skip(pos + 1));
        return Some((major, info as u64, pos + 1));
    } else if info == 24 {
        (1, 24)
    } else if info == 25 {
        (2, 0x100)
    } else if info == 26 {
        (4, 0x1_0000)
    } else if info == 27 {
        (8, 0x1_0000_0000)
    } else {
        return None;
    };
    if data.len() - pos < 1 + len {
        return None;
    }
    let n: u64 = read_be(data, pos + 1, len);
    proof {
        assert(b.subrange(1, 1 + len as int) =~= data@.subrange(pos + 1, pos + 1 + len));
        assert(b.skip(1 + len as int) =~= data@.skip(pos + 1 + len));
    }
    if n < least {
        None
    } else {
        Some((major, n, pos + 1 + len))
    }
}

/// Where one item cannot be read, a longer list cannot be read either.
proof fn lemma_items_fail(b: Seq<u8>, i: nat, n: nat, depth: int)
    requires
        i <= n,
        decode_items(b, i, depth) is None,
    ensures
        decode_items(b, n, depth) is None,
    decreases n,
{
    if i < n {
        lemma_items_fail(b, i, (n - 1) as nat, depth);
    }
}

/// Where one entry cannot be read, a longer map cannot be read either.
proof fn lemma_entries_fail(b: Seq<u8>, i: nat, n: nat, depth: int)
    requires
        i <= n,
        decode_entries(b, i, depth) is None,
    ensures
        decode_entries(b, n, depth) is None,
    decreases n,
{
    if i < n {
        lemma_entries_fail(b, i, (n - 1) as nat, depth);
    }
}

/// Reads an item at `pos` with at most `depth` levels of lists and maps, and
/// says where it ends.
fn read_nested(data: &[u8], pos: usize, depth: i8) -> (item: Option<(Value, usize)>)
    requires
        pos <= data@.len(),
        -1 <= depth <= MAX_NESTING,
    ensures
        match item {
            Some((value, end)) => pos < end <= data@.len() && decode(
                data@.skip(pos as int),
                depth as int,
            ) == Some((value@, data@.skip(end as int))),
            None => decode(data@.skip(pos as int), depth as int) is None,
        },
    decreases depth + 1, 0int,
{
    if depth < 0 {
        return None;
    }
    let (major, n, start): (u8, u64, usize) = match read_head(data, pos) {
        Some(head) => head,
        None => {
            return None;
        },
    };
    if major == 0 {
        Some((Value::Unsigned(n), start))
    } else if major == 1 {
        if n <= i64::MAX as u64 {
            Some((Value::Negative(n), start))
        } else {
            None
        }
    } else if major == 2 || major == 3 {
        let left: usize = data.len() - start;
        if n > left as u64 {
            return None;
        }
        let end: usize = start + n as usize;
        let contents: &[u8] = slice_subrange(data, start, end);
        proof {
            assert(contents@ =~= data@.skip(start as int).take(n as int));
            assert(data@.skip(start as int).skip(n as int) =~= data@.skip(end as int));
        }
        if major == 2 {
            Some((Value::ByteString(slice_to_vec(contents)), end))
        } else {
            match text_of(contents) {
                Some(text) => {
                    proof {
                        vstd::utf8::encode_utf8_valid_utf8(text@);
                        vstd::utf8::encode_utf8_decode_utf8(text@);
                    }
                    Some((Value::TextString(text), end))
                },
                None => None,
            }
        }
    } else if major == 4 {
        match read_items(data, start, n, depth - 1) {
            Some((list, end)) => Some((Value::Array(list), end)),
            None => None,
        }
    } else if major == 5 {
        match read_entries(data, start, n, depth - 1) {
            Some((list, end)) => Some((Value::Table(list), end)),
            None => None,
        }
    } else if major == 7 {
        if n == 20 {
            Some((Value::Simple(SimpleValue::FalseValue), start))
        } else if n == 21 {
            Some((Value::Simple(SimpleValue::TrueValue), start))
        } else if n == 22 {
            Some((Value::Simple(SimpleValue::NullValue), start))
        } else if n == 23 {
            Some((Value::Simple(SimpleValue::Undefined), start))
        } else {
            None
        }
    } else {
        None
    }
}

/// Reads `n` items from `pos` on, and says where they end.
fn read_items(data: &[u8], pos: usize, n: u64, depth: i8) -> (items: Option<(Vec<Value>, usize)>)
    requires
        pos <= data@.len(),
        -1 <= depth < MAX_NESTING,
    ensures
        match items {
            Some((list, end)) => pos <= end <= data@.len() && decode_items(
                data@.skip(pos as int),
                n as nat,
                depth as int,
            ) == Some((model::items(list@), data@.skip(end as int))),
            None => decode_items(data@.skip(pos as int), n as nat, depth as int) is None,
        },
    decreases depth + 1, 1int,
{
    let ghost b = data@.skip(pos as int);
    let mut list: Vec<Value> = Vec::new();
    let mut end: usize = pos;
    let mut i: u64 = 0;
    while i < n
        invariant
            i <= n,
            pos <= end <= data@.len(),
            -1 <= depth < MAX_NESTING,
            b == data@.skip(pos as int),
            decode_items(b, i as nat, depth as int) == Some(
                (model::items(list@), data@.skip(end as int)),
            ),
        decreases n - i,
    {
        match read_nested(data, end, depth) {
            Some((value, after)) => {
                let ghost before = list@;
                list.push(value);
                assert(list@.drop_last() =~= before);
                end = after;
            },
            None => {
                proof {
                    lemma_items_fail(b, (i + 1) as nat, n as nat, depth as int);
                }
                return None;
            },
        }
        i += 1;
    }
    Some((list, end))
}

/// Reads `n` entries from `pos` on, and says where they end.
fn read_entries(data: &[u8], pos: usize, n: u64, depth: i8) -> (entries: Option<
    (Vec<(Value, Value)>, usize),
>)
    requires
        pos <= data@.len(),
        -1 <= depth < MAX_NESTING,
    ensures
        match entries {
            Some((list, end)) => pos <= end <= data@.len() && decode_entries(
                data@.skip(pos as int),
                n as nat,
                depth as int,
            ) == Some((model::entries(list@), data@.skip(end as int))),
            None => decode_entries(data@.skip(pos as int), n as nat, depth as int) is None,
        },
    decreases depth + 1, 1int,
{
    let ghost b = data@.skip(pos as int);
    let mut list: Vec<(Value, Value)> = Vec::new();
    let mut end: usize = pos;
    let mut i: u64 = 0;
    while i < n
        invariant
            i <= n,
            pos <= end <= data@.len(),
            -1 <= depth < MAX_NESTING,
            b == data@.skip(pos as int),
            decode_entries(b, i as nat, depth as int) == Some(
                (model::entries(list@), data@.skip(end as int)),
            ),
        decreases n - i,
    {
        proof {
            model::lemma_entries_index(list@);
            if decode_entries(b, (i + 1) as nat, depth as int) is None {
                lemma_entries_fail(b, (i + 1) as nat, n as nat, depth as int);
            }
        }
        let (key, between): (Value, usize) = match read_nested(data, end, depth) {
            Some(read) => read,
            None => {
                return None;
            },
        };
        if rank(&key) >= 4 || (list.len() > 0 && !is_key_before(&list[list.len() - 1].0, &key)) {
            return None;
        }
        let (value, after): (Value, usize) = match read_nested(data, between, depth) {
            Some(read) => read,
            None => {
                return None;
            },
        };
        let ghost before = list@;
        list.push((key, value));
        assert(list@.drop_last() =~= before);
        end = after;
        i += 1;
    }
    Some((list, end))
}

/// Whether an item is one that can be written and read.
pub open spec fn readable(value: Item) -> bool {
    canonical(value) && model::nested_at_most(value, MAX_NESTING as int)
}

/// Reads the one item that a byte string encodes. What comes back is the item
/// in canonical form, with at most `MAX_NESTING` levels of lists and maps, that
/// is encoded by these bytes; nothing comes back if there is none.
pub fn read(data: &[u8]) -> (value: Option<Value>)
    ensures
        match value {
            Some(v) => readable(v@) && model::encode(v@) == data@,
            None => forall|v: Item| #[trigger] readable(v) ==> model::encode(v) != data@,
        },
{
    proof {
        assert(data@.skip(0) =~= data@);
        lemma_decode_sound(data@, MAX_NESTING as int);
        assert forall|v: Item| #[trigger] readable(v) && model::encode(v) == data@ implies decode(
            data@,
            MAX_NESTING as int,
        ) == Some((v, Seq::<u8>::empty())) by {
            lemma_decode_complete(v, Seq::empty(), MAX_NESTING as int);
            assert(model::encode(v) + Seq::<u8>::empty() =~= data@);
        }
    }
    match read_nested(data, 0, MAX_NESTING) {
        Some((value, end)) => {
            if end == data.len() {
                assert(data@.skip(end as int) =~= Seq::empty());
                assert(model::encode(value@) + Seq::<u8>::empty() =~= model::encode(value@));
                Some(value)
            } else {
                assert(data@.skip(end as int).len() > 0);
                None
            }
        },
        None => None,
    }
}

/// Two items that can be read have different encodings unless they are the
/// same.
pub proof fn law_encoding_is_injective(a: Item, b: Item)
    requires
        readable(a),
        readable(b),
        model::encode(a) == model::encode(b),
    ensures
        a == b,
{
    lemma_decode_complete(a, Seq::empty(), MAX_NESTING as int);
    lemma_decode_complete(b, Seq::empty(), MAX_NESTING as int);
}

} // verus!
