//! Writing data items.

use crate::bytes;
use crate::cbor::model;
use crate::cbor::model::{Value, MAX_NESTING};
use vstd::prelude::*;
use vstd::slice::slice_subrange;

verus! {

/// Appends a number in `len` bytes, most significant byte first.
pub fn push_be(out: &mut Vec<u8>, n: u64, len: usize)
    requires
        len <= 8,
    ensures
        final(out)@ == old(out)@ + bytes::be_bytes(n as nat, len as nat),
{
    let mut buffer: [u8; 8] = [0u8; 8];
    let mut rest: u64 = n;
    let mut i: usize = len;
    while i > 0
        invariant
            i <= len <= 8,
            bytes::be_bytes(n as nat, len as nat) == bytes::be_bytes(rest as nat, i as nat)
                + buffer@.subrange(i as int, len as int),
        decreases i,
    {
        let ghost before = buffer@;
        i -= 1;
        buffer[i] = (rest % 256) as u8;
        proof {
            assert(buffer@.subrange(i as int, len as int) =~= seq![(rest % 256) as u8]
                + before.subrange(i + 1, len as int));
            let high = bytes::be_bytes((rest / 256) as nat, i as nat);
            assert(high.push((rest % 256) as u8) + before.subrange(i + 1, len as int) =~= high
                + buffer@.subrange(i as int, len as int));
        }
        rest = rest / 256;
    }
    assert(bytes::be_bytes(rest as nat, 0) + buffer@.subrange(0, len as int) =~= buffer@.subrange(
        0,
        len as int,
    ));
    bytes::append(out, slice_subrange(&buffer, 0, len));
}

/// Appends the head of an item.
fn start_item(out: &mut Vec<u8>, major: u8, n: u64)
    requires
        major < 8,
    ensures
        final(out)@ == old(out)@ + model::head(major, n),
{
    let m: u8 = major * 32;
    let ghost before = out@;
    if n < 24 {
        out.push(m + n as u8);
        assert(out@ =~= before + model::head(major, n));
    } else if n <= 0xff {
        out.push(m + 24);
        push_be(out, n, 1);
        assert(out@ =~= before + model::head(major, n));
    } else if n <= 0xffff {
        out.push(m + 25);
        push_be(out, n, 2);
        assert(out@ =~= before + model::head(major, n));
    } else if n <= 0xffff_ffff {
        out.push(m + 26);
        push_be(out, n, 4);
        assert(out@ =~= before + model::head(major, n));
    } else {
        out.push(m + 27);
        push_be(out, n, 8);
        assert(out@ =~= before + model::head(major, n));
    }
}

/// Appends the encoding of an item that may hold `depth` levels of lists and
/// maps, and says whether it holds no more. If it does, part of it was written.
fn encode_nested(value: &Value, out: &mut Vec<u8>, depth: i8) -> (written: bool)
    requires
        -1 <= depth <= MAX_NESTING,
    ensures
        written == model::nested_at_most(value@, depth as int),
        written ==> final(out)@ == old(out)@ + model::encode(value@),
        old(out)@.is_prefix_of(final(out)@),
    decreases depth + 1,
{
    if depth < 0 {
        return false;
    }
    let ghost before = out@;
    match value {
        Value::Unsigned(n) => {
            start_item(out, 0, *n);
        },
        Value::Negative(n) => {
            start_item(out, 1, *n);
        },
        Value::ByteString(s) => {
            start_item(out, 2, s.len() as u64);
            bytes::append(out, s.as_slice());
            assert(out@ =~= before + model::encode(value@));
        },
        Value::TextString(s) => {
            let text: &[u8] = s.as_str().as_bytes();
            start_item(out, 3, text.len() as u64);
            bytes::append(out, text);
            assert(out@ =~= before + model::encode(value@));
        },
        Value::Array(list) => {
            start_item(out, 4, list.len() as u64);
            let ghost start = out@;
            let mut i: usize = 0;
            proof {
                model::lemma_items_index(list@);
                assert(list@.take(0) =~= Seq::empty());
                assert(start + Seq::<u8>::empty() =~= start);
            }
            while i < list.len()
                invariant
                    i <= list@.len(),
                    0 <= depth <= MAX_NESTING,
                    value == Value::Array(*list),
                    before == old(out)@,
                    before.is_prefix_of(start),
                    model::items_nested_at_most(model::items(list@.take(i as int)), depth - 1),
                    out@ == start + model::encode_items(model::items(list@.take(i as int))),
                decreases list@.len() - i,
            {
                let ghost done = out@;
                let ghost next = list@.take(i + 1);
                proof {
                    assert(next.drop_last() =~= list@.take(i as int));
                    assert(model::items(next).drop_last() =~= model::items(list@.take(i as int)));
                }
                let written: bool = encode_nested(&list[i], out, depth - 1);
                if !written {
                    proof {
                        lemma_list_fails(list@, i as int, depth - 1);
                        lemma_prefix(before, done, out@);
                        assert(list@.take(list@.len() as int) =~= list@);
                    }
                    return false;
                }
                proof {
                    assert(out@ =~= start + model::encode_items(model::items(next)));
                }
                i += 1;
            }
            proof {
                assert(list@.take(i as int) =~= list@);
                assert(out@ =~= before + model::encode(value@));
            }
        },
        Value::Table(list) => {
            start_item(out, 5, list.len() as u64);
            let ghost start = out@;
            let mut i: usize = 0;
            proof {
                model::lemma_entries_index(list@);
                assert(list@.take(0) =~= Seq::empty());
                assert(start + Seq::<u8>::empty() =~= start);
            }
            while i < list.len()
                invariant
                    i <= list@.len(),
                    0 <= depth <= MAX_NESTING,
                    value == Value::Table(*list),
                    before == old(out)@,
                    before.is_prefix_of(start),
                    model::entries_nested_at_most(model::entries(list@.take(i as int)), depth - 1),
                    out@ == start + model::encode_entries(model::entries(list@.take(i as int))),
                decreases list@.len() - i,
            {
                let ghost done = out@;
                let ghost next = list@.take(i + 1);
                proof {
                    assert(next.drop_last() =~= list@.take(i as int));
                    assert(model::entries(next).drop_last() =~= model::entries(
                        list@.take(i as int),
                    ));
                }
                let key_written: bool = encode_nested(&list[i].0, out, depth - 1);
                if !key_written {
                    proof {
                        lemma_map_fails(list@, i as int, depth - 1);
                        lemma_prefix(before, done, out@);
                        assert(list@.take(list@.len() as int) =~= list@);
                    }
                    return false;
                }
                let ghost key_done = out@;
                let value_written: bool = encode_nested(&list[i].1, out, depth - 1);
                if !value_written {
                    proof {
                        lemma_map_fails(list@, i as int, depth - 1);
                        lemma_prefix(before, key_done, out@);
                        assert(list@.take(list@.len() as int) =~= list@);
                    }
                    return false;
                }
                proof {
                    assert(out@ =~= start + model::encode_entries(model::entries(next)));
                }
                i += 1;
            }
            proof {
                assert(list@.take(i as int) =~= list@);
                assert(out@ =~= before + model::encode(value@));
            }
        },
        Value::Simple(s) => {
            start_item(out, 7, s.to_number());
        },
    }
    true
}

/// A start of a start is a start.
proof fn lemma_prefix(a: Seq<u8>, b: Seq<u8>, c: Seq<u8>)
    requires
        a.is_prefix_of(b),
        b.is_prefix_of(c),
    ensures
        a.is_prefix_of(c),
{
    assert forall|i: int| 0 <= i < a.len() implies a[i] == c[i] by {
        assert(a[i] == b.subrange(0, a.len() as int)[i]);
        assert(b[i] == c.subrange(0, b.len() as int)[i]);
    }
    assert(a =~= c.subrange(0, a.len() as int));
}

/// A list in which one item is nested too deep is itself nested too deep.
proof fn lemma_list_fails(list: Seq<Value>, i: int, depth: int)
    requires
        0 <= i < list.len(),
        !model::nested_at_most(model::item(list[i]), depth),
    ensures
        !model::items_nested_at_most(model::items(list), depth),
    decreases list.len(),
{
    model::lemma_items_index(list);
    assert(model::items(list).drop_last() =~= model::items(list.drop_last()));
    if i < list.len() - 1 {
        lemma_list_fails(list.drop_last(), i, depth);
    }
}

/// A map in which one key or item is nested too deep is itself nested too deep.
proof fn lemma_map_fails(list: Seq<(Value, Value)>, i: int, depth: int)
    requires
        0 <= i < list.len(),
        !model::nested_at_most(model::item(list[i].0), depth) || !model::nested_at_most(
            model::item(list[i].1),
            depth,
        ),
    ensures
        !model::entries_nested_at_most(model::entries(list), depth),
    decreases list.len(),
{
    model::lemma_entries_index(list);
    assert(model::entries(list).drop_last() =~= model::entries(list.drop_last()));
    if i < list.len() - 1 {
        lemma_map_fails(list.drop_last(), i, depth);
    }
}

/// Appends the encoding of an item, and says whether it could be written: an
/// item with more than `MAX_NESTING` levels of lists and maps cannot.
pub fn write(value: Value, out: &mut Vec<u8>) -> (written: bool)
    ensures
        written == model::nested_at_most(value@, MAX_NESTING as int),
        written ==> final(out)@ == old(out)@ + model::encode(value@),
        old(out)@.is_prefix_of(final(out)@),
{
    encode_nested(&value, out, MAX_NESTING)
}

} // verus!
