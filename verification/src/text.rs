//! Text strings.

use crate::bytes;
use vstd::prelude::*;

verus! {

/// Different texts have different encodings.
pub proof fn lemma_encoding_injective(a: Seq<char>, b: Seq<char>)
    requires
        vstd::utf8::encode_utf8(a) == vstd::utf8::encode_utf8(b),
    ensures
        a == b,
{
    vstd::utf8::encode_utf8_decode_utf8(a);
    vstd::utf8::encode_utf8_decode_utf8(b);
}

/// Whether two texts are the same.
pub fn equal(a: &str, b: &str) -> (same: bool)
    ensures
        same == (a@ == b@),
{
    let same: bool = bytes::equal(a.as_bytes(), b.as_bytes());
    proof {
        if same {
            lemma_encoding_injective(a@, b@);
        }
    }
    same
}

/// The longest start of a text whose encoding has at most `max` bytes.
pub open spec fn truncated(s: Seq<char>, max: nat) -> Seq<char>
    decreases s.len(),
{
    if s.len() == 0 || vstd::utf8::encode_utf8(s).len() <= max {
        s
    } else {
        truncated(s.drop_last(), max)
    }
}

/// The encoding of a text ends a character after each start of the text.
proof fn lemma_starts_are_boundaries(s: Seq<char>, k: int)
    requires
        0 <= k <= s.len(),
    ensures
        vstd::utf8::is_char_boundary(
            vstd::utf8::encode_utf8(s),
            vstd::utf8::encode_utf8(s.take(k)).len() as int,
        ),
        vstd::utf8::encode_utf8(s.take(k)).len() <= vstd::utf8::encode_utf8(s).len(),
        vstd::utf8::encode_utf8(s.take(k)).len() >= k,
    decreases s.len(),
{
    let bytes = vstd::utf8::encode_utf8(s);
    vstd::utf8::encode_utf8_valid_utf8(s);
    if k == 0 {
        vstd::utf8::is_char_boundary_start_end_of_seq(bytes);
    } else {
        let rest = s.drop_first();
        lemma_starts_are_boundaries(rest, k - 1);
        vstd::utf8::encode_utf8_first_scalar(s);
        assert(s.take(k).drop_first() =~= rest.take(k - 1));
        assert(vstd::utf8::pop_first_scalar(bytes) =~= vstd::utf8::encode_utf8(rest));
    }
}

/// A longer start of a text has a longer encoding.
proof fn lemma_longer_start(s: Seq<char>, j: int, k: int)
    requires
        0 <= j < k <= s.len(),
    ensures
        vstd::utf8::encode_utf8(s.take(j)).len() < vstd::utf8::encode_utf8(s.take(k)).len(),
    decreases s.len(),
{
    if j == 0 {
        lemma_starts_are_boundaries(s, k);
    } else {
        let rest = s.drop_first();
        lemma_longer_start(rest, j - 1, k - 1);
        assert(s.take(j).drop_first() =~= rest.take(j - 1));
        assert(s.take(k).drop_first() =~= rest.take(k - 1));
    }
}

/// Where a start of a text fits and no character ends between its end and the
/// limit, truncating any longer start gives it.
proof fn lemma_truncated(s: Seq<char>, r: int, n: int, max: nat)
    requires
        0 <= r <= n <= s.len(),
        vstd::utf8::encode_utf8(s.take(r)).len() <= max,
        forall|i: int|
            vstd::utf8::encode_utf8(s.take(r)).len() < i <= max
                ==> !#[trigger] vstd::utf8::is_char_boundary(vstd::utf8::encode_utf8(s), i),
    ensures
        truncated(s.take(n), max) == s.take(r),
    decreases n,
{
    if n > r {
        lemma_longer_start(s, r, n);
        lemma_starts_are_boundaries(s, n);
        assert(s.take(n).drop_last() =~= s.take(n - 1));
        lemma_truncated(s, r, n - 1, max);
    }
}

/// Truncates a text to at most `max` bytes, without breaking its encoding.
pub fn truncate_to_char_boundary(s: &str, max: usize) -> (start: &str)
    ensures
        start@ == truncated(s@, max as nat),
{
    let len: usize = s.as_bytes().len();
    if max >= len {
        return s;
    }
    let mut end: usize = max;
    while !s.is_char_boundary(end)
        invariant
            end <= max,
            max < vstd::utf8::encode_utf8(s@).len(),
            forall|i: int|
                end < i <= max ==> !#[trigger] vstd::utf8::is_char_boundary(
                    vstd::utf8::encode_utf8(s@),
                    i,
                ),
        decreases end,
    {
        proof {
            vstd::utf8::encode_utf8_valid_utf8(s@);
            vstd::utf8::is_char_boundary_start_end_of_seq(vstd::utf8::encode_utf8(s@));
        }
        end -= 1;
    }
    let (start, _) = s.split_at(end);
    proof {
        let bytes = vstd::utf8::encode_utf8(s@);
        vstd::utf8::encode_utf8_valid_utf8(s@);
        vstd::utf8::encode_utf8_decode_utf8(s@);
        vstd::utf8::encode_utf8_decode_utf8(start@);
        vstd::utf8::decode_utf8_split(bytes, end as int);
        let r = start@.len() as int;
        assert(s@.take(r) =~= start@);
        assert(s@.take(s@.len() as int) =~= s@);
        lemma_truncated(s@, r, s@.len() as int, max as nat);
    }
    start
}

/// What truncating a text gives is a start of it that fits, and the next longer
/// start does not fit.
pub proof fn law_truncated_is_longest(s: Seq<char>, max: nat)
    ensures
        truncated(s, max).is_prefix_of(s),
        vstd::utf8::encode_utf8(truncated(s, max)).len() <= max,
        forall|k: int|
            truncated(s, max).len() < k <= s.len() ==> (#[trigger] vstd::utf8::encode_utf8(
                s.take(k),
            )).len() > max,
    decreases s.len(),
{
    assert(s.take(s.len() as int) =~= s);
    if s.len() > 0 && vstd::utf8::encode_utf8(s).len() > max {
        let rest = s.drop_last();
        law_truncated_is_longest(rest, max);
        assert forall|k: int| truncated(s, max).len() < k <= s.len() implies (
        #[trigger] vstd::utf8::encode_utf8(s.take(k))).len() > max by {
            if k < s.len() {
                assert(s.take(k) =~= rest.take(k));
            }
        }
        let t = truncated(s, max);
        assert(t =~= s.subrange(0, t.len() as int)) by {
            assert(t =~= rest.subrange(0, t.len() as int));
        }
    } else {
        assert(s =~= s.subrange(0, s.len() as int));
    }
}

} // verus!
