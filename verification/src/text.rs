//! Text as sequences of characters, and what their UTF-8 bytes say about them.

use vstd::prelude::*;
use vstd::utf8::*;

verus! {

/// `pattern` stands in `text` with its first character at position `at`.
pub open spec fn occurs_at(text: Seq<char>, pattern: Seq<char>, at: int) -> bool {
    &&& 0 <= at
    &&& at + pattern.len() <= text.len()
    &&& text.subrange(at, at + pattern.len()) == pattern
}

/// `pattern` stands somewhere in `text`.
pub open spec fn occurs(text: Seq<char>, pattern: Seq<char>) -> bool {
    exists|at: int| occurs_at(text, pattern, at)
}

/// The number of bytes that `text` takes in UTF-8.
pub open spec fn utf8_len(text: Seq<char>) -> nat {
    encode_utf8(text).len()
}

/// The longest end of `text` that takes at most `budget` bytes in UTF-8.
pub open spec fn tail_within(text: Seq<char>, budget: nat) -> Seq<char>
    decreases text.len(),
{
    if utf8_len(text) <= budget || text.len() == 0 {
        text
    } else {
        tail_within(text.drop_first(), budget)
    }
}

/// Encoding distributes over concatenation.
pub(crate) proof fn lemma_encode_concat(a: Seq<char>, b: Seq<char>)
    ensures
        encode_utf8(a + b) == encode_utf8(a) + encode_utf8(b),
    decreases a.len(),
{
    if a.len() == 0 {
        assert(a + b == b);
        assert(encode_utf8(a) + encode_utf8(b) == encode_utf8(b));
    } else {
        lemma_encode_concat(a.drop_first(), b);
        assert((a + b).drop_first() == a.drop_first() + b);
        assert(encode_utf8(a + b) == encode_utf8(a) + encode_utf8(b));
    }
}

/// A character boundary of the encoding splits the text between two characters:
/// the returned number of them stand before it.
pub(crate) proof fn lemma_split_at_boundary(text: Seq<char>, index: int) -> (count: int)
    requires
        0 <= index <= encode_utf8(text).len(),
        is_char_boundary(encode_utf8(text), index),
    ensures
        0 <= count <= text.len(),
        encode_utf8(text.take(count)) == encode_utf8(text).subrange(0, index),
        encode_utf8(text.skip(count)) == encode_utf8(text).subrange(
            index,
            encode_utf8(text).len() as int,
        ),
{
    let bytes = encode_utf8(text);
    let head = bytes.subrange(0, index);
    let rest = bytes.subrange(index, bytes.len() as int);
    encode_utf8_valid_utf8(text);
    encode_utf8_decode_utf8(text);
    valid_utf8_split(bytes, index);
    decode_utf8_split(bytes, index);
    decode_utf8_encode_utf8(head);
    decode_utf8_encode_utf8(rest);
    let count = decode_utf8(head).len() as int;
    assert(text == decode_utf8(head) + decode_utf8(rest));
    assert(text.take(count) == decode_utf8(head));
    assert(text.skip(count) == decode_utf8(rest));
    count
}

/// The encoding of the first `count` characters ends at a character boundary.
pub(crate) proof fn lemma_prefix_ends_at_boundary(text: Seq<char>, count: int)
    requires
        0 <= count <= text.len(),
    ensures
        is_char_boundary(encode_utf8(text), encode_utf8(text.take(count)).len() as int),
    decreases count,
{
    let bytes = encode_utf8(text);
    encode_utf8_valid_utf8(text);
    if count == 0 {
        is_char_boundary_start_end_of_seq(bytes);
        assert(encode_utf8(text.take(0)).len() == 0);
    } else {
        let rest = text.drop_first();
        encode_utf8_first_scalar(text);
        encode_utf8_valid_utf8(rest);
        assert(pop_first_scalar(bytes) == encode_utf8(rest));
        lemma_prefix_ends_at_boundary(rest, count - 1);
        assert(text.take(count).drop_first() == rest.take(count - 1));
        assert(text.take(count)[0] == text[0]);
        lemma_encode_concat(text.take(count), text.skip(count));
        assert(text.take(count) + text.skip(count) == text);
    }
}

/// A text whose encoding starts with that of `pattern` starts with `pattern`.
pub(crate) proof fn lemma_encoded_prefix(text: Seq<char>, pattern: Seq<char>)
    requires
        encode_utf8(pattern).len() <= encode_utf8(text).len(),
        encode_utf8(text).subrange(0, encode_utf8(pattern).len() as int) == encode_utf8(pattern),
    ensures
        pattern.len() <= text.len(),
        text.take(pattern.len() as int) == pattern,
    decreases pattern.len(),
{
    if pattern.len() > 0 {
        let tb = encode_utf8(text);
        let pb = encode_utf8(pattern);
        encode_utf8_first_scalar(pattern);
        assert(text.len() > 0);
        encode_utf8_first_scalar(text);
        let width = encode_scalar(pattern[0] as u32).len() as int;
        assert forall|i: int| 0 <= i < pb.len() implies tb[i] == pb[i] by {
            assert(tb.subrange(0, pb.len() as int)[i] == tb[i]);
        }
        assert(tb[0] == pb[0]);
        char_u32_cast(text[0], decode_first_scalar(tb));
        char_u32_cast(pattern[0], decode_first_scalar(pb));
        assert(text[0] == pattern[0]);
        let text_rest = text.drop_first();
        let pattern_rest = pattern.drop_first();
        assert(encode_utf8(text_rest) == tb.skip(width));
        assert(encode_utf8(pattern_rest) == pb.skip(width));
        assert(encode_utf8(text_rest).subrange(0, encode_utf8(pattern_rest).len() as int)
            == encode_utf8(pattern_rest));
        lemma_encoded_prefix(text_rest, pattern_rest);
        assert forall|i: int| 0 <= i < pattern.len() implies text[i] == pattern[i] by {
            if i > 0 {
                assert(text_rest.take(pattern_rest.len() as int)[i - 1] == pattern_rest[i - 1]);
            }
        }
        assert(text.take(pattern.len() as int) == pattern);
    } else {
        assert(text.take(0) == pattern);
    }
}

/// Bytes `needle` stand in bytes `hay` with the first of them at index `at`.
spec fn bytes_at(hay: Seq<u8>, needle: Seq<u8>, at: int) -> bool {
    &&& 0 <= at
    &&& at + needle.len() <= hay.len()
    &&& hay.subrange(at, at + needle.len()) == needle
}

/// The bytes of a non-empty pattern stand in the bytes of a text exactly where
/// the pattern stands in the text.
proof fn lemma_occurs_iff_bytes_occur(text: Seq<char>, pattern: Seq<char>)
    requires
        pattern.len() > 0,
    ensures
        occurs(text, pattern) <==> exists|at: int|
            bytes_at(encode_utf8(text), encode_utf8(pattern), at),
{
    let tb = encode_utf8(text);
    let pb = encode_utf8(pattern);
    let width = pb.len() as int;
    if occurs(text, pattern) {
        let at = choose|at: int| occurs_at(text, pattern, at);
        let before = text.take(at);
        let after = text.skip(at + pattern.len());
        assert(text == before + (pattern + after));
        lemma_encode_concat(before, pattern + after);
        lemma_encode_concat(pattern, after);
        let index = encode_utf8(before).len() as int;
        assert(tb.subrange(index, index + width) == pb);
        assert(bytes_at(tb, pb, index));
    }
    if exists|at: int| bytes_at(tb, pb, at) {
        let index = choose|at: int| bytes_at(tb, pb, at);
        encode_utf8_valid_utf8(text);
        encode_utf8_valid_utf8(pattern);
        encode_utf8_first_scalar(pattern);
        is_char_boundary_start_end_of_seq(pb);
        is_char_boundary_iff_not_is_continuation_byte(pb, 0);
        assert(tb.subrange(index, index + width)[0] == tb[index]);
        is_char_boundary_iff_not_is_continuation_byte(tb, index);
        let count = lemma_split_at_boundary(text, index);
        let rest = text.skip(count);
        assert(encode_utf8(rest).subrange(0, width) == pb);
        lemma_encoded_prefix(rest, pattern);
        assert(text.subrange(count, count + pattern.len()) == rest.take(pattern.len() as int));
        assert(occurs_at(text, pattern, count));
    }
}

/// Whether the bytes `needle` stand in `hay` at index `at`.
fn has_bytes_at(hay: &[u8], needle: &[u8], at: usize) -> (found: bool)
    requires
        at + needle@.len() <= hay@.len(),
    ensures
        found == bytes_at(hay@, needle@, at as int),
{
    let total: usize = hay.len();
    let mut i: usize = 0;
    while i < needle.len()
        invariant
            i <= needle@.len(),
            at + needle@.len() <= total,
            total == hay@.len(),
            forall|j: int| 0 <= j < i ==> hay@[at + j] == needle@[j],
        decreases needle@.len() - i,
    {
        if hay[at + i] != needle[i] {
            proof {
                let window = hay@.subrange(at as int, at + needle@.len());
                assert(window[i as int] == hay@[at + i]);
            }
            return false;
        }
        i = i + 1;
    }
    assert(hay@.subrange(at as int, at + needle@.len()) == needle@);
    true
}

/// Whether `pattern` stands somewhere in `text`.
pub(crate) fn contains(text: &str, pattern: &str) -> (found: bool)
    ensures
        found == occurs(text@, pattern@),
{
    if pattern.is_empty() {
        assert(text@.subrange(0, 0) == pattern@);
        assert(occurs_at(text@, pattern@, 0));
        return true;
    }
    proof {
        lemma_occurs_iff_bytes_occur(text@, pattern@);
    }
    let hay = text.as_bytes();
    let needle = pattern.as_bytes();
    if needle.len() > hay.len() {
        return false;
    }
    let last: usize = hay.len() - needle.len();
    let mut at: usize = 0;
    loop
        invariant
            at <= last,
            last + needle@.len() == hay@.len(),
            hay@ == encode_utf8(text@),
            needle@ == encode_utf8(pattern@),
            occurs(text@, pattern@) <==> exists|i: int|
                bytes_at(encode_utf8(text@), encode_utf8(pattern@), i),
            forall|i: int| 0 <= i < at ==> !bytes_at(hay@, needle@, i),
        decreases last - at,
    {
        if has_bytes_at(hay, needle, at) {
            return true;
        }
        if at == last {
            return false;
        }
        at = at + 1;
    }
}

/// The end of `text` from its character number `count` on is its longest end
/// within the budget, if every longer end takes more bytes.
proof fn lemma_tail_is_skip(text: Seq<char>, budget: nat, count: int)
    requires
        0 <= count <= text.len(),
        utf8_len(text.skip(count)) <= budget,
        forall|i: int| 0 <= i < count ==> utf8_len(#[trigger] text.skip(i)) > budget,
    ensures
        tail_within(text, budget) == text.skip(count),
    decreases count,
{
    assert(text.skip(0) == text);
    if count > 0 {
        let rest = text.drop_first();
        assert(rest.skip(count - 1) == text.skip(count));
        assert forall|i: int| 0 <= i < count - 1 implies utf8_len(#[trigger] rest.skip(i))
            > budget by {
            assert(rest.skip(i) == text.skip(i + 1));
        }
        lemma_tail_is_skip(rest, budget, count - 1);
    }
}

/// The longest end of `text` that takes at most `budget` bytes in UTF-8.
pub(crate) fn keep_tail(text: String, budget: usize) -> (tail: String)
    ensures
        tail@ == tail_within(text@, budget as nat),
{
    let len: usize = text.as_str().as_bytes().len();
    if len <= budget {
        return text;
    }
    let first: usize = len - budget;
    let mut start: usize = first;
    while start < len && !text.as_str().is_char_boundary(start)
        invariant
            first <= start <= len,
            first + budget == len,
            len == utf8_len(text@),
            forall|i: int| first <= i < start ==> !is_char_boundary(encode_utf8(text@), i),
        decreases len - start,
    {
        start = start + 1;
    }
    proof {
        encode_utf8_valid_utf8(text@);
        is_char_boundary_start_end_of_seq(encode_utf8(text@));
    }
    let (_, end) = text.as_str().split_at(start);
    proof {
        let count = lemma_split_at_boundary(text@, start as int);
        assert(encode_utf8(end@) == encode_utf8(text@.skip(count)));
        encode_utf8_decode_utf8(end@);
        encode_utf8_decode_utf8(text@.skip(count));
        assert forall|i: int| 0 <= i < count implies utf8_len(#[trigger] text@.skip(i))
            > budget by {
            lemma_prefix_ends_at_boundary(text@, i);
            lemma_encode_concat(text@.take(i), text@.skip(i));
            assert(text@.take(i) + text@.skip(i) == text@);
            let between = text@.subrange(i, count);
            assert(text@.take(count) == text@.take(i) + between);
            lemma_encode_concat(text@.take(i), between);
            encode_utf8_first_scalar(between);
            assert(encode_utf8(between).len() > 0);
        }
        lemma_tail_is_skip(text@, budget as nat, count);
    }
    end.to_owned()
}

/// A pattern stands in a text exactly when the text reads: anything, then the
/// pattern, then anything.
pub proof fn occurrence_splits_the_text(text: Seq<char>, pattern: Seq<char>)
    ensures
        occurs(text, pattern) <==> exists|before: Seq<char>, after: Seq<char>|
            text == #[trigger] (before + pattern + after),
{
    if occurs(text, pattern) {
        let at = choose|at: int| occurs_at(text, pattern, at);
        assert(text == text.take(at) + pattern + text.skip(at + pattern.len()));
    }
    if exists|before: Seq<char>, after: Seq<char>| text == #[trigger] (before + pattern + after) {
        let (before, after) = choose|before: Seq<char>, after: Seq<char>|
            text == #[trigger] (before + pattern + after);
        let at = before.len() as int;
        assert(text.subrange(at, at + pattern.len()) == pattern);
        assert(occurs_at(text, pattern, at));
    }
}

} // verus!
