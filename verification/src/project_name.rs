//! The name of a project, read off the path of its directory.

use vstd::prelude::*;
use vstd::utf8::*;

use crate::text::{
    lemma_encode_concat, lemma_encoded_prefix, lemma_prefix_ends_at_boundary,
    lemma_split_at_boundary,
};

verus! {

/// The characters that separate the components of a path, on any system.
pub open spec fn is_separator(c: char) -> bool {
    c == '/' || c == '\\'
}

/// No character of `text` is a separator.
pub open spec fn separator_free(text: Seq<char>) -> bool {
    forall|i: int| 0 <= i < text.len() ==> !is_separator(#[trigger] text[i])
}

/// Every character of `text` is a separator.
pub open spec fn all_separators(text: Seq<char>) -> bool {
    forall|i: int| 0 <= i < text.len() ==> is_separator(#[trigger] text[i])
}

/// `path` without the separators at its end.
pub open spec fn without_trailing_separators(path: Seq<char>) -> Seq<char>
    decreases path.len(),
{
    if path.len() > 0 && is_separator(path.last()) {
        without_trailing_separators(path.drop_last())
    } else {
        path
    }
}

/// What stands behind the last separator of `path`, or all of it.
pub open spec fn after_last_separator(path: Seq<char>) -> Seq<char>
    decreases path.len(),
{
    if path.len() == 0 || is_separator(path.last()) {
        Seq::empty()
    } else {
        after_last_separator(path.drop_last()).push(path.last())
    }
}

/// The last component of `path`, or `unknown` if it has none.
pub open spec fn project_name(path: Seq<char>) -> Seq<char> {
    let name = after_last_separator(without_trailing_separators(path));
    if name.len() == 0 {
        "unknown"@
    } else {
        name
    }
}

/// The last component of a path, or `unknown` if it has none.
pub fn derive_project_name(project_path: &str) -> (name: String)
    ensures
        name@ == project_name(project_path@),
{
    let bytes = project_path.as_bytes();
    let len: usize = bytes.len();
    let mut end: usize = len;
    while end > 0 && is_separator_byte(bytes[end - 1])
        invariant
            end <= len,
            len == bytes@.len(),
            forall|i: int| end <= i < len ==> separator_byte(#[trigger] bytes@[i]),
        decreases end,
    {
        end = end - 1;
    }
    let mut start: usize = end;
    while start > 0 && !is_separator_byte(bytes[start - 1])
        invariant
            start <= end <= len,
            len == bytes@.len(),
            end > 0 ==> !separator_byte(bytes@[end - 1]),
            forall|i: int| start <= i < end ==> !separator_byte(#[trigger] bytes@[i]),
        decreases start,
    {
        start = start - 1;
    }
    let ghost (before, name, after) = lemma_components(project_path@, start as int, end as int);
    proof {
        if before.len() > 0 {
            lemma_separator_encoding(before);
        }
        if name.len() > 0 {
            lemma_separator_encoding(name);
        } else {
            assert(encode_utf8(name).len() == end - start);
        }
        lemma_project_name(before, name, after);
    }
    if start == end {
        return "unknown".to_string();
    }
    let (head, _) = project_path.split_at(end);
    proof {
        lemma_encode_concat(before, name);
        assert(encode_utf8(head@) == encode_utf8(before + name));
        encode_utf8_decode_utf8(head@);
        encode_utf8_decode_utf8(before + name);
        lemma_prefix_ends_at_boundary(before + name, before.len() as int);
        assert((before + name).take(before.len() as int) == before);
    }
    let (_, last) = head.split_at(start);
    proof {
        assert(encode_utf8(last@) == encode_utf8(name));
        encode_utf8_decode_utf8(last@);
        encode_utf8_decode_utf8(name);
    }
    last.to_owned()
}

/// The byte of `/`.
const SLASH: u8 = 0x2f;

/// The byte of `\\`.
const BACKSLASH: u8 = 0x5c;

/// The byte of a separator.
spec fn separator_byte(byte: u8) -> bool {
    byte == SLASH || byte == BACKSLASH
}

/// Whether a byte is that of a separator.
fn is_separator_byte(byte: u8) -> (separator: bool)
    ensures
        separator == separator_byte(byte),
{
    byte == SLASH || byte == BACKSLASH
}

/// A separator is encoded as its own byte, and that byte begins nothing else.
proof fn lemma_separator_encoding(text: Seq<char>)
    requires
        text.len() > 0,
    ensures
        is_separator(text[0]) <==> separator_byte(encode_utf8(text)[0]),
        is_separator(text[0]) ==> encode_utf8(text.take(1)).len() == 1,
        encode_utf8(text).len() > 0,
{
    let bytes = encode_utf8(text);
    encode_utf8_first_scalar(text);
    lemma_encode_concat(text.take(1), text.drop_first());
    assert(text == text.take(1) + text.drop_first());
    if is_separator(text[0]) {
        is_ascii_chars_encode_utf8(text.take(1));
        assert(text.take(1)[0] == text[0]);
        assert(encode_utf8(text.take(1))[0] == text[0] as u8);
    }
    if separator_byte(bytes[0]) {
        let c = if bytes[0] == SLASH { '/' } else { '\\' };
        let single = seq![c];
        is_ascii_chars_encode_utf8(single);
        assert(single[0] == c);
        assert(encode_utf8(single)[0] == c as u8);
        assert(bytes.subrange(0, 1) == encode_utf8(single));
        lemma_encoded_prefix(text, single);
        assert(text.take(1)[0] == text[0]);
    }
}

/// A text whose bytes are all those of separators consists of separators.
proof fn lemma_all_separator_bytes(text: Seq<char>)
    requires
        forall|i: int|
            0 <= i < encode_utf8(text).len() ==> separator_byte(#[trigger] encode_utf8(text)[i]),
    ensures
        all_separators(text),
    decreases text.len(),
{
    if text.len() > 0 {
        let rest = text.drop_first();
        lemma_separator_encoding(text);
        lemma_encode_concat(text.take(1), rest);
        assert(text == text.take(1) + rest);
        assert forall|i: int| 0 <= i < encode_utf8(rest).len() implies separator_byte(
            #[trigger] encode_utf8(rest)[i],
        ) by {
            assert(encode_utf8(text)[i + encode_utf8(text.take(1)).len()] == encode_utf8(rest)[i]);
        }
        lemma_all_separator_bytes(rest);
        assert forall|i: int| 0 <= i < text.len() implies is_separator(#[trigger] text[i]) by {
            if i > 0 {
                assert(rest[i - 1] == text[i]);
            }
        }
    }
}

/// A text none of whose bytes is that of a separator holds no separator.
proof fn lemma_no_separator_bytes(text: Seq<char>)
    requires
        forall|i: int|
            0 <= i < encode_utf8(text).len() ==> !separator_byte(#[trigger] encode_utf8(text)[i]),
    ensures
        separator_free(text),
{
    assert forall|i: int| 0 <= i < text.len() implies !is_separator(#[trigger] text[i]) by {
        let before = text.take(i);
        let rest = text.skip(i);
        assert(text == before + rest);
        lemma_encode_concat(before, rest);
        lemma_separator_encoding(rest);
        assert(encode_utf8(text)[encode_utf8(before).len() as int] == encode_utf8(rest)[0]);
    }
}

/// Cuts a path where the scan over its bytes stopped: before its last component
/// and behind it.
proof fn lemma_components(path: Seq<char>, start: int, end: int) -> (parts: (
    Seq<char>,
    Seq<char>,
    Seq<char>,
))
    requires
        0 <= start <= end <= encode_utf8(path).len(),
        forall|i: int|
            end <= i < encode_utf8(path).len() ==> separator_byte(#[trigger] encode_utf8(path)[i]),
        forall|i: int| start <= i < end ==> !separator_byte(#[trigger] encode_utf8(path)[i]),
        start > 0 ==> separator_byte(encode_utf8(path)[start - 1]),
    ensures
        path == parts.0 + parts.1 + parts.2,
        encode_utf8(parts.0) == encode_utf8(path).subrange(0, start),
        encode_utf8(parts.1) == encode_utf8(path).subrange(start, end),
        is_char_boundary(encode_utf8(path), end),
        parts.0.len() > 0 ==> is_separator(parts.0.last()),
        separator_free(parts.1),
        all_separators(parts.2),
{
    let bytes = encode_utf8(path);
    let len = bytes.len() as int;
    encode_utf8_valid_utf8(path);
    is_char_boundary_start_end_of_seq(bytes);
    if end < len {
        is_char_boundary_iff_not_is_continuation_byte(bytes, end);
    }
    let cut = lemma_split_at_boundary(path, end);
    let head = path.take(cut);
    let after = path.skip(cut);
    assert forall|i: int| 0 <= i < encode_utf8(after).len() implies separator_byte(
        #[trigger] encode_utf8(after)[i],
    ) by {
        assert(encode_utf8(after)[i] == bytes[end + i]);
    }
    lemma_all_separator_bytes(after);
    let hb = encode_utf8(head);
    encode_utf8_valid_utf8(head);
    let count = if start == 0 {
        0
    } else {
        assert(hb[start - 1] == bytes[start - 1]);
        is_char_boundary_iff_not_is_continuation_byte(hb, start - 1);
        let at = lemma_split_at_boundary(head, start - 1);
        let rest = head.skip(at);
        assert(encode_utf8(rest)[0] == hb[start - 1]);
        assert(rest.len() > 0);
        lemma_separator_encoding(rest);
        assert(head.take(at + 1) == head.take(at) + rest.take(1));
        lemma_encode_concat(head.take(at), rest.take(1));
        assert(head.take(at + 1).last() == rest[0]);
        at + 1
    };
    let before = head.take(count);
    let name = head.skip(count);
    assert(head == before + name);
    lemma_encode_concat(before, name);
    assert(encode_utf8(before).len() == start);
    assert(encode_utf8(before) == hb.subrange(0, start));
    assert(encode_utf8(name) == hb.subrange(start, end));
    assert(encode_utf8(before) == bytes.subrange(0, start));
    assert(encode_utf8(name) == bytes.subrange(start, end));
    assert forall|i: int| 0 <= i < encode_utf8(name).len() implies !separator_byte(
        #[trigger] encode_utf8(name)[i],
    ) by {
        assert(encode_utf8(name)[i] == bytes[start + i]);
    }
    lemma_no_separator_bytes(name);
    assert(path == before + name + after);
    (before, name, after)
}

/// Separators at the end of a path do not matter.
proof fn lemma_trailing_separators(path: Seq<char>, trailing: Seq<char>)
    requires
        all_separators(trailing),
    ensures
        without_trailing_separators(path + trailing) == without_trailing_separators(path),
    decreases trailing.len(),
{
    if trailing.len() == 0 {
        assert(path + trailing == path);
    } else {
        assert((path + trailing).drop_last() == path + trailing.drop_last());
        assert((path + trailing).last() == trailing.last());
        lemma_trailing_separators(path, trailing.drop_last());
    }
}

/// What stands behind a separator, and holds none, is the last component.
proof fn lemma_after_last_separator(before: Seq<char>, name: Seq<char>)
    requires
        before.len() > 0 ==> is_separator(before.last()),
        separator_free(name),
    ensures
        after_last_separator(before + name) == name,
    decreases name.len(),
{
    if name.len() == 0 {
        assert(before + name == before);
    } else {
        assert((before + name).drop_last() == before + name.drop_last());
        assert((before + name).last() == name.last());
        lemma_after_last_separator(before, name.drop_last());
        assert(name.drop_last().push(name.last()) == name);
    }
}

/// The name of a path that is cut around its last component.
proof fn lemma_project_name(before: Seq<char>, name: Seq<char>, after: Seq<char>)
    requires
        before.len() > 0 ==> is_separator(before.last()),
        separator_free(name),
        all_separators(after),
        name.len() == 0 ==> before.len() == 0,
    ensures
        project_name(before + name + after) == (if name.len() == 0 {
            "unknown"@
        } else {
            name
        }),
{
    lemma_trailing_separators(before + name, after);
    lemma_after_last_separator(before, name);
    if name.len() > 0 {
        assert((before + name).last() == name.last());
    } else {
        assert(before + name == Seq::<char>::empty());
    }
}

/// Every path splits into what stands before its last component, that component
/// and the separators behind it.
proof fn lemma_last_component(path: Seq<char>) -> (parts: (Seq<char>, Seq<char>, Seq<char>))
    ensures
        path == parts.0 + parts.1 + parts.2,
        parts.0.len() > 0 ==> is_separator(parts.0.last()),
        separator_free(parts.1),
        all_separators(parts.2),
        parts.1.len() == 0 ==> parts.0.len() == 0,
    decreases path.len(),
{
    if path.len() == 0 {
        (path, path, path)
    } else if is_separator(path.last()) {
        let (before, name, after) = lemma_last_component(path.drop_last());
        assert(path == path.drop_last().push(path.last()));
        assert(path == before + name + after.push(path.last()));
        (before, name, after.push(path.last()))
    } else {
        let (before, name, after) = lemma_last_component(path.drop_last());
        let last = seq![path.last()];
        assert(path == path.drop_last() + last);
        if after.len() > 0 {
            assert(path == before + name + after + last + Seq::<char>::empty());
            assert((before + name + after).last() == after.last());
            (before + name + after, last, Seq::empty())
        } else {
            assert(path == before + (name + last) + after);
            (before, name + last, after)
        }
    }
}

/// A project name is never empty and never holds a separator.
pub proof fn project_name_is_one_component(path: Seq<char>)
    ensures
        project_name(path).len() > 0,
        separator_free(project_name(path)),
{
    let (before, name, after) = lemma_last_component(path);
    lemma_project_name(before, name, after);
    reveal_strlit("unknown");
}

/// Separators at the end of a path do not change the name.
pub proof fn trailing_separators_do_not_matter(path: Seq<char>, trailing: Seq<char>)
    requires
        all_separators(trailing),
    ensures
        project_name(path + trailing) == project_name(path),
{
    lemma_trailing_separators(path, trailing);
}

/// A directory inside another is named by its own component alone.
pub proof fn project_name_of_child(parent: Seq<char>, separator: char, name: Seq<char>)
    requires
        is_separator(separator),
        name.len() > 0,
        separator_free(name),
    ensures
        project_name(parent.push(separator) + name) == name,
{
    let before = parent.push(separator);
    lemma_project_name(before, name, Seq::empty());
    assert(before + name + Seq::<char>::empty() == before + name);
}

/// A path without a component, the empty one among them, is named `unknown`.
pub proof fn path_without_component_is_unknown(path: Seq<char>)
    requires
        all_separators(path),
    ensures
        project_name(path) == "unknown"@,
{
    let empty = Seq::<char>::empty();
    lemma_project_name(empty, empty, path);
    assert(empty + empty + path == path);
}

/// The name of a name is that name.
pub proof fn project_name_is_idempotent(path: Seq<char>)
    ensures
        project_name(project_name(path)) == project_name(path),
{
    let name = project_name(path);
    let empty = Seq::<char>::empty();
    project_name_is_one_component(path);
    lemma_project_name(empty, name, empty);
    assert(empty + name + empty == name);
}

/// The separators are the slash and the backslash, and nothing else.
pub proof fn separators_are_slash_and_backslash(c: char)
    ensures
        is_separator(c) <==> (c == '/' || c == '\\'),
{
}

/// The name of any path, whatever stands before its last component and however
/// many slashes and backslashes stand behind it: that component if there is one,
/// and `unknown` if there is none. Every path has this shape.
pub proof fn name_is_what_stands_between_slashes(
    before: Seq<char>,
    name: Seq<char>,
    after: Seq<char>,
)
    requires
        before.len() > 0 ==> before.last() == '/' || before.last() == '\\',
        forall|i: int| 0 <= i < name.len() ==> #[trigger] name[i] != '/' && name[i] != '\\',
        forall|i: int| 0 <= i < after.len() ==> #[trigger] after[i] == '/' || after[i] == '\\',
    ensures
        name.len() > 0 ==> project_name(before + name + after) == name,
        name.len() == 0 && before.len() == 0 ==> project_name(after) == "unknown"@,
{
    if name.len() > 0 {
        lemma_project_name(before, name, after);
    } else if before.len() == 0 {
        lemma_project_name(before, name, after);
        assert(before + name + after == after);
    }
}

/// A directory below another is named by what stands behind the slash or the
/// backslash, whatever other characters its name holds.
pub proof fn name_below_a_directory(parent: Seq<char>, name: Seq<char>)
    requires
        name.len() > 0,
        forall|i: int| 0 <= i < name.len() ==> #[trigger] name[i] != '/' && name[i] != '\\',
    ensures
        project_name(parent + seq!['/'] + name) == name,
        project_name(parent + seq!['\\'] + name) == name,
        project_name(name) == name,
{
    let none = Seq::<char>::empty();
    let slash = parent + seq!['/'];
    let backslash = parent + seq!['\\'];
    name_is_what_stands_between_slashes(slash, name, none);
    name_is_what_stands_between_slashes(backslash, name, none);
    name_is_what_stands_between_slashes(none, name, none);
    assert(slash + name + none == slash + name);
    assert(backslash + name + none == backslash + name);
    assert(none + name + none == name);
}

} // verus!
