//! The document as a sequence of UTF-8 bytes: where a byte string occurs in
//! it, where its characters begin, and how pieces of it are cut out.

use vstd::prelude::*;
use vstd::utf8::*;

verus! {

/// True when `needle` occurs in `text` starting at offset `at`.
pub open spec fn occurs_at(text: Seq<u8>, needle: Seq<u8>, at: int) -> bool {
    &&& 0 <= at
    &&& at + needle.len() <= text.len()
    &&& text.subrange(at, at + needle.len()) == needle
}

/// The least offset at or after `from` at which `needle` occurs in `text`.
pub open spec fn first_occurrence(text: Seq<u8>, needle: Seq<u8>, from: int) -> Option<int>
    decreases text.len() + 1 - from,
{
    if from < 0 || from + needle.len() > text.len() {
        None
    } else if occurs_at(text, needle, from) {
        Some(from)
    } else {
        first_occurrence(text, needle, from + 1)
    }
}

/// `first_occurrence` is an occurrence, and no occurrence lies between `from`
/// and it; where it is `None`, `needle` does not occur at or after `from`.
pub proof fn lemma_first_occurrence(text: Seq<u8>, needle: Seq<u8>, from: int)
    requires
        0 <= from,
    ensures
        match first_occurrence(text, needle, from) {
            Some(at) => {
                &&& from <= at
                &&& occurs_at(text, needle, at)
                &&& forall|k: int| from <= k < at ==> !occurs_at(text, needle, k)
            },
            None => forall|k: int| from <= k ==> !occurs_at(text, needle, k),
        },
    decreases text.len() + 1 - from,
{
    if from + needle.len() <= text.len() && !occurs_at(text, needle, from) {
        lemma_first_occurrence(text, needle, from + 1);
    }
}

/// The character whose encoding starts at offset `at` of `text`.
pub open spec fn char_at(text: Seq<u8>, at: int) -> char {
    decode_first_scalar(text.subrange(at, text.len() as int)) as char
}

/// The number of bytes that the character starting at offset `at` occupies.
pub open spec fn width_at(text: Seq<u8>, at: int) -> int {
    length_of_first_scalar(text.subrange(at, text.len() as int))
}

/// Encoding a concatenation is concatenating the encodings.
pub proof fn lemma_encode_concat(a: Seq<char>, b: Seq<char>)
    ensures
        encode_utf8(a + b) == encode_utf8(a) + encode_utf8(b),
    decreases a.len(),
{
    if a.len() == 0 {
        assert(a + b =~= b);
        assert(encode_utf8(a) + encode_utf8(b) =~= encode_utf8(b));
    } else {
        lemma_encode_concat(a.drop_first(), b);
        assert((a + b).drop_first() =~= a.drop_first() + b);
        assert(encode_utf8(a + b) =~= encode_utf8(a) + encode_utf8(b));
    }
}

/// Two character sequences with the same encoding are the same sequence.
pub proof fn lemma_encode_injective(a: Seq<char>, b: Seq<char>)
    requires
        encode_utf8(a) == encode_utf8(b),
    ensures
        a == b,
{
    encode_utf8_decode_utf8(a);
    encode_utf8_decode_utf8(b);
}

/// Where a non-empty, validly encoded needle occurs in a valid text, a
/// character of the text begins.
pub proof fn lemma_occurrence_on_boundary(text: Seq<u8>, needle: Seq<u8>, at: int)
    requires
        valid_utf8(text),
        valid_utf8(needle),
        needle.len() > 0,
        occurs_at(text, needle, at),
    ensures
        is_char_boundary(text, at),
{
    assert(!is_continuation_byte(needle[0]));
    assert(text.subrange(at, at + needle.len())[0] == needle[0]);
    is_char_boundary_iff_not_is_continuation_byte(text, at);
}

/// A character boundary lies within the text.
pub proof fn lemma_boundary_in_bounds(text: Seq<u8>, at: int)
    requires
        valid_utf8(text),
        is_char_boundary(text, at),
    ensures
        0 <= at <= text.len(),
    decreases text.len(),
{
    if at != 0 && 0 <= at <= text.len() {
        lemma_boundary_in_bounds(pop_first_scalar(text), at - length_of_first_scalar(text));
    }
}

/// After the character that begins at a boundary the next boundary follows.
pub proof fn lemma_boundary_after_char(text: Seq<u8>, at: int)
    requires
        valid_utf8(text),
        is_char_boundary(text, at),
        0 <= at < text.len(),
    ensures
        at + width_at(text, at) <= text.len(),
        is_char_boundary(text, at + width_at(text, at)),
        valid_first_scalar(text.subrange(at, text.len() as int)),
    decreases text.len(),
{
    let first = length_of_first_scalar(text);
    let rest = pop_first_scalar(text);
    if at == 0 {
        assert(text.subrange(0, text.len() as int) =~= text);
        reveal_with_fuel(is_char_boundary, 2);
    } else {
        reveal_with_fuel(is_char_boundary, 2);
        assert(at >= first);
        lemma_boundary_after_char(rest, at - first);
        assert(rest.subrange(at - first, rest.len() as int) =~= text.subrange(
            at,
            text.len() as int,
        ));
    }
}

/// Where a validly encoded needle occurs at a character boundary of a
/// valid text, it ends at a character boundary.
pub proof fn lemma_occurrence_ends_on_boundary(text: Seq<u8>, needle: Seq<u8>, at: int)
    requires
        valid_utf8(text),
        valid_utf8(needle),
        occurs_at(text, needle, at),
        is_char_boundary(text, at),
    ensures
        is_char_boundary(text, at + needle.len()),
    decreases needle.len(),
{
    if needle.len() > 0 {
        let width = length_of_first_scalar(needle);
        let rest = pop_first_scalar(needle);
        assert(text.subrange(at, at + needle.len())[0] == needle[0]);
        lemma_boundary_after_char(text, at);
        assert(width_at(text, at) == width);
        assert(text.subrange(at + width, at + width + rest.len()) =~= text.subrange(
            at,
            at + needle.len(),
        ).subrange(width, needle.len() as int));
        lemma_occurrence_ends_on_boundary(text, rest, at + width);
    }
}

/// The text with the bytes from `from` up to `to` replaced by `with`.
pub open spec fn splice(text: Seq<u8>, from: int, to: int, with: Seq<u8>) -> Seq<u8> {
    text.subrange(0, from) + with + text.subrange(to, text.len() as int)
}

/// The bytes from `from` up to `to` are whole characters of `text`, and the
/// text with `with` in their place is one that a machine can hold.
pub open spec fn can_splice(text: Seq<u8>, from: int, to: int, with: Seq<u8>) -> bool {
    &&& from <= to
    &&& is_char_boundary(text, from)
    &&& is_char_boundary(text, to)
    &&& text.len() - (to - from) + with.len() <= usize::MAX
}

/// Replacing whole characters of a valid text by a valid text gives a
/// valid text.
pub proof fn lemma_splice_valid(text: Seq<u8>, from: int, to: int, with: Seq<u8>)
    requires
        valid_utf8(text),
        valid_utf8(with),
        from <= to,
        is_char_boundary(text, from),
        is_char_boundary(text, to),
    ensures
        valid_utf8(splice(text, from, to, with)),
        splice(text, from, to, with).len() == text.len() - (to - from) + with.len(),
{
    lemma_boundary_in_bounds(text, from);
    lemma_boundary_in_bounds(text, to);
    valid_utf8_split(text, from);
    valid_utf8_split(text, to);
    valid_utf8_concat(text.subrange(0, from), with);
    valid_utf8_concat(text.subrange(0, from) + with, text.subrange(to, text.len() as int));
}

/// Replaces the bytes of `doc` from `from` up to `to` by `with`, where that
/// can be done, and says whether it was.
pub fn replace_range(doc: &mut String, from: usize, to: usize, with: &str) -> (done: bool)
    ensures
        done == can_splice(encode_utf8(old(doc)@), from as int, to as int, encode_utf8(with@)),
        done ==> encode_utf8(final(doc)@) == splice(
            encode_utf8(old(doc)@),
            from as int,
            to as int,
            encode_utf8(with@),
        ),
        !done ==> final(doc)@ == old(doc)@,
{
    let text = doc.as_str();
    let ghost bytes = encode_utf8(text@);
    let len = text.as_bytes().len();
    if from > to || !text.is_char_boundary(from) || !text.is_char_boundary(to) {
        return false;
    }
    proof {
        encode_utf8_valid_utf8(text@);
        lemma_boundary_in_bounds(bytes, to as int);
    }
    let kept = len - (to - from);
    if with.as_bytes().len() > usize::MAX - kept {
        return false;
    }
    let (head, _) = text.split_at(from);
    let (_, tail) = text.split_at(to);
    let mut next = head.to_owned();
    next.append(with);
    next.append(tail);
    proof {
        lemma_encode_concat(head@, with@);
        lemma_encode_concat(head@ + with@, tail@);
    }
    *doc = next;
    true
}

/// A character of `text` that begins before `to` begins in the first `to`
/// bytes of `text` as well.
pub proof fn lemma_boundary_in_prefix(text: Seq<u8>, at: int, to: int)
    requires
        valid_utf8(text),
        is_char_boundary(text, at),
        is_char_boundary(text, to),
        0 <= at <= to <= text.len(),
    ensures
        valid_utf8(text.subrange(0, to)),
        is_char_boundary(text.subrange(0, to), at),
{
    let head = text.subrange(0, to);
    valid_utf8_split(text, to);
    if at < to {
        is_char_boundary_iff_not_is_continuation_byte(text, at);
        is_char_boundary_iff_not_is_continuation_byte(head, at);
    } else {
        is_char_boundary_start_end_of_seq(head);
    }
}

/// An encoding is at least as long as the text it encodes.
pub proof fn lemma_encode_len(chars: Seq<char>)
    ensures
        chars.len() <= encode_utf8(chars).len(),
    decreases chars.len(),
{
    if chars.len() > 0 {
        lemma_encode_len(chars.drop_first());
    }
}

/// The piece of `doc` from `from` up to `to`, where both lie on character
/// boundaries of `doc` and `from` is not behind `to`.
pub fn slice<'a>(doc: &'a str, from: usize, to: usize) -> (piece: Option<&'a str>)
    ensures
        match piece {
            Some(cut) => {
                &&& from <= to
                &&& is_char_boundary(encode_utf8(doc@), from as int)
                &&& is_char_boundary(encode_utf8(doc@), to as int)
                &&& encode_utf8(cut@) == encode_utf8(doc@).subrange(from as int, to as int)
                &&& cut@ == decode_utf8(encode_utf8(doc@).subrange(from as int, to as int))
            },
            None => !(from <= to && is_char_boundary(encode_utf8(doc@), from as int)
                && is_char_boundary(encode_utf8(doc@), to as int)),
        },
{
    if from > to || !doc.is_char_boundary(from) || !doc.is_char_boundary(to) {
        return None;
    }
    proof {
        encode_utf8_valid_utf8(doc@);
        lemma_boundary_in_bounds(encode_utf8(doc@), to as int);
        lemma_boundary_in_prefix(encode_utf8(doc@), from as int, to as int);
    }
    let (head, _) = doc.split_at(to);
    let (_, cut) = head.split_at(from);
    proof {
        assert(encode_utf8(doc@).subrange(0, to as int).subrange(from as int, to as int)
            =~= encode_utf8(doc@).subrange(from as int, to as int));
        encode_utf8_decode_utf8(cut@);
    }
    Some(cut)
}

/// Compares `needle` against the bytes of `text` that start at `at`.
pub fn starts_at(text: &[u8], needle: &[u8], at: usize) -> (found: bool)
    ensures
        found == occurs_at(text@, needle@, at as int),
{
    if at > text.len() || needle.len() > text.len() - at {
        return false;
    }
    let mut i: usize = 0;
    while i < needle.len()
        invariant
            at + needle.len() <= text.len(),
            i <= needle.len(),
            forall|k: int| 0 <= k < i ==> text@[at + k] == needle@[k],
        decreases needle.len() - i,
    {
        if text[at + i] != needle[i] {
            assert(text@.subrange(at as int, at + needle.len())[i as int] != needle@[i as int]);
            return false;
        }
        i += 1;
    }
    assert(text@.subrange(at as int, at + needle.len()) =~= needle@);
    true
}

/// Tells whether two strings hold the same characters.
pub fn same_text(a: &str, b: &str) -> (same: bool)
    ensures
        same == (a@ == b@),
{
    let left = a.as_bytes();
    let right = b.as_bytes();
    let same = left.len() == right.len() && starts_at(left, right, 0);
    proof {
        assert(left@.subrange(0, left@.len() as int) =~= left@);
        if same {
            lemma_encode_injective(a@, b@);
        }
    }
    same
}

/// Searches `text` for `needle`, beginning at `from`.
pub fn find_from(text: &[u8], needle: &[u8], from: usize) -> (found: Option<usize>)
    ensures
        match found {
            Some(at) => first_occurrence(text@, needle@, from as int) == Some(at as int),
            None => first_occurrence(text@, needle@, from as int) is None,
        },
{
    if from > text.len() || needle.len() > text.len() - from {
        return None;
    }
    let last: usize = text.len() - needle.len();
    let mut at: usize = from;
    loop
        invariant
            needle.len() <= text.len(),
            last == text.len() - needle.len(),
            from <= at <= last,
            first_occurrence(text@, needle@, from as int) == first_occurrence(
                text@,
                needle@,
                at as int,
            ),
        decreases last - at,
    {
        if starts_at(text, needle, at) {
            return Some(at);
        }
        if at == last {
            assert(first_occurrence(text@, needle@, at + 1) is None);
            return None;
        }
        at += 1;
    }
}

} // verus!
