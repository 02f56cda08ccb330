//! Byte offsets into text: which offsets fall between two characters, and
//! the text that lies between two such offsets.

use vstd::prelude::*;
use vstd::string::*;
use vstd::utf8::*;

verus! {

/// The number of bytes that `text` takes in UTF-8.
pub open spec fn byte_len(text: Seq<char>) -> nat {
    encode_utf8(text).len()
}

/// Whether byte offset `i` of `text` falls between two characters, or at
/// either end.
pub open spec fn on_boundary(text: Seq<char>, i: int) -> bool {
    is_char_boundary(encode_utf8(text), i)
}

/// The characters that `text` holds between the byte offsets `from` and `to`.
pub open spec fn text_between(text: Seq<char>, from: int, to: int) -> Seq<char> {
    decode_utf8(encode_utf8(text).subrange(from, to))
}

/// In valid UTF-8 an offset is a character boundary exactly when it is the
/// end or the byte there does not continue a character.
pub proof fn lemma_boundary_by_byte(bytes: Seq<u8>, i: int)
    requires
        valid_utf8(bytes),
        0 <= i <= bytes.len(),
    ensures
        is_char_boundary(bytes, i) <==> (i == bytes.len() || !is_continuation_byte(bytes[i])),
{
    if i == bytes.len() {
        is_char_boundary_start_end_of_seq(bytes);
    } else {
        is_char_boundary_iff_not_is_continuation_byte(bytes, i);
    }
}

/// The slice between two boundaries is valid UTF-8, and a boundary of the
/// whole that lies inside it is a boundary of the slice.
pub proof fn lemma_boundary_in_slice(bytes: Seq<u8>, a: int, i: int, b: int)
    requires
        valid_utf8(bytes),
        0 <= a <= i <= b <= bytes.len(),
        is_char_boundary(bytes, a),
        is_char_boundary(bytes, i),
        is_char_boundary(bytes, b),
    ensures
        valid_utf8(bytes.subrange(a, b)),
        is_char_boundary(bytes.subrange(a, b), i - a),
{
    let prefix = bytes.subrange(0, b);
    valid_utf8_split(bytes, b);
    lemma_boundary_by_byte(bytes, a);
    lemma_boundary_by_byte(prefix, a);
    valid_utf8_split(prefix, a);
    assert(prefix.subrange(a, prefix.len() as int) =~= bytes.subrange(a, b));
    let slice = bytes.subrange(a, b);
    lemma_boundary_by_byte(bytes, i);
    lemma_boundary_by_byte(slice, i - a);
}

/// A boundary followed by an ASCII byte is followed by another boundary.
pub proof fn lemma_boundary_after_ascii(bytes: Seq<u8>, i: int)
    requires
        valid_utf8(bytes),
        0 <= i < bytes.len(),
        is_char_boundary(bytes, i),
        bytes[i] <= 0x7f,
    ensures
        is_char_boundary(bytes, i + 1),
{
    valid_utf8_split(bytes, i);
    let rest = bytes.subrange(i, bytes.len() as int);
    assert(rest[0] == bytes[i]);
    assert(length_of_first_scalar(rest) == 1);
    let tail = pop_first_scalar(rest);
    assert(valid_utf8(tail));
    assert(tail =~= bytes.subrange(i + 1, bytes.len() as int));
    if i + 1 < bytes.len() {
        assert(tail[0] == bytes[i + 1]);
        assert(valid_first_scalar(tail));
        assert(!is_continuation_byte(tail[0]));
    }
    lemma_boundary_by_byte(bytes, i + 1);
}

/// Text between `a` and `b`, followed by text between `b` and `c`, is the
/// text between `a` and `c`.
pub proof fn lemma_text_between_join(text: Seq<char>, a: int, b: int, c: int)
    requires
        0 <= a <= b <= c <= byte_len(text),
        on_boundary(text, a),
        on_boundary(text, b),
        on_boundary(text, c),
    ensures
        text_between(text, a, b) + text_between(text, b, c) == text_between(text, a, c),
{
    let bytes = encode_utf8(text);
    encode_utf8_valid_utf8(text);
    lemma_boundary_in_slice(bytes, a, b, c);
    let slice = bytes.subrange(a, c);
    decode_utf8_split(slice, b - a);
    assert(slice.subrange(0, b - a) =~= bytes.subrange(a, b));
    assert(slice.subrange(b - a, slice.len() as int) =~= bytes.subrange(b, c));
}

/// The text between offset 0 and the end is the whole text.
pub proof fn lemma_text_between_ends(text: Seq<char>)
    ensures
        text_between(text, 0, byte_len(text) as int) == text,
        on_boundary(text, 0),
        on_boundary(text, byte_len(text) as int),
{
    let bytes = encode_utf8(text);
    encode_utf8_valid_utf8(text);
    encode_utf8_decode_utf8(text);
    is_char_boundary_start_end_of_seq(bytes);
    assert(bytes.subrange(0, bytes.len() as int) =~= bytes);
}

/// The part of `s` between two byte offsets that both fall on character
/// boundaries.
pub fn slice_of<'a>(s: &'a str, from: usize, to: usize) -> (r: &'a str)
    requires
        from <= to <= byte_len(s@),
        on_boundary(s@, from as int),
        on_boundary(s@, to as int),
    ensures
        r@ == text_between(s@, from as int, to as int),
{
    proof {
        encode_utf8_valid_utf8(s@);
        is_char_boundary_start_end_of_seq(s.spec_bytes());
        lemma_boundary_in_slice(s.spec_bytes(), 0, from as int, to as int);
    }
    let (head, _) = s.split_at(to);
    let (_, mid) = head.split_at(from);
    proof {
        assert(mid.spec_bytes() =~= s.spec_bytes().subrange(from as int, to as int));
        encode_utf8_decode_utf8(mid@);
    }
    mid
}

} // verus!
