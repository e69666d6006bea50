//! Strings and their UTF-8 bytes. The search runs over bytes; what it finds
//! is stated over characters. The lemmas here carry an occurrence from one
//! to the other, in both directions.

use crate::text::{begins_with, occurs_at, occurs_in};
use vstd::prelude::*;
use vstd::utf8::{
    decode_utf8, decode_utf8_split, encode_utf8, encode_utf8_decode_utf8, encode_utf8_valid_utf8,
    is_char_boundary, is_char_boundary_iff_not_is_continuation_byte, length_of_first_scalar,
    pop_first_scalar, valid_utf8, valid_utf8_split,
};

verus! {

/// The UTF-8 bytes of a string, given by its characters.
pub open spec fn bytes_of(s: Seq<char>) -> Seq<u8> {
    encode_utf8(s)
}

/// The bytes of two strings in a row are the bytes of the first, then those
/// of the second.
pub proof fn lemma_bytes_of_concat(first: Seq<char>, second: Seq<char>)
    ensures
        bytes_of(first + second) == bytes_of(first) + bytes_of(second),
    decreases first.len(),
{
    if first.len() == 0 {
        assert(first + second =~= second);
        assert(bytes_of(first) =~= Seq::<u8>::empty());
        assert(bytes_of(first + second) =~= bytes_of(first) + bytes_of(second));
    } else {
        lemma_bytes_of_concat(first.drop_first(), second);
        assert((first + second).drop_first() =~= first.drop_first() + second);
        assert(bytes_of(first + second) =~= bytes_of(first) + bytes_of(second));
    }
}

/// A string that is not empty has bytes.
pub proof fn lemma_bytes_of_nonempty(s: Seq<char>)
    requires
        s.len() > 0,
    ensures
        bytes_of(s).len() > 0,
{
}

/// Where valid bytes are followed by more bytes and the whole is valid too,
/// a character ends where the first part ends.
proof fn lemma_boundary_after_valid_part(head: Seq<u8>, tail: Seq<u8>)
    requires
        valid_utf8(head),
        valid_utf8(head + tail),
    ensures
        is_char_boundary(head + tail, head.len() as int),
    decreases head.len(),
{
    if head.len() > 0 {
        let whole = head + tail;
        assert(whole[0] == head[0]);
        assert(length_of_first_scalar(whole) == length_of_first_scalar(head));
        assert(length_of_first_scalar(head) <= head.len());
        assert(pop_first_scalar(whole) =~= pop_first_scalar(head) + tail);
        lemma_boundary_after_valid_part(pop_first_scalar(head), tail);
    }
}

/// An occurrence among the characters is an occurrence among the bytes.
pub proof fn lemma_occurrence_reaches_bytes(text: Seq<char>, pattern: Seq<char>, at: int)
    requires
        occurs_at(text, pattern, at),
    ensures
        occurs_at(bytes_of(text), bytes_of(pattern), bytes_of(text.subrange(0, at)).len() as int),
{
    let before = text.subrange(0, at);
    let after = text.subrange(at + pattern.len(), text.len() as int);
    assert(text =~= before + pattern + after);
    lemma_bytes_of_concat(before + pattern, after);
    lemma_bytes_of_concat(before, pattern);
    let offset = bytes_of(before).len() as int;
    assert(bytes_of(text).subrange(offset, offset + bytes_of(pattern).len()) =~= bytes_of(
        pattern,
    ));
}

/// An occurrence among the bytes is an occurrence among the characters: the
/// bytes of a pattern never match across the middle of a character. An
/// occurrence at the very beginning stays at the very beginning.
pub proof fn lemma_occurrence_reaches_chars(text: Seq<char>, pattern: Seq<char>, at: int)
    requires
        occurs_at(bytes_of(text), bytes_of(pattern), at),
    ensures
        occurs_in(text, pattern),
        at == 0 ==> begins_with(text, pattern),
{
    if pattern.len() == 0 {
        assert(text.subrange(0, 0) =~= pattern);
        assert(occurs_at(text, pattern, 0));
    } else {
        let all = bytes_of(text);
        let part = bytes_of(pattern);
        encode_utf8_valid_utf8(text);
        encode_utf8_valid_utf8(pattern);
        encode_utf8_decode_utf8(text);
        encode_utf8_decode_utf8(pattern);
        lemma_bytes_of_nonempty(pattern);
        assert(all.subrange(at, at + part.len())[0] == part[0]);
        assert(is_char_boundary(part, 0));
        is_char_boundary_iff_not_is_continuation_byte(part, 0);
        is_char_boundary_iff_not_is_continuation_byte(all, at);
        assert(is_char_boundary(all, at));
        valid_utf8_split(all, at);
        decode_utf8_split(all, at);
        let before = all.subrange(0, at);
        let rest = all.subrange(at, all.len() as int);
        let after = all.subrange(at + part.len(), all.len() as int);
        assert(rest =~= part + after);
        lemma_boundary_after_valid_part(part, after);
        valid_utf8_split(rest, part.len() as int);
        decode_utf8_split(rest, part.len() as int);
        assert(rest.subrange(0, part.len() as int) =~= part);
        assert(rest.subrange(part.len() as int, rest.len() as int) =~= after);
        let start = decode_utf8(before).len() as int;
        assert(text =~= decode_utf8(before) + pattern + decode_utf8(after));
        assert(text.subrange(start, start + pattern.len()) =~= pattern);
        assert(occurs_at(text, pattern, start));
        if at == 0 {
            assert(before.len() == 0);
            assert(decode_utf8(before).len() == 0);
        }
    }
}

/// A pattern is part of a text, character by character, exactly when its
/// bytes are part of the bytes of the text.
pub proof fn lemma_occurrence_in_bytes(text: Seq<char>, pattern: Seq<char>)
    ensures
        occurs_in(bytes_of(text), bytes_of(pattern)) == occurs_in(text, pattern),
{
    if occurs_in(text, pattern) {
        let at = choose|at: int| occurs_at(text, pattern, at);
        lemma_occurrence_reaches_bytes(text, pattern, at);
    }
    if occurs_in(bytes_of(text), bytes_of(pattern)) {
        let at = choose|at: int| occurs_at(bytes_of(text), bytes_of(pattern), at);
        lemma_occurrence_reaches_chars(text, pattern, at);
    }
}

/// A text begins with a prefix, character by character, exactly when its
/// bytes begin with the bytes of the prefix.
pub proof fn lemma_prefix_in_bytes(text: Seq<char>, prefix: Seq<char>)
    ensures
        begins_with(bytes_of(text), bytes_of(prefix)) == begins_with(text, prefix),
{
    if begins_with(text, prefix) {
        lemma_occurrence_reaches_bytes(text, prefix, 0);
        assert(text.subrange(0, 0) =~= Seq::<char>::empty());
        assert(bytes_of(text.subrange(0, 0)).len() == 0);
    }
    if begins_with(bytes_of(text), bytes_of(prefix)) {
        lemma_occurrence_reaches_chars(text, prefix, 0);
    }
}

} // verus!
