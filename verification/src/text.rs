//! Text and the bytes that spell it.
//!
//! Messages are text; the wire carries bytes. Text is spelled in UTF-8, as
//! `vstd::utf8` defines it, and the one byte the line format gives a meaning
//! to is the newline.

use vstd::prelude::*;
use vstd::utf8::{
    char_is_scalar, char_u32_cast, decode_utf8, encode_scalar, encode_utf8, valid_utf8,
};

verus! {

/// The byte that ends a line.
pub const NEWLINE: u8 = 0x0A;

/// The text that `bytes` spell, where they spell any.
pub open spec fn text_of(bytes: Seq<u8>) -> Option<Seq<char>> {
    if valid_utf8(bytes) {
        Some(decode_utf8(bytes))
    } else {
        None
    }
}

/// An optional string seen as optional text.
pub open spec fn opt_text(text: Option<String>) -> Option<Seq<char>> {
    match text {
        Some(s) => Some(s@),
        None => None,
    }
}

/// Turns bytes into a string by `String::from_utf8`.
///
/// Taken on trust, not proved: the standard library accepts exactly the
/// well-formed UTF-8 sequences, and the string it returns is made of the
/// characters that those bytes encode.
#[verifier::external_body]
pub(crate) fn string_from_utf8(bytes: Vec<u8>) -> (text: Option<String>)
    ensures
        opt_text(text) == text_of(bytes@),
{
    match String::from_utf8(bytes) {
        Ok(s) => Some(s),
        Err(_) => None,
    }
}

/// Spelling two texts one after the other spells their concatenation.
pub proof fn lemma_encode_concat(a: Seq<char>, b: Seq<char>)
    ensures
        encode_utf8(a + b) == encode_utf8(a) + encode_utf8(b),
    decreases a.len(),
{
    if a.len() == 0 {
        assert(a + b =~= b);
        assert(encode_utf8(a) + encode_utf8(b) =~= encode_utf8(b));
    } else {
        lemma_encode_concat(a.drop_first(), b);
        assert((a + b).drop_first() =~= a.drop_first() + b);
        assert((a + b)[0] == a[0]);
        assert(encode_utf8(a + b) =~= encode_utf8(a) + encode_utf8(b));
    }
}

/// A one-character text is spelled by that character's encoding.
pub proof fn lemma_encode_single(c: char)
    ensures
        encode_utf8(seq![c]) == encode_scalar(c as u32),
{
    let s = seq![c];
    assert(s.drop_first() =~= Seq::<char>::empty());
    assert(encode_utf8(s.drop_first()) =~= Seq::<u8>::empty());
    assert(encode_utf8(s) =~= encode_scalar(c as u32));
}

/// No byte of a multi-byte encoding is the newline byte, and a one-byte
/// encoding is the newline byte only for the newline character.
proof fn lemma_scalar_bytes(v: u32)
    by (bit_vector)
    ensures
        (v & 0x7F) as u8 == 0x0Au8 && v <= 0x7F ==> v == 0x0A,
        v == 0x0A ==> (v & 0x7F) as u8 == 0x0Au8,
        0xC0u8 | ((v >> 6) & 0x1F) as u8 != 0x0Au8,
        0xE0u8 | ((v >> 12) & 0x0F) as u8 != 0x0Au8,
        0xF0u8 | ((v >> 18) & 0x7) as u8 != 0x0Au8,
        0x80u8 | (v & 0x3F) as u8 != 0x0Au8,
        0x80u8 | ((v >> 6) & 0x3F) as u8 != 0x0Au8,
        0x80u8 | ((v >> 12) & 0x3F) as u8 != 0x0Au8,
{
}

/// The newline byte occurs in a character's encoding only as the whole
/// encoding of the newline character.
pub proof fn lemma_scalar_newline(c: char)
    ensures
        encode_scalar(c as u32).len() > 0,
        c == '\n' ==> encode_scalar(c as u32) == seq![NEWLINE],
        c != '\n' ==> !encode_scalar(c as u32).contains(NEWLINE),
{
    let v: u32 = c as u32;
    char_is_scalar(c);
    lemma_scalar_bytes(v);
    if c == '\n' {
        assert(v == 0x0A);
        assert(encode_scalar(v) =~= seq![NEWLINE]);
    } else {
        assert(v != 0x0A) by {
            char_u32_cast(c, v);
            char_u32_cast('\n', 0x0Au32);
        }
    }
}

/// Text without a newline character is spelled without a newline byte.
pub proof fn lemma_encode_no_newline(text: Seq<char>)
    requires
        !text.contains('\n'),
    ensures
        !encode_utf8(text).contains(NEWLINE),
    decreases text.len(),
{
    if text.len() > 0 {
        let rest = text.drop_first();
        assert(text.contains(text[0]));
        assert forall|i: int| 0 <= i < rest.len() implies rest[i] != '\n' by {
            assert(text.contains(text[i + 1]));
        }
        lemma_encode_no_newline(rest);
        lemma_scalar_newline(text[0]);
        let head = encode_scalar(text[0] as u32);
        let tail = encode_utf8(rest);
        assert forall|i: int| 0 <= i < (head + tail).len() implies (head + tail)[i] != NEWLINE by {
            if i < head.len() {
                assert(head.contains(head[i]));
            } else {
                assert(tail.contains(tail[i - head.len()]));
            }
        }
    }
}

/// Text ends in the newline character exactly when its spelling ends in the
/// newline byte.
pub proof fn lemma_encode_last_newline(text: Seq<char>)
    requires
        text.len() > 0,
    ensures
        encode_utf8(text).len() > 0,
        encode_utf8(text).last() == NEWLINE <==> text.last() == '\n',
{
    let front = text.drop_last();
    let last = text.last();
    assert(text =~= front + seq![last]);
    lemma_encode_concat(front, seq![last]);
    lemma_encode_single(last);
    lemma_scalar_newline(last);
    let tail = encode_scalar(last as u32);
    assert(encode_utf8(text).last() == tail.last());
    if last != '\n' {
        assert(tail.contains(tail.last()));
    }
}

} // verus!
