//! Facts about the UTF-8 encoding of a text: how the bytes of the encoding
//! go back to the characters of the text.

use vstd::prelude::*;
use vstd::utf8::{char_is_scalar, char_u32_cast, encode_scalar, encode_utf8};

verus! {

/// The encoding of a text that is made of two parts is made of the encodings
/// of the parts.
pub proof fn lemma_encode_concat(a: Seq<char>, b: Seq<char>)
    ensures
        encode_utf8(a + b) == encode_utf8(a) + encode_utf8(b),
    decreases a.len(),
{
    if a.len() > 0 {
        assert((a + b).drop_first() =~= a.drop_first() + b);
        lemma_encode_concat(a.drop_first(), b);
    }
}

/// A character below 128 is encoded as the one byte of its number. The bytes
/// of every other character are 128 or more.
pub proof fn lemma_encode_char(c: char)
    ensures
        (c as u32) < 0x80 ==> encode_scalar(c as u32) == seq![(c as u32) as u8],
        (c as u32) >= 0x80 ==> forall|k: int|
            0 <= k < encode_scalar(c as u32).len() ==> #[trigger] encode_scalar(c as u32)[k]
                >= 0x80,
        encode_scalar(c as u32).len() >= 1,
{
    let s = c as u32;
    char_is_scalar(c);
    if s < 0x80 {
        assert((s & 0x7F) as u8 == s as u8) by (bit_vector)
            requires
                s < 0x80,
        ;
    }
    assert((0xC0u8 | ((s >> 6) & 0x1F) as u8) >= 0x80) by (bit_vector);
    assert((0xE0u8 | ((s >> 12) & 0x0F) as u8) >= 0x80) by (bit_vector);
    assert((0xF0u8 | ((s >> 18) & 0x7) as u8) >= 0x80) by (bit_vector);
    assert((0x80u8 | (s & 0x3F) as u8) >= 0x80) by (bit_vector);
    assert((0x80u8 | ((s >> 6) & 0x3F) as u8) >= 0x80) by (bit_vector);
    assert((0x80u8 | ((s >> 12) & 0x3F) as u8) >= 0x80) by (bit_vector);
}

/// Two characters with the same number are the same character.
pub proof fn lemma_same_number(c: char, d: char)
    requires
        c as u32 == d as u32,
    ensures
        c == d,
{
    char_u32_cast(c, c as u32);
    char_u32_cast(d, d as u32);
}

/// A byte below 128 stands in the encoding of a text only where the text
/// holds the character of that number: at the place `at` of the encoding
/// stands the first byte of the character at the place `i` of the text.
pub proof fn lemma_encode_covers(text: Seq<char>, at: int) -> (i: int)
    requires
        0 <= at < encode_utf8(text).len(),
    ensures
        0 <= i < text.len(),
        encode_utf8(text)[at] < 0x80 ==> (text[i] as u32) < 0x80 && encode_utf8(text)[at] == (
        text[i] as u32) as u8,
        encode_utf8(text)[at] < 0x80 && at == encode_utf8(text).len() - 1 ==> i == text.len() - 1,
    decreases text.len(),
{
    lemma_encode_char(text[0]);
    let head = encode_scalar(text[0] as u32);
    let rest = text.drop_first();
    if at < head.len() {
        if rest.len() > 0 {
            lemma_encode_char(rest[0]);
        }
        0
    } else {
        assert(encode_utf8(text)[at] == encode_utf8(rest)[at - head.len()]);
        let j = lemma_encode_covers(rest, at - head.len());
        j + 1
    }
}

/// The encoding of a text holds, for each character below 128 in the text,
/// the byte of its number: the character at the place `i` of the text is
/// encoded from the place `at` of the encoding on.
pub proof fn lemma_encode_holds(text: Seq<char>, i: int) -> (at: int)
    requires
        0 <= i < text.len(),
    ensures
        0 <= at < encode_utf8(text).len(),
        (text[i] as u32) < 0x80 ==> encode_utf8(text)[at] == (text[i] as u32) as u8,
        (text[i] as u32) >= 0x80 ==> encode_utf8(text)[at] >= 0x80,
    decreases text.len(),
{
    lemma_encode_char(text[0]);
    let head = encode_scalar(text[0] as u32);
    let rest = text.drop_first();
    if i == 0 {
        0
    } else {
        let at = lemma_encode_holds(rest, i - 1);
        at + head.len()
    }
}

} // verus!
