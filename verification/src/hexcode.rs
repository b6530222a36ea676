//! Hexadecimal text, decoded by the `hex` crate.

use vstd::prelude::*;
use vstd::utf8::{encode_scalar, encode_utf8, has_width_1_encoding};

verus! {

/// The value of one hexadecimal digit, written in either case, and `None`
/// for every other byte.
pub open spec fn hex_digit_value(digit: u8) -> Option<u8> {
    if 0x30 <= digit <= 0x39 {
        Some((digit - 0x30) as u8)
    } else if 0x41 <= digit <= 0x46 {
        Some((digit - 0x41 + 10) as u8)
    } else if 0x61 <= digit <= 0x66 {
        Some((digit - 0x61 + 10) as u8)
    } else {
        None
    }
}

/// True when `text` is an even number of hexadecimal digits.
pub open spec fn is_hex_text(text: Seq<u8>) -> bool {
    &&& text.len() % 2 == 0
    &&& forall|i: int| 0 <= i < text.len() ==> hex_digit_value(#[trigger] text[i]) is Some
}

/// The bytes that hexadecimal text spells: each pair of digits is one byte,
/// the first digit of a pair being the high half.
pub open spec fn hex_decoded(text: Seq<u8>) -> Seq<u8> {
    Seq::new(
        text.len() / 2,
        |i: int|
            (hex_digit_value(text[2 * i]).unwrap() * 16 + hex_digit_value(
                text[2 * i + 1],
            ).unwrap()) as u8,
    )
}

/// True when every byte is below 0x80.
pub open spec fn all_ascii(bytes: Seq<u8>) -> bool {
    forall|i: int| 0 <= i < bytes.len() ==> #[trigger] bytes[i] < 0x80
}

/// A character below U+0080 is written in UTF-8 as one byte, itself; every
/// other character starts with a byte of 0x80 or more.
pub proof fn lemma_first_byte_of_scalar(scalar: u32)
    ensures
        has_width_1_encoding(scalar) ==> encode_scalar(scalar) == seq![scalar as u8],
        !has_width_1_encoding(scalar) ==> encode_scalar(scalar)[0] >= 0x80,
{
    assert(scalar <= 0x7F ==> scalar & 0x7F == scalar) by (bit_vector);
    assert(forall|b: u8| 0xC0u8 | b >= 0x80u8) by (bit_vector);
    assert(forall|b: u8| 0xE0u8 | b >= 0x80u8) by (bit_vector);
    assert(forall|b: u8| 0xF0u8 | b >= 0x80u8) by (bit_vector);
}

/// Text whose UTF-8 form holds only bytes below 0x80 has one byte for each
/// character, and each byte is the number of its character.
pub proof fn lemma_ascii_bytes_are_characters(text: Seq<char>)
    requires
        all_ascii(encode_utf8(text)),
    ensures
        encode_utf8(text).len() == text.len(),
        forall|i: int|
            0 <= i < text.len() ==> (#[trigger] text[i]) as u32 == encode_utf8(text)[i] as u32,
    decreases text.len(),
{
    if text.len() > 0 {
        let bytes = encode_utf8(text);
        let head = encode_scalar(text[0] as u32);
        let tail = text.drop_first();
        let rest = encode_utf8(tail);
        lemma_first_byte_of_scalar(text[0] as u32);
        assert(bytes[0] == head[0]);
        assert forall|i: int| 0 <= i < rest.len() implies #[trigger] rest[i] < 0x80 by {
            assert(bytes[i + 1] == rest[i]);
        }
        lemma_ascii_bytes_are_characters(tail);
        assert forall|i: int| 0 <= i < text.len() implies (#[trigger] text[i]) as u32
            == bytes[i] as u32 by {
            if i > 0 {
                assert(tail[i - 1] == text[i]);
                assert(bytes[i] == rest[i - 1]);
            }
        }
    }
}

/// Hexadecimal text has one byte for each character: where the UTF-8 form
/// of a text is hexadecimal digits, the text is as long as that form, and
/// each byte is the number of its character.
pub proof fn lemma_hex_text_is_ascii(text: Seq<char>)
    requires
        is_hex_text(encode_utf8(text)),
    ensures
        encode_utf8(text).len() == text.len(),
        forall|i: int|
            0 <= i < text.len() ==> (#[trigger] text[i]) as u32 == encode_utf8(text)[i] as u32,
{
    lemma_ascii_bytes_are_characters(text);
}

/// `hex::FromHexError`, the error of `hex::decode`. It is passed on unread.
#[verifier::external_type_specification]
#[verifier::external_body]
pub struct ExFromHexError(hex::FromHexError);

/// `hex::decode`: the bytes that the text spells, where the text is an even
/// number of hexadecimal digits in either case, and an error for every
/// other text.
#[verifier::external_body]
pub(crate) fn hex_decode(text: &[u8]) -> (decoded: Result<Vec<u8>, hex::FromHexError>)
    ensures
        decoded is Ok <==> is_hex_text(text@),
        decoded matches Ok(bytes) ==> bytes@ == hex_decoded(text@),
{
    hex::decode(text)
}

} // verus!
