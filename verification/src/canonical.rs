//! The exact text forms that are hashed: compact JSON with a fixed order of
//! fields, written byte by byte.
//!
//! Strings are escaped as little as JSON allows: the quotation mark, the
//! backslash and the control characters below U+0020, and nothing else.
//! Numbers are written in decimal without padding.

use vstd::prelude::*;
use vstd::string::StringSliceAdditionalSpecFns;

verus! {

/// The quotation mark.
pub const QUOTE: u8 = 0x22;

/// The backslash.
pub const BACKSLASH: u8 = 0x5c;

/// The comma.
pub const COMMA: u8 = 0x2c;

/// The digit `0`.
pub const DIGIT_ZERO: u8 = 0x30;

/// The letter `a`.
pub const LOWER_A: u8 = 0x61;

/// The decimal digits of `n`, without leading zeros.
pub open spec fn decimal(n: nat) -> Seq<u8>
    decreases n,
{
    if n < 10 {
        seq![(DIGIT_ZERO + n) as u8]
    } else {
        decimal(n / 10).push((DIGIT_ZERO + n % 10) as u8)
    }
}

/// The decimal forms of the numbers, separated by commas.
pub open spec fn joined_decimals(numbers: Seq<u8>) -> Seq<u8>
    decreases numbers.len(),
{
    if numbers.len() == 0 {
        Seq::empty()
    } else if numbers.len() == 1 {
        decimal(numbers[0] as nat)
    } else {
        joined_decimals(numbers.drop_last()).push(COMMA) + decimal(numbers.last() as nat)
    }
}

/// The lower-case hexadecimal digit for a value below 16.
pub open spec fn hex_lower(value: u8) -> u8 {
    if value < 10 {
        (DIGIT_ZERO + value) as u8
    } else {
        (LOWER_A + value - 10) as u8
    }
}

/// How one byte of a string is written inside a JSON string.
pub open spec fn escaped(b: u8) -> Seq<u8> {
    if b == QUOTE {
        seq![BACKSLASH, QUOTE]
    } else if b == BACKSLASH {
        seq![BACKSLASH, BACKSLASH]
    } else if b == 0x08 {
        seq![BACKSLASH, 0x62u8]
    } else if b == 0x09 {
        seq![BACKSLASH, 0x74u8]
    } else if b == 0x0a {
        seq![BACKSLASH, 0x6eu8]
    } else if b == 0x0c {
        seq![BACKSLASH, 0x66u8]
    } else if b == 0x0d {
        seq![BACKSLASH, 0x72u8]
    } else if b < 0x20 {
        seq![BACKSLASH, 0x75u8, DIGIT_ZERO, DIGIT_ZERO, hex_lower(b / 16), hex_lower(b % 16)]
    } else {
        seq![b]
    }
}

/// The bytes of a string, each written as `escaped` says.
pub open spec fn escaped_text(text: Seq<u8>) -> Seq<u8>
    decreases text.len(),
{
    if text.len() == 0 {
        Seq::empty()
    } else {
        escaped_text(text.drop_last()) + escaped(text.last())
    }
}

/// A JSON string: the escaped text between quotation marks.
pub open spec fn json_string(text: Seq<u8>) -> Seq<u8> {
    seq![QUOTE] + escaped_text(text) + seq![QUOTE]
}

/// The JSON strings of the items, separated by commas.
pub open spec fn joined_strings(items: Seq<Seq<u8>>) -> Seq<u8>
    decreases items.len(),
{
    if items.len() == 0 {
        Seq::empty()
    } else if items.len() == 1 {
        json_string(items[0])
    } else {
        joined_strings(items.drop_last()).push(COMMA) + json_string(items.last())
    }
}

/// The text with every backslash deleted.
pub open spec fn without_backslashes(text: Seq<u8>) -> Seq<u8> {
    text.filter(|b: u8| b != BACKSLASH)
}

/// Deleting backslashes from a text with one more byte.
pub proof fn lemma_without_backslashes_push(text: Seq<u8>, b: u8)
    ensures
        without_backslashes(text.push(b)) == if b == BACKSLASH {
            without_backslashes(text)
        } else {
            without_backslashes(text).push(b)
        },
{
    reveal(Seq::filter);
    assert(text.push(b).drop_last() =~= text);
}

/// A text from which backslashes are deleted holds none, and is no longer
/// than it was.
pub proof fn lemma_without_backslashes_holds_none(text: Seq<u8>)
    ensures
        forall|i: int|
            0 <= i < without_backslashes(text).len() ==> #[trigger] without_backslashes(text)[i]
                != BACKSLASH,
        without_backslashes(text).len() <= text.len(),
{
}

/// Appends the bytes of `bytes` to `out`.
pub fn push_bytes(out: &mut Vec<u8>, bytes: &[u8])
    ensures
        final(out)@ == old(out)@ + bytes@,
{
    let mut i: usize = 0;
    while i < bytes.len()
        invariant
            i <= bytes.len(),
            out@ == old(out)@ + bytes@.take(i as int),
        decreases bytes.len() - i,
    {
        out.push(bytes[i]);
        i += 1;
    }
}

/// Appends the bytes of `text` to `out`.
pub fn push_text(out: &mut Vec<u8>, text: &str)
    ensures
        final(out)@ == old(out)@ + text.spec_bytes(),
{
    push_bytes(out, text.as_bytes());
}

/// Appends the decimal digits of `n` to `out`.
pub fn push_decimal(out: &mut Vec<u8>, n: u64)
    ensures
        final(out)@ == old(out)@ + decimal(n as nat),
    decreases n,
{
    if n >= 10 {
        push_decimal(out, n / 10);
    }
    let digit: u8 = (n % 10) as u8;
    out.push(DIGIT_ZERO + digit);
}

/// Appends the decimal forms of the numbers, separated by commas.
pub fn push_joined_decimals(out: &mut Vec<u8>, numbers: &[u8])
    ensures
        final(out)@ == old(out)@ + joined_decimals(numbers@),
{
    let mut i: usize = 0;
    while i < numbers.len()
        invariant
            i <= numbers.len(),
            out@ == old(out)@ + joined_decimals(numbers@.take(i as int)),
        decreases numbers.len() - i,
    {
        if i > 0 {
            out.push(COMMA);
        }
        push_decimal(out, numbers[i] as u64);
        i += 1;
        assert(numbers@.take(i as int).drop_last() =~= numbers@.take(i - 1));
    }
    assert(numbers@.take(numbers@.len() as int) =~= numbers@);
}

/// Appends one byte of a string as it is written inside a JSON string.
pub fn push_escaped(out: &mut Vec<u8>, b: u8)
    ensures
        final(out)@ == old(out)@ + escaped(b),
{
    if b == QUOTE {
        out.push(BACKSLASH);
        out.push(QUOTE);
    } else if b == BACKSLASH {
        out.push(BACKSLASH);
        out.push(BACKSLASH);
    } else if b == 0x08 {
        out.push(BACKSLASH);
        out.push(0x62u8);
    } else if b == 0x09 {
        out.push(BACKSLASH);
        out.push(0x74u8);
    } else if b == 0x0a {
        out.push(BACKSLASH);
        out.push(0x6eu8);
    } else if b == 0x0c {
        out.push(BACKSLASH);
        out.push(0x66u8);
    } else if b == 0x0d {
        out.push(BACKSLASH);
        out.push(0x72u8);
    } else if b < 0x20 {
        let high: u8 = b / 16;
        let low: u8 = b % 16;
        out.push(BACKSLASH);
        out.push(0x75u8);
        out.push(DIGIT_ZERO);
        out.push(DIGIT_ZERO);
        out.push(DIGIT_ZERO + high);
        out.push(if low < 10 {
            DIGIT_ZERO + low
        } else {
            LOWER_A + (low - 10)
        });
    } else {
        out.push(b);
    }
}

/// Appends `text` as a JSON string.
pub fn push_json_string(out: &mut Vec<u8>, text: &[u8])
    ensures
        final(out)@ == old(out)@ + json_string(text@),
{
    out.push(QUOTE);
    let mut i: usize = 0;
    while i < text.len()
        invariant
            i <= text.len(),
            out@ == old(out)@.push(QUOTE) + escaped_text(text@.take(i as int)),
        decreases text.len() - i,
    {
        push_escaped(out, text[i]);
        i += 1;
        assert(text@.take(i as int).drop_last() =~= text@.take(i - 1));
    }
    out.push(QUOTE);
    assert(text@.take(text@.len() as int) =~= text@);
}

/// Deletes every backslash from a text.
pub fn strip_backslashes(text: &[u8]) -> (stripped: Vec<u8>)
    ensures
        stripped@ == without_backslashes(text@),
{
    let mut stripped: Vec<u8> = Vec::new();
    let mut i: usize = 0;
    while i < text.len()
        invariant
            i <= text.len(),
            stripped@ == without_backslashes(text@.take(i as int)),
        decreases text.len() - i,
    {
        let b: u8 = text[i];
        if b != BACKSLASH {
            stripped.push(b);
        }
        i += 1;
        proof {
            lemma_without_backslashes_push(text@.take(i - 1), b);
            assert(text@.take(i as int) =~= text@.take(i - 1).push(b));
        }
    }
    assert(text@.take(text@.len() as int) =~= text@);
    stripped
}

} // verus!
