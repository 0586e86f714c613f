//! Hexadecimal text: two digits per byte, most significant nibble first.

use vstd::prelude::*;
use vstd::string::*;

verus! {

/// The lower-case digit of a nibble.
pub open spec fn digit_char(d: int) -> char {
    if d < 10 {
        (d + 48) as char
    } else {
        (d + 87) as char
    }
}

/// `c` is one of `0-9`, `a-f`, `A-F`.
pub open spec fn is_digit(c: char) -> bool {
    let v = c as int;
    (48 <= v <= 57) || (97 <= v <= 102) || (65 <= v <= 70)
}

/// `c` is one of `0-9`, `a-f`.
pub open spec fn is_lower_digit(c: char) -> bool {
    let v = c as int;
    (48 <= v <= 57) || (97 <= v <= 102)
}

/// The nibble that a digit stands for.
pub open spec fn digit_value(c: char) -> int {
    let v = c as int;
    if 48 <= v <= 57 {
        v - 48
    } else if 97 <= v <= 102 {
        v - 87
    } else {
        v - 55
    }
}

/// The text of `bytes`: lower-case, two digits per byte.
pub open spec fn encoded(bytes: Seq<u8>) -> Seq<char> {
    Seq::new(
        2 * bytes.len(),
        |i: int|
            digit_char(
                if i % 2 == 0 {
                    bytes[i / 2] as int / 16
                } else {
                    bytes[i / 2] as int % 16
                },
            ),
    )
}

/// `text` is an even number of digits, of either case.
pub open spec fn is_encoding(text: Seq<char>) -> bool {
    &&& text.len() % 2 == 0
    &&& forall|i: int| 0 <= i < text.len() ==> is_digit(#[trigger] text[i])
}

/// `text` is an even number of lower-case digits.
pub open spec fn is_lower_encoding(text: Seq<char>) -> bool {
    &&& text.len() % 2 == 0
    &&& forall|i: int| 0 <= i < text.len() ==> is_lower_digit(#[trigger] text[i])
}

/// The bytes that `text` stands for.
pub open spec fn decoded(text: Seq<char>) -> Seq<u8> {
    Seq::new(
        text.len() / 2,
        |k: int| (16 * digit_value(text[2 * k]) + digit_value(text[2 * k + 1])) as u8,
    )
}

/// Calls `hex::encode`, which writes each byte as two lower-case digits, the
/// high nibble first.
#[verifier::external_body]
pub(crate) fn encode(bytes: &[u8]) -> (text: String)
    ensures
        text@ == encoded(bytes@),
{
    ::hex::encode(bytes)
}

/// Calls `hex::decode`, which fails on an odd length and on any character
/// that is no digit, and otherwise reads two digits of either case per byte.
#[verifier::external_body]
pub(crate) fn decode(text: &str) -> (bytes: Option<Vec<u8>>)
    ensures
        bytes.is_some() == is_encoding(text@),
        bytes matches Some(b) ==> b@ == decoded(text@),
{
    ::hex::decode(text).ok()
}

/// Decoding the text of `bytes` gives `bytes` back.
pub proof fn lemma_decode_encode(bytes: Seq<u8>)
    ensures
        is_lower_encoding(encoded(bytes)),
        is_encoding(encoded(bytes)),
        decoded(encoded(bytes)) == bytes,
{
    let text = encoded(bytes);
    assert forall|i: int| 0 <= i < text.len() implies is_lower_digit(#[trigger] text[i]) by {
        let b = bytes[i / 2] as int;
        assert(0 <= b / 16 < 16 && 0 <= b % 16 < 16);
    }
    assert forall|k: int| 0 <= k < bytes.len() implies decoded(text)[k] == bytes[k] by {
        let b = bytes[k] as int;
        assert(0 <= b / 16 < 16 && 0 <= b % 16 < 16);
        assert((2 * k) % 2 == 0 && (2 * k) / 2 == k);
        assert((2 * k + 1) % 2 == 1 && (2 * k + 1) / 2 == k);
        assert(text[2 * k] == digit_char(b / 16));
        assert(text[2 * k + 1] == digit_char(b % 16));
        assert(digit_value(digit_char(b / 16)) == b / 16);
        assert(digit_value(digit_char(b % 16)) == b % 16);
        assert(16 * (b / 16) + b % 16 == b);
    }
    assert(decoded(text) =~= bytes);
}

/// Encoding what lower-case `text` stands for gives `text` back.
pub proof fn lemma_encode_decode(text: Seq<char>)
    requires
        is_lower_encoding(text),
    ensures
        is_encoding(text),
        encoded(decoded(text)) == text,
{
    let bytes = decoded(text);
    assert forall|i: int| 0 <= i < text.len() implies encoded(bytes)[i] == text[i] by {
        let k = i / 2;
        assert(is_lower_digit(text[2 * k]));
        assert(is_lower_digit(text[2 * k + 1]));
        let hi = digit_value(text[2 * k]);
        let lo = digit_value(text[2 * k + 1]);
        assert(0 <= hi < 16 && 0 <= lo < 16);
        let b = 16 * hi + lo;
        assert(bytes[k] == b as u8);
        assert((b as u8) as int == b);
        assert(b / 16 == hi && b % 16 == lo);
        assert(digit_char(hi) == text[2 * k]);
        assert(digit_char(lo) == text[2 * k + 1]);
        if i % 2 == 0 {
            assert(i == 2 * k);
        } else {
            assert(i == 2 * k + 1);
        }
    }
    assert(encoded(bytes) =~= text);
}

} // verus!
