//! Scalar-field elements as hexadecimal text.
//!
//! A public input is kept as text: an optional `0x`, then the big-endian
//! digits of a number. The proving engine takes the number as big-endian
//! bytes and reduces it by the order of the scalar field.

use crate::hexstr;
use crate::hexstr::{decoded, encoded, is_encoding};
use crate::curve::Curve;
use crate::ir::FieldElement;
use crate::points::{element_text, encode_element, is_canonical_text};
use vstd::prelude::*;
use vstd::string::*;

verus! {

/// The digits of an input: what follows one leading `0x`, or the whole text
/// where it has none.
pub open spec fn input_digits(text: Seq<char>) -> Seq<char> {
    if text.len() >= 2 && text[0] == '0' && text[1] == 'x' {
        text.skip(2)
    } else {
        text
    }
}

/// The big-endian bytes of the number that `text` holds, if it holds one:
/// at least one digit, of either case. An odd number of digits is read as if
/// a zero stood before them.
pub open spec fn input_bytes(text: Seq<char>) -> Option<Seq<u8>> {
    let digits = input_digits(text);
    let even = if digits.len() % 2 == 1 {
        seq!['0'] + digits
    } else {
        digits
    };
    if digits.len() > 0 && is_encoding(even) {
        Some(decoded(even))
    } else {
        None
    }
}

/// The number that `bytes` hold, most significant first.
pub open spec fn be_value(bytes: Seq<u8>) -> nat
    decreases bytes.len(),
{
    if bytes.len() == 0 {
        0
    } else {
        be_value(bytes.drop_last()) * 256 + bytes.last() as nat
    }
}

/// The number that `text` holds, if it holds one.
pub open spec fn input_value(text: Seq<char>) -> Option<nat> {
    match input_bytes(text) {
        Some(bytes) => Some(be_value(bytes)),
        None => None,
    }
}

/// Writes the scalar-field element whose little-endian frame is `le`, as the
/// proving engine writes it: `0x`, then two lower-case digits per byte, the
/// most significant first.
pub fn parse_fr(le: &[u8]) -> (text: String)
    ensures
        text@ == element_text(le@),
        is_canonical_text(text@),
{
    encode_element(le)
}

/// Reads the number that an input holds, as big-endian bytes.
pub fn to_fr(text: &str) -> (bytes: Option<Vec<u8>>)
    ensures
        match bytes {
            Some(b) => input_bytes(text@) == Some(b@),
            None => input_bytes(text@) is None,
        },
{
    let len: usize = text.unicode_len();
    let start: usize = if len >= 2 && text.get_char(0) == '0' && text.get_char(1) == 'x' {
        2
    } else {
        0
    };
    if start == len {
        return None;
    }
    let digits: &str = text.substring_char(start, len);
    assert(digits@ =~= input_digits(text@));
    if (len - start) % 2 == 1 {
        let even: String = String::from_str("0").concat(digits);
        proof {
            reveal_strlit("0");
            assert("0"@ =~= seq!['0']);
        }
        hexstr::decode(even.as_str())
    } else {
        hexstr::decode(digits)
    }
}

/// What is read from the text of a scalar-field element is the element's
/// bytes, most significant first.
pub proof fn lemma_fr_round_trip(le: Seq<u8>)
    requires
        le.len() > 0,
    ensures
        input_bytes(element_text(le)) == Some(le.reverse()),
{
    let text = element_text(le);
    hexstr::lemma_decode_encode(le.reverse());
    assert(text.skip(2) =~= encoded(le.reverse()));
}

/// `bytes` behind as many zero bytes as bring it to `n` bytes; `bytes`
/// itself where it has that many.
pub open spec fn padded(n: int, bytes: Seq<u8>) -> Seq<u8> {
    if bytes.len() < n {
        Seq::new((n - bytes.len()) as nat, |i: int| 0u8) + bytes
    } else {
        bytes
    }
}

/// The text of a number as a public input on `curve`: `0x`, then its bytes
/// on the width of the scalar field, two lower-case digits each.
pub open spec fn fr_text_of(curve: Curve, bytes: Seq<u8>) -> Seq<char> {
    seq!['0', 'x'] + encoded(padded(curve.scalar_size() as int, bytes))
}

/// Writes a number as a public input on `curve`.
pub fn fr_text(curve: Curve, value: &FieldElement) -> (text: String)
    ensures
        text@ == fr_text_of(curve, value@),
{
    let n: usize = curve.scalar_len();
    let mut bytes: Vec<u8> = Vec::new();
    let mut i: usize = value.bytes.len();
    while i < n
        invariant
            value.bytes@.len() <= i,
            value.bytes@.len() < n ==> i <= n,
            value.bytes@.len() >= n ==> i == value.bytes@.len(),
            bytes@.len() == i - value.bytes@.len(),
            forall|k: int| 0 <= k < bytes@.len() ==> bytes@[k] == 0u8,
        decreases n - i,
    {
        bytes.push(0u8);
        i = i + 1;
    }
    let ghost zeros = bytes@;
    let mut tail: Vec<u8> = vstd::slice::slice_to_vec(value.bytes.as_slice());
    bytes.append(&mut tail);
    proof {
        if value@.len() < n {
            assert(zeros =~= Seq::new((n - value@.len()) as nat, |i: int| 0u8));
        } else {
            assert(zeros =~= Seq::empty());
        }
        assert(bytes@ =~= padded(n as int, value@));
    }
    let digits: String = hexstr::encode(bytes.as_slice());
    let text: String = String::from_str("0x").concat(digits.as_str());
    proof {
        reveal_strlit("0x");
        assert("0x"@ =~= seq!['0', 'x']);
    }
    text
}

/// What is read from the text of a public input is the number that was
/// written, on the width of the scalar field.
pub proof fn lemma_fr_text_round_trip(curve: Curve, bytes: Seq<u8>)
    ensures
        input_bytes(fr_text_of(curve, bytes)) == Some(padded(curve.scalar_size() as int, bytes)),
{
    let all = padded(curve.scalar_size() as int, bytes);
    let text = fr_text_of(curve, bytes);
    hexstr::lemma_decode_encode(all);
    assert(text.skip(2) =~= encoded(all));
    assert(all.len() > 0);
}

/// Zero bytes before a number do not change it.
pub proof fn lemma_leading_zeros(zeros: Seq<u8>, bytes: Seq<u8>)
    requires
        forall|i: int| 0 <= i < zeros.len() ==> zeros[i] == 0u8,
    ensures
        be_value(zeros + bytes) == be_value(bytes),
    decreases bytes.len(),
{
    if bytes.len() == 0 {
        assert(zeros + bytes =~= zeros);
        lemma_zero_bytes(zeros);
    } else {
        assert((zeros + bytes).drop_last() =~= zeros + bytes.drop_last());
        lemma_leading_zeros(zeros, bytes.drop_last());
    }
}

/// Zero bytes hold the number zero.
proof fn lemma_zero_bytes(zeros: Seq<u8>)
    requires
        forall|i: int| 0 <= i < zeros.len() ==> zeros[i] == 0u8,
    ensures
        be_value(zeros) == 0,
    decreases zeros.len(),
{
    if zeros.len() > 0 {
        lemma_zero_bytes(zeros.drop_last());
    }
}

/// The text of a public input holds the number that was written: reading
/// gives back what writing was given, whatever its width.
pub proof fn lemma_fr_text_value(curve: Curve, bytes: Seq<u8>)
    ensures
        input_value(fr_text_of(curve, bytes)) == Some(be_value(bytes)),
{
    lemma_fr_text_round_trip(curve, bytes);
    let n = curve.scalar_size() as int;
    if bytes.len() < n {
        lemma_leading_zeros(Seq::new((n - bytes.len()) as nat, |i: int| 0u8), bytes);
    }
}

} // verus!
