//! Curve points as hexadecimal text, and their little-endian byte frames.
//!
//! A coordinate is kept as `0x` followed by the big-endian digits of a
//! base-field element. The proving engine reads and writes a coordinate as
//! the same bytes in little-endian order, and keeps two flag bits in the top
//! of a point's last byte. Every supported field leaves those bits clear, so
//! a coordinate whose most significant byte reaches `0x40` is no field
//! element and is refused.

use crate::curve::Curve;
use crate::hexstr;
use crate::hexstr::{decoded, encoded, is_encoding, is_lower_encoding};
use vstd::prelude::*;
use vstd::slice::slice_subrange;
use vstd::string::*;

verus! {

/// A point of the first group: its two coordinates.
#[derive(Clone, Debug, PartialEq, Eq)]
pub struct G1Affine(pub String, pub String);

/// An element of the quadratic extension: a pair of base-field elements.
#[derive(Clone, Debug, PartialEq, Eq)]
pub struct Fq2(pub String, pub String);

/// A point of the second group over a quadratic extension.
#[derive(Clone, Debug, PartialEq, Eq)]
pub struct G2Affine(pub Fq2, pub Fq2);

/// A point of the second group over the base field.
#[derive(Clone, Debug, PartialEq, Eq)]
pub struct G2AffineFq(pub String, pub String);

/// The smallest most-significant byte that carries a flag bit.
pub const FLAG_BITS: u8 = 0x40;

/// `le` is the little-endian frame of one field element of `n` bytes, with
/// both flag bits clear.
pub open spec fn is_element(n: int, le: Seq<u8>) -> bool {
    &&& n > 0
    &&& le.len() == n
    &&& le[n - 1] < FLAG_BITS
}

/// The text of a field element, from its little-endian frame.
pub open spec fn element_text(le: Seq<u8>) -> Seq<char> {
    seq!['0', 'x'] + encoded(le.reverse())
}

/// The little-endian frame of the field element of `n` bytes that `text`
/// holds, if it holds one: `0x`, then exactly `2 * n` digits.
pub open spec fn element_frame(n: int, text: Seq<char>) -> Option<Seq<u8>> {
    if text.len() == 2 + 2 * n && n > 0 && text[0] == '0' && text[1] == 'x' && is_encoding(
        text.skip(2),
    ) && decoded(text.skip(2))[0] < FLAG_BITS {
        Some(decoded(text.skip(2)).reverse())
    } else {
        None
    }
}

/// `text` is `0x` followed by lower-case digits only: the form in which this
/// library writes a field element.
pub open spec fn is_canonical_text(text: Seq<char>) -> bool {
    &&& text.len() >= 2
    &&& text[0] == '0'
    &&& text[1] == 'x'
    &&& is_lower_encoding(text.skip(2))
}

/// The bytes of `bytes` in opposite order.
pub fn reversed(bytes: &[u8]) -> (out: Vec<u8>)
    ensures
        out@ == bytes@.reverse(),
{
    let n: usize = bytes.len();
    let mut out: Vec<u8> = Vec::new();
    let mut i: usize = 0;
    while i < n
        invariant
            n == bytes@.len(),
            i <= n,
            out@.len() == i,
            forall|k: int| 0 <= k < i ==> out@[k] == bytes@[n - 1 - k],
        decreases n - i,
    {
        out.push(bytes[n - 1 - i]);
        i = i + 1;
    }
    assert(out@ =~= bytes@.reverse());
    out
}

/// Writes the field element whose little-endian frame is `le`.
pub fn encode_element(le: &[u8]) -> (text: String)
    ensures
        text@ == element_text(le@),
        is_canonical_text(text@),
{
    let be: Vec<u8> = reversed(le);
    let digits: String = hexstr::encode(be.as_slice());
    let text: String = String::from_str("0x").concat(digits.as_str());
    proof {
        reveal_strlit("0x");
        hexstr::lemma_decode_encode(be@);
        assert("0x"@ =~= seq!['0', 'x']);
        assert(text@ =~= element_text(le@));
        assert(text@.skip(2) =~= encoded(be@));
    }
    text
}

/// Reads a field element of `n` bytes from `text`, into its little-endian
/// frame. Digits of either case are read.
pub fn decode_element(n: usize, text: &str) -> (le: Option<Vec<u8>>)
    ensures
        match le {
            Some(v) => element_frame(n as int, text@) == Some(v@),
            None => element_frame(n as int, text@) is None,
        },
{
    let len: usize = text.unicode_len();
    if len < 2 || n == 0 {
        return None;
    }
    if text.get_char(0) != '0' || text.get_char(1) != 'x' {
        return None;
    }
    let digits: &str = text.substring_char(2, len);
    assert(digits@ == text@.skip(2));
    match hexstr::decode(digits) {
        None => None,
        Some(be) => {
            if be.len() != n || be[0] >= FLAG_BITS {
                None
            } else {
                Some(reversed(be.as_slice()))
            }
        },
    }
}

/// Reading what was written gives the frame back.
pub proof fn lemma_element_frame_of_text(n: int, le: Seq<u8>)
    requires
        is_element(n, le),
    ensures
        element_frame(n, element_text(le)) == Some(le),
        is_canonical_text(element_text(le)),
{
    let text = element_text(le);
    hexstr::lemma_decode_encode(le.reverse());
    assert(text.skip(2) =~= encoded(le.reverse()));
    assert(le.reverse().reverse() =~= le);
}

/// What is read from a text is the frame of a field element, and writing it
/// gives the text back where the text is in lower case.
pub proof fn lemma_element_text_of_frame(n: int, text: Seq<char>)
    requires
        element_frame(n, text) is Some,
    ensures
        is_element(n, element_frame(n, text).unwrap()),
        is_canonical_text(text) ==> element_text(element_frame(n, text).unwrap()) == text,
{
    let be = decoded(text.skip(2));
    let le = be.reverse();
    assert(le.reverse() =~= be);
    if is_canonical_text(text) {
        hexstr::lemma_encode_decode(text.skip(2));
        assert(element_text(le) =~= text);
    }
}

impl View for G1Affine {
    type V = (Seq<char>, Seq<char>);

    open spec fn view(&self) -> Self::V {
        (self.0@, self.1@)
    }
}

impl View for Fq2 {
    type V = (Seq<char>, Seq<char>);

    open spec fn view(&self) -> Self::V {
        (self.0@, self.1@)
    }
}

impl View for G2Affine {
    type V = ((Seq<char>, Seq<char>), (Seq<char>, Seq<char>));

    open spec fn view(&self) -> Self::V {
        (self.0@, self.1@)
    }
}

impl View for G2AffineFq {
    type V = (Seq<char>, Seq<char>);

    open spec fn view(&self) -> Self::V {
        (self.0@, self.1@)
    }
}

/// The two field elements of `n` bytes each that `frame` holds, as text, if
/// it holds exactly two.
pub open spec fn pair_of_frame(n: int, frame: Seq<u8>) -> Option<(Seq<char>, Seq<char>)> {
    if frame.len() == 2 * n && is_element(n, frame.subrange(0, n)) && is_element(
        n,
        frame.subrange(n, 2 * n),
    ) {
        Some(
            (
                element_text(frame.subrange(0, n)),
                element_text(frame.subrange(n, 2 * n)),
            ),
        )
    } else {
        None
    }
}

/// The four field elements of `n` bytes each that `frame` holds, as text, if
/// it holds exactly four.
pub open spec fn quad_of_frame(n: int, frame: Seq<u8>) -> Option<
    ((Seq<char>, Seq<char>), (Seq<char>, Seq<char>)),
> {
    if frame.len() == 4 * n {
        match (
            pair_of_frame(n, frame.subrange(0, 2 * n)),
            pair_of_frame(n, frame.subrange(2 * n, 4 * n)),
        ) {
            (Some(x), Some(y)) => Some((x, y)),
            _ => None,
        }
    } else {
        None
    }
}

/// The point of the first group of `curve` that `frame` holds.
pub open spec fn g1_of_frame(curve: Curve, frame: Seq<u8>) -> Option<(Seq<char>, Seq<char>)> {
    pair_of_frame(curve.base_size() as int, frame)
}

/// The point of the second group of `curve` that `frame` holds, where that
/// group lies over a quadratic extension. On a curve whose second group lies
/// over the base field, no frame holds such a point.
pub open spec fn g2_of_frame(curve: Curve, frame: Seq<u8>) -> Option<
    ((Seq<char>, Seq<char>), (Seq<char>, Seq<char>)),
> {
    if curve.has_base_field_g2() {
        None
    } else {
        quad_of_frame(curve.base_size() as int, frame)
    }
}

/// The point of the second group of `curve` that `frame` holds, where that
/// group lies over the base field. On any other curve, no frame holds such a
/// point.
pub open spec fn g2_fq_of_frame(curve: Curve, frame: Seq<u8>) -> Option<(Seq<char>, Seq<char>)> {
    if curve.has_base_field_g2() {
        pair_of_frame(curve.base_size() as int, frame)
    } else {
        None
    }
}

fn parse_pair(n: usize, frame: &[u8]) -> (pair: Option<(String, String)>)
    requires
        2 * n <= usize::MAX,
    ensures
        match pair {
            Some(p) => pair_of_frame(n as int, frame@) == Some((p.0@, p.1@)),
            None => pair_of_frame(n as int, frame@) is None,
        },
{
    if n == 0 || frame.len() != 2 * n {
        return None;
    }
    let x: &[u8] = slice_subrange(frame, 0, n);
    let y: &[u8] = slice_subrange(frame, n, 2 * n);
    if x[n - 1] >= FLAG_BITS || y[n - 1] >= FLAG_BITS {
        return None;
    }
    Some((encode_element(x), encode_element(y)))
}

/// Reads a point of the first group from the frame that the proving engine
/// wrote.
pub fn parse_g1(curve: Curve, frame: &[u8]) -> (point: Option<G1Affine>)
    ensures
        match point {
            Some(p) => g1_of_frame(curve, frame@) == Some(p@),
            None => g1_of_frame(curve, frame@) is None,
        },
{
    match parse_pair(curve.base_len(), frame) {
        Some((x, y)) => Some(G1Affine(x, y)),
        None => None,
    }
}

/// Reads a point of the second group from the frame that the proving engine
/// wrote, on a curve whose second group lies over a quadratic extension.
pub fn parse_g2(curve: Curve, frame: &[u8]) -> (point: Option<G2Affine>)
    ensures
        match point {
            Some(p) => g2_of_frame(curve, frame@) == Some(p@),
            None => g2_of_frame(curve, frame@) is None,
        },
{
    let n: usize = curve.base_len();
    if curve.g2_over_base_field() || frame.len() != 4 * n {
        return None;
    }
    let x: Option<(String, String)> = parse_pair(n, slice_subrange(frame, 0, 2 * n));
    let y: Option<(String, String)> = parse_pair(n, slice_subrange(frame, 2 * n, 4 * n));
    match (x, y) {
        (Some((x0, x1)), Some((y0, y1))) => Some(G2Affine(Fq2(x0, x1), Fq2(y0, y1))),
        _ => None,
    }
}

/// Reads a point of the second group from the frame that the proving engine
/// wrote, on a curve whose second group lies over the base field.
pub fn parse_g2_fq(curve: Curve, frame: &[u8]) -> (point: Option<G2AffineFq>)
    ensures
        match point {
            Some(p) => g2_fq_of_frame(curve, frame@) == Some(p@),
            None => g2_fq_of_frame(curve, frame@) is None,
        },
{
    if !curve.g2_over_base_field() {
        return None;
    }
    match parse_pair(curve.base_len(), frame) {
        Some((x, y)) => Some(G2AffineFq(x, y)),
        None => None,
    }
}

/// A point of the second group, in the encoding of its curve's family.
#[derive(Clone, Debug, PartialEq, Eq)]
pub enum G2Point {
    /// Over a quadratic extension.
    Quadratic(G2Affine),
    /// Over the base field.
    Base(G2AffineFq),
}

/// What a [`G2Point`] holds, as text.
pub enum G2Text {
    Quadratic(((Seq<char>, Seq<char>), (Seq<char>, Seq<char>))),
    Base((Seq<char>, Seq<char>)),
}

impl View for G2Point {
    type V = G2Text;

    open spec fn view(&self) -> G2Text {
        match self {
            G2Point::Quadratic(p) => G2Text::Quadratic(p@),
            G2Point::Base(p) => G2Text::Base(p@),
        }
    }
}

/// The point of the second group of `curve` that `frame` holds, in the
/// encoding of the curve's family.
pub open spec fn g2_point_of_frame(curve: Curve, frame: Seq<u8>) -> Option<G2Text> {
    if curve.has_base_field_g2() {
        match g2_fq_of_frame(curve, frame) {
            Some(p) => Some(G2Text::Base(p)),
            None => None,
        }
    } else {
        match g2_of_frame(curve, frame) {
            Some(p) => Some(G2Text::Quadratic(p)),
            None => None,
        }
    }
}

/// Reads a point of the second group from the frame that the proving engine
/// wrote, with the decoder of the curve's family.
pub fn parse_g2_point(curve: Curve, frame: &[u8]) -> (point: Option<G2Point>)
    ensures
        match point {
            Some(p) => g2_point_of_frame(curve, frame@) == Some(p@),
            None => g2_point_of_frame(curve, frame@) is None,
        },
{
    if curve.g2_over_base_field() {
        match parse_g2_fq(curve, frame) {
            Some(p) => Some(G2Point::Base(p)),
            None => None,
        }
    } else {
        match parse_g2(curve, frame) {
            Some(p) => Some(G2Point::Quadratic(p)),
            None => None,
        }
    }
}

} // verus!
