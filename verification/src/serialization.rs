//! Curve points into the byte frames that the proving engine reads, and the
//! laws that tie this direction to the reading of frames.

use crate::curve::Curve;
use crate::points::{
    decode_element, element_frame, g1_of_frame, g2_fq_of_frame, g2_of_frame, is_canonical_text,
    lemma_element_frame_of_text, lemma_element_text_of_frame, pair_of_frame, quad_of_frame,
    G1Affine, G2Affine, G2AffineFq, G2Point, G2Text, g2_point_of_frame,
};
use vstd::prelude::*;

verus! {

/// The frame of two field elements of `n` bytes each, if both texts hold one.
pub open spec fn pair_frame(n: int, x: Seq<char>, y: Seq<char>) -> Option<Seq<u8>> {
    match (element_frame(n, x), element_frame(n, y)) {
        (Some(a), Some(b)) => Some(a + b),
        _ => None,
    }
}

/// The frame of a point of the first group of `curve`.
pub open spec fn g1_frame(curve: Curve, point: (Seq<char>, Seq<char>)) -> Option<Seq<u8>> {
    pair_frame(curve.base_size() as int, point.0, point.1)
}

/// The frame of a point of the second group of `curve`, where that group
/// lies over a quadratic extension; none on any other curve.
pub open spec fn g2_frame(
    curve: Curve,
    point: ((Seq<char>, Seq<char>), (Seq<char>, Seq<char>)),
) -> Option<Seq<u8>> {
    let n = curve.base_size() as int;
    if curve.has_base_field_g2() {
        None
    } else {
        match (pair_frame(n, point.0.0, point.0.1), pair_frame(n, point.1.0, point.1.1)) {
            (Some(x), Some(y)) => Some(x + y),
            _ => None,
        }
    }
}

/// The frame of a point of the second group of `curve`, where that group
/// lies over the base field; none on any other curve.
pub open spec fn g2_fq_frame(curve: Curve, point: (Seq<char>, Seq<char>)) -> Option<Seq<u8>> {
    if curve.has_base_field_g2() {
        pair_frame(curve.base_size() as int, point.0, point.1)
    } else {
        None
    }
}

fn to_pair(n: usize, x: &str, y: &str) -> (frame: Option<Vec<u8>>)
    ensures
        match frame {
            Some(f) => pair_frame(n as int, x@, y@) == Some(f@),
            None => pair_frame(n as int, x@, y@) is None,
        },
{
    match (decode_element(n, x), decode_element(n, y)) {
        (Some(mut a), Some(mut b)) => {
            a.append(&mut b);
            Some(a)
        },
        _ => None,
    }
}

/// Frames a point of the first group for the proving engine.
pub fn to_g1(curve: Curve, point: &G1Affine) -> (frame: Option<Vec<u8>>)
    ensures
        match frame {
            Some(f) => g1_frame(curve, point@) == Some(f@),
            None => g1_frame(curve, point@) is None,
        },
{
    to_pair(curve.base_len(), point.0.as_str(), point.1.as_str())
}

/// Frames a point of the second group for the proving engine, on a curve
/// whose second group lies over a quadratic extension.
pub fn to_g2(curve: Curve, point: &G2Affine) -> (frame: Option<Vec<u8>>)
    ensures
        match frame {
            Some(f) => g2_frame(curve, point@) == Some(f@),
            None => g2_frame(curve, point@) is None,
        },
{
    if curve.g2_over_base_field() {
        return None;
    }
    let n: usize = curve.base_len();
    let x: Option<Vec<u8>> = to_pair(n, point.0.0.as_str(), point.0.1.as_str());
    let y: Option<Vec<u8>> = to_pair(n, point.1.0.as_str(), point.1.1.as_str());
    match (x, y) {
        (Some(mut a), Some(mut b)) => {
            a.append(&mut b);
            Some(a)
        },
        _ => None,
    }
}

/// Frames a point of the second group for the proving engine, on a curve
/// whose second group lies over the base field.
pub fn to_g2_fq(curve: Curve, point: &G2AffineFq) -> (frame: Option<Vec<u8>>)
    ensures
        match frame {
            Some(f) => g2_fq_frame(curve, point@) == Some(f@),
            None => g2_fq_frame(curve, point@) is None,
        },
{
    if !curve.g2_over_base_field() {
        return None;
    }
    to_pair(curve.base_len(), point.0.as_str(), point.1.as_str())
}

/// A pair that was read from a frame is framed as that frame again.
proof fn lemma_pair_frame_of_frame(n: int, frame: Seq<u8>)
    requires
        pair_of_frame(n, frame) is Some,
    ensures
        pair_frame(n, pair_of_frame(n, frame).unwrap().0, pair_of_frame(n, frame).unwrap().1)
            == Some(frame),
        is_canonical_text(pair_of_frame(n, frame).unwrap().0),
        is_canonical_text(pair_of_frame(n, frame).unwrap().1),
{
    let x = frame.subrange(0, n);
    let y = frame.subrange(n, 2 * n);
    lemma_element_frame_of_text(n, x);
    lemma_element_frame_of_text(n, y);
    assert(x + y =~= frame);
}

/// A frame that was made from two lower-case texts is read as those texts
/// again.
proof fn lemma_pair_of_frame_of_pair(n: int, x: Seq<char>, y: Seq<char>)
    requires
        pair_frame(n, x, y) is Some,
    ensures
        pair_frame(n, x, y).unwrap().len() == 2 * n,
        pair_of_frame(n, pair_frame(n, x, y).unwrap()) is Some,
        is_canonical_text(x) && is_canonical_text(y) ==> pair_of_frame(
            n,
            pair_frame(n, x, y).unwrap(),
        ) == Some((x, y)),
{
    let a = element_frame(n, x).unwrap();
    let b = element_frame(n, y).unwrap();
    lemma_element_text_of_frame(n, x);
    lemma_element_text_of_frame(n, y);
    let frame = a + b;
    assert(frame.subrange(0, n) =~= a);
    assert(frame.subrange(n, 2 * n) =~= b);
}

/// Reading the frame of a point of the first group gives the point back,
/// for every point written with lower-case digits.
pub proof fn lemma_g1_round_trip(curve: Curve, point: (Seq<char>, Seq<char>))
    requires
        g1_frame(curve, point) is Some,
        is_canonical_text(point.0),
        is_canonical_text(point.1),
    ensures
        g1_of_frame(curve, g1_frame(curve, point).unwrap()) == Some(point),
{
    lemma_pair_of_frame_of_pair(curve.base_size() as int, point.0, point.1);
}

/// Framing a point of the first group that was read from a frame gives the
/// frame back.
pub proof fn lemma_g1_frame_round_trip(curve: Curve, frame: Seq<u8>)
    requires
        g1_of_frame(curve, frame) is Some,
    ensures
        g1_frame(curve, g1_of_frame(curve, frame).unwrap()) == Some(frame),
{
    lemma_pair_frame_of_frame(curve.base_size() as int, frame);
}

/// Reading the frame of a point of the second group over a quadratic
/// extension gives the point back, for every point written with lower-case
/// digits.
pub proof fn lemma_g2_round_trip(
    curve: Curve,
    point: ((Seq<char>, Seq<char>), (Seq<char>, Seq<char>)),
)
    requires
        g2_frame(curve, point) is Some,
        is_canonical_text(point.0.0),
        is_canonical_text(point.0.1),
        is_canonical_text(point.1.0),
        is_canonical_text(point.1.1),
    ensures
        g2_of_frame(curve, g2_frame(curve, point).unwrap()) == Some(point),
{
    let n = curve.base_size() as int;
    lemma_pair_of_frame_of_pair(n, point.0.0, point.0.1);
    lemma_pair_of_frame_of_pair(n, point.1.0, point.1.1);
    let x = pair_frame(n, point.0.0, point.0.1).unwrap();
    let y = pair_frame(n, point.1.0, point.1.1).unwrap();
    let frame = x + y;
    assert(frame.subrange(0, 2 * n) =~= x);
    assert(frame.subrange(2 * n, 4 * n) =~= y);
}

/// Framing a point of the second group over a quadratic extension that was
/// read from a frame gives the frame back.
pub proof fn lemma_g2_frame_round_trip(curve: Curve, frame: Seq<u8>)
    requires
        g2_of_frame(curve, frame) is Some,
    ensures
        g2_frame(curve, g2_of_frame(curve, frame).unwrap()) == Some(frame),
{
    let n = curve.base_size() as int;
    let x = frame.subrange(0, 2 * n);
    let y = frame.subrange(2 * n, 4 * n);
    lemma_pair_frame_of_frame(n, x);
    lemma_pair_frame_of_frame(n, y);
    assert(x + y =~= frame);
}

/// Reading the frame of a point of the second group over the base field
/// gives the point back, for every point written with lower-case digits.
pub proof fn lemma_g2_fq_round_trip(curve: Curve, point: (Seq<char>, Seq<char>))
    requires
        g2_fq_frame(curve, point) is Some,
        is_canonical_text(point.0),
        is_canonical_text(point.1),
    ensures
        g2_fq_of_frame(curve, g2_fq_frame(curve, point).unwrap()) == Some(point),
{
    lemma_pair_of_frame_of_pair(curve.base_size() as int, point.0, point.1);
}

/// Framing a point of the second group over the base field that was read
/// from a frame gives the frame back.
pub proof fn lemma_g2_fq_frame_round_trip(curve: Curve, frame: Seq<u8>)
    requires
        g2_fq_of_frame(curve, frame) is Some,
    ensures
        g2_fq_frame(curve, g2_fq_of_frame(curve, frame).unwrap()) == Some(frame),
{
    lemma_pair_frame_of_frame(curve.base_size() as int, frame);
}

/// The frame of a point over the base field is never read as a point over a
/// quadratic extension on its curve, and the reverse: the two encodings do
/// not mix, whatever the bytes are.
pub proof fn lemma_encodings_do_not_mix(curve: Curve, frame: Seq<u8>)
    ensures
        g2_fq_of_frame(curve, frame) is Some ==> g2_of_frame(curve, frame) is None,
        g2_of_frame(curve, frame) is Some ==> g2_fq_of_frame(curve, frame) is None,
        curve.has_base_field_g2() ==> g2_of_frame(curve, frame) is None,
        !curve.has_base_field_g2() ==> g2_fq_of_frame(curve, frame) is None,
{
}

/// The frame of a point of the second group of `curve`: none where the
/// point is not in the encoding of the curve's family.
pub open spec fn g2_point_frame(curve: Curve, point: G2Text) -> Option<Seq<u8>> {
    match point {
        G2Text::Quadratic(p) => g2_frame(curve, p),
        G2Text::Base(p) => g2_fq_frame(curve, p),
    }
}

/// Frames a point of the second group for the proving engine.
pub fn to_g2_point(curve: Curve, point: &G2Point) -> (frame: Option<Vec<u8>>)
    ensures
        match frame {
            Some(f) => g2_point_frame(curve, point@) == Some(f@),
            None => g2_point_frame(curve, point@) is None,
        },
{
    match point {
        G2Point::Quadratic(p) => to_g2(curve, p),
        G2Point::Base(p) => to_g2_fq(curve, p),
    }
}

/// Framing a point of the second group that was read from a frame gives the
/// frame back, in either family.
pub proof fn lemma_g2_point_frame_round_trip(curve: Curve, frame: Seq<u8>)
    requires
        g2_point_of_frame(curve, frame) is Some,
    ensures
        g2_point_frame(curve, g2_point_of_frame(curve, frame).unwrap()) == Some(frame),
{
    if curve.has_base_field_g2() {
        lemma_g2_fq_frame_round_trip(curve, frame);
    } else {
        lemma_g2_frame_round_trip(curve, frame);
    }
}

/// Both coordinates of a point are written in lower case.
pub open spec fn is_canonical_pair(point: (Seq<char>, Seq<char>)) -> bool {
    is_canonical_text(point.0) && is_canonical_text(point.1)
}

/// Every coordinate of a point of the second group is written in lower
/// case.
pub open spec fn is_canonical_g2(point: G2Text) -> bool {
    match point {
        G2Text::Quadratic(p) => is_canonical_pair(p.0) && is_canonical_pair(p.1),
        G2Text::Base(p) => is_canonical_pair(p),
    }
}

/// Reading the frame of a point of the second group gives the point back, in
/// either family, for every point written with lower-case digits.
pub proof fn lemma_g2_point_round_trip(curve: Curve, point: G2Text)
    requires
        g2_point_frame(curve, point) is Some,
        is_canonical_g2(point),
    ensures
        g2_point_of_frame(curve, g2_point_frame(curve, point).unwrap()) == Some(point),
{
    match point {
        G2Text::Quadratic(p) => {
            lemma_g2_round_trip(curve, p);
        },
        G2Text::Base(p) => {
            lemma_g2_fq_round_trip(curve, p);
        },
    }
}

/// The frame of a point has the length of its group.
pub proof fn lemma_frame_lengths(curve: Curve, g1: (Seq<char>, Seq<char>), g2: G2Text)
    ensures
        g1_frame(curve, g1) is Some ==> g1_frame(curve, g1).unwrap().len() == curve.g1_size(),
        g2_point_frame(curve, g2) is Some ==> g2_point_frame(curve, g2).unwrap().len()
            == curve.g2_size(),
{
    let n = curve.base_size() as int;
    if g1_frame(curve, g1) is Some {
        lemma_pair_of_frame_of_pair(n, g1.0, g1.1);
    }
    if g2_point_frame(curve, g2) is Some {
        match g2 {
            G2Text::Quadratic(p) => {
                lemma_pair_of_frame_of_pair(n, p.0.0, p.0.1);
                lemma_pair_of_frame_of_pair(n, p.1.0, p.1.1);
            },
            G2Text::Base(p) => {
                lemma_pair_of_frame_of_pair(n, p.0, p.1);
            },
        }
    }
}

} // verus!
