//! The keys and proofs of the Groth–Maller scheme, and their byte frames.
//!
//! A verification key is framed as its five points in the order `h`,
//! `g_alpha`, `h_beta`, `g_gamma`, `h_gamma`, then the number of query
//! points as eight little-endian bytes, then the query points. A proof is
//! framed as `a`, `b`, `c`.

use crate::curve::Curve;
use crate::points::{
    g1_of_frame, g2_point_of_frame, parse_g1, parse_g2_point, G1Affine, G2Point, G2Text,
};
use crate::serialization::{
    g1_frame, g2_point_frame, is_canonical_g2, is_canonical_pair, lemma_frame_lengths,
    lemma_g1_frame_round_trip, lemma_g1_round_trip, lemma_g2_point_frame_round_trip,
    lemma_g2_point_round_trip, to_g1, to_g2_point,
};
use vstd::bytes::{
    spec_u64_from_le_bytes, spec_u64_to_le_bytes, u64_from_le_bytes, u64_to_le_bytes,
};
use vstd::prelude::*;
use vstd::slice::slice_subrange;

verus! {

/// Bytes of the count that precedes the query points.
pub const COUNT_LEN: usize = 8;

/// The key against which proofs of one circuit are checked. `query` holds
/// one point more than the circuit has public inputs.
#[derive(Clone, Debug, PartialEq, Eq)]
pub struct VerificationKey {
    pub h: G2Point,
    pub g_alpha: G1Affine,
    pub h_beta: G2Point,
    pub g_gamma: G1Affine,
    pub h_gamma: G2Point,
    pub query: Vec<G1Affine>,
}

/// What a [`VerificationKey`] holds, as text.
pub struct VerificationKeyText {
    pub h: G2Text,
    pub g_alpha: (Seq<char>, Seq<char>),
    pub h_beta: G2Text,
    pub g_gamma: (Seq<char>, Seq<char>),
    pub h_gamma: G2Text,
    pub query: Seq<(Seq<char>, Seq<char>)>,
}

impl View for VerificationKey {
    type V = VerificationKeyText;

    open spec fn view(&self) -> VerificationKeyText {
        VerificationKeyText {
            h: self.h@,
            g_alpha: self.g_alpha@,
            h_beta: self.h_beta@,
            g_gamma: self.g_gamma@,
            h_gamma: self.h_gamma@,
            query: Seq::new(self.query@.len(), |i: int| self.query@[i]@),
        }
    }
}

/// The three points of a proof.
#[derive(Clone, Debug, PartialEq, Eq)]
pub struct ProofPoints {
    pub a: G1Affine,
    pub b: G2Point,
    pub c: G1Affine,
}

/// What [`ProofPoints`] hold, as text.
pub struct ProofPointsText {
    pub a: (Seq<char>, Seq<char>),
    pub b: G2Text,
    pub c: (Seq<char>, Seq<char>),
}

impl View for ProofPoints {
    type V = ProofPointsText;

    open spec fn view(&self) -> ProofPointsText {
        ProofPointsText { a: self.a@, b: self.b@, c: self.c@ }
    }
}

/// A proof together with the public inputs it was made for, each input a
/// scalar-field element in hexadecimal text.
#[derive(Clone, Debug, PartialEq, Eq)]
pub struct Proof {
    pub proof: ProofPoints,
    pub inputs: Vec<String>,
}

impl Proof {
    /// The public inputs, as text.
    pub open spec fn inputs_text(&self) -> Seq<Seq<char>> {
        Seq::new(self.inputs@.len(), |i: int| self.inputs@[i]@)
    }

    /// The proof with the inputs it was made for.
    pub fn new(proof: ProofPoints, inputs: Vec<String>) -> (out: Proof)
        ensures
            out.proof == proof,
            out.inputs == inputs,
    {
        Proof { proof, inputs }
    }
}

/// The two keys that one setup yields. The proving key is kept as the bytes
/// that the proving engine wrote, and is never looked into.
#[derive(Clone, Debug, PartialEq, Eq)]
pub struct SetupKeypair {
    pub vk: VerificationKey,
    pub pk: Vec<u8>,
}

impl SetupKeypair {
    /// The pair of the two keys of one setup.
    pub fn new(vk: VerificationKey, pk: Vec<u8>) -> (out: SetupKeypair)
        ensures
            out.vk == vk,
            out.pk == pk,
    {
        SetupKeypair { vk, pk }
    }
}

/// The frames of `points`, one after the other.
pub open spec fn points_frame(curve: Curve, points: Seq<(Seq<char>, Seq<char>)>) -> Option<
    Seq<u8>,
>
    decreases points.len(),
{
    if points.len() == 0 {
        Some(Seq::empty())
    } else {
        match (points_frame(curve, points.drop_last()), g1_frame(curve, points.last())) {
            (Some(head), Some(tail)) => Some(head + tail),
            _ => None,
        }
    }
}

/// The frame of a verification key on `curve`, if every point of it has one.
pub open spec fn key_frame(curve: Curve, key: VerificationKeyText) -> Option<Seq<u8>> {
    match (
        g2_point_frame(curve, key.h),
        g1_frame(curve, key.g_alpha),
        g2_point_frame(curve, key.h_beta),
        g1_frame(curve, key.g_gamma),
        g2_point_frame(curve, key.h_gamma),
        points_frame(curve, key.query),
    ) {
        (Some(h), Some(g_alpha), Some(h_beta), Some(g_gamma), Some(h_gamma), Some(query)) => {
            if key.query.len() <= u64::MAX {
                Some(
                    h + g_alpha + h_beta + g_gamma + h_gamma + spec_u64_to_le_bytes(
                        key.query.len() as u64,
                    ) + query,
                )
            } else {
                None
            }
        },
        _ => None,
    }
}

/// The frame of the points of a proof on `curve`, if each has one.
pub open spec fn proof_frame(curve: Curve, proof: ProofPointsText) -> Option<Seq<u8>> {
    match (g1_frame(curve, proof.a), g2_point_frame(curve, proof.b), g1_frame(curve, proof.c)) {
        (Some(a), Some(b), Some(c)) => Some(a + b + c),
        _ => None,
    }
}

fn to_points(curve: Curve, points: &Vec<G1Affine>) -> (frame: Option<Vec<u8>>)
    ensures
        match frame {
            Some(f) => points_frame(curve, Seq::new(points@.len(), |i: int| points@[i]@))
                == Some(f@),
            None => points_frame(curve, Seq::new(points@.len(), |i: int| points@[i]@)) is None,
        },
{
    let ghost text = Seq::new(points@.len(), |i: int| points@[i]@);
    let mut out: Vec<u8> = Vec::new();
    let mut i: usize = 0;
    assert(text.take(0) =~= Seq::empty());
    while i < points.len()
        invariant
            i <= points@.len(),
            text == Seq::new(points@.len(), |i: int| points@[i]@),
            points_frame(curve, text.take(i as int)) == Some(out@),
        decreases points@.len() - i,
    {
        proof {
            assert(text.take(i + 1).drop_last() =~= text.take(i as int));
            assert(text.take(i + 1).last() == points@[i as int]@);
        }
        match to_g1(curve, &points[i]) {
            Some(mut f) => {
                out.append(&mut f);
            },
            None => {
                proof {
                    lemma_points_frame_prefix(curve, text, i + 1);
                }
                return None;
            },
        }
        i = i + 1;
    }
    assert(text.take(i as int) =~= text);
    Some(out)
}

/// Where a prefix of a sequence of points has no frame, the sequence has
/// none.
proof fn lemma_points_frame_prefix(
    curve: Curve,
    points: Seq<(Seq<char>, Seq<char>)>,
    k: int,
)
    requires
        0 <= k <= points.len(),
        points_frame(curve, points.take(k)) is None,
    ensures
        points_frame(curve, points) is None,
    decreases points.len() - k,
{
    if k < points.len() {
        assert(points.take(k + 1).drop_last() =~= points.take(k));
        lemma_points_frame_prefix(curve, points, k + 1);
    } else {
        assert(points.take(k) =~= points);
    }
}

impl VerificationKey {
    /// Frames the key for the proving engine.
    pub fn to_frame(&self, curve: Curve) -> (frame: Option<Vec<u8>>)
        ensures
            match frame {
                Some(f) => key_frame(curve, self@) == Some(f@),
                None => key_frame(curve, self@) is None,
            },
    {
        let h: Option<Vec<u8>> = to_g2_point(curve, &self.h);
        let g_alpha: Option<Vec<u8>> = to_g1(curve, &self.g_alpha);
        let h_beta: Option<Vec<u8>> = to_g2_point(curve, &self.h_beta);
        let g_gamma: Option<Vec<u8>> = to_g1(curve, &self.g_gamma);
        let h_gamma: Option<Vec<u8>> = to_g2_point(curve, &self.h_gamma);
        let query: Option<Vec<u8>> = to_points(curve, &self.query);
        match (h, g_alpha, h_beta, g_gamma, h_gamma, query) {
            (Some(mut out), Some(mut g_alpha), Some(mut h_beta), Some(mut g_gamma), Some(
                mut h_gamma,
            ), Some(mut query)) => {
                let mut count: Vec<u8> = u64_to_le_bytes(self.query.len() as u64);
                out.append(&mut g_alpha);
                out.append(&mut h_beta);
                out.append(&mut g_gamma);
                out.append(&mut h_gamma);
                out.append(&mut count);
                out.append(&mut query);
                Some(out)
            },
            _ => None,
        }
    }
}

impl ProofPoints {
    /// Frames the points for the proving engine.
    pub fn to_frame(&self, curve: Curve) -> (frame: Option<Vec<u8>>)
        ensures
            match frame {
                Some(f) => proof_frame(curve, self@) == Some(f@),
                None => proof_frame(curve, self@) is None,
            },
    {
        let a: Option<Vec<u8>> = to_g1(curve, &self.a);
        let b: Option<Vec<u8>> = to_g2_point(curve, &self.b);
        let c: Option<Vec<u8>> = to_g1(curve, &self.c);
        match (a, b, c) {
            (Some(mut out), Some(mut b), Some(mut c)) => {
                out.append(&mut b);
                out.append(&mut c);
                Some(out)
            },
            _ => None,
        }
    }
}

/// The `i`-th block of `size` bytes of `frame` behind its first `start`
/// bytes.
pub open spec fn block(frame: Seq<u8>, start: int, size: int, i: int) -> Seq<u8> {
    frame.subrange(start + i * size, start + (i + 1) * size)
}

/// Bytes of a key frame before its query points.
pub open spec fn key_head_size(curve: Curve) -> int {
    3 * curve.g2_size() + 2 * curve.g1_size() + COUNT_LEN
}

/// The number of query points that a key frame announces.
pub open spec fn key_frame_count(curve: Curve, frame: Seq<u8>) -> int {
    spec_u64_from_le_bytes(
        frame.subrange(key_head_size(curve) - COUNT_LEN, key_head_size(curve)),
    ) as int
}

/// `frame` has the length of a key frame: the head, then as many query
/// points as the head announces.
pub open spec fn is_key_layout(curve: Curve, frame: Seq<u8>) -> bool {
    &&& frame.len() >= key_head_size(curve)
    &&& frame.len() == key_head_size(curve) + key_frame_count(curve, frame) * curve.g1_size()
}

/// The `i`-th query point of a key frame.
pub open spec fn query_block(curve: Curve, frame: Seq<u8>, i: int) -> Seq<u8> {
    block(frame, key_head_size(curve), curve.g1_size() as int, i)
}

/// The verification key that `frame` holds, if it holds one.
pub open spec fn key_of_frame(curve: Curve, frame: Seq<u8>) -> Option<VerificationKeyText> {
    let g1 = curve.g1_size() as int;
    let g2 = curve.g2_size() as int;
    if !is_key_layout(curve, frame) {
        None
    } else {
        match (
            g2_point_of_frame(curve, frame.subrange(0, g2)),
            g1_of_frame(curve, frame.subrange(g2, g2 + g1)),
            g2_point_of_frame(curve, frame.subrange(g2 + g1, 2 * g2 + g1)),
            g1_of_frame(curve, frame.subrange(2 * g2 + g1, 2 * g2 + 2 * g1)),
            g2_point_of_frame(curve, frame.subrange(2 * g2 + 2 * g1, 3 * g2 + 2 * g1)),
        ) {
            (Some(h), Some(g_alpha), Some(h_beta), Some(g_gamma), Some(h_gamma)) => {
                if forall|i: int|
                    0 <= i < key_frame_count(curve, frame) ==> g1_of_frame(
                        curve,
                        #[trigger] query_block(curve, frame, i),
                    ) is Some {
                    Some(
                        VerificationKeyText {
                            h,
                            g_alpha,
                            h_beta,
                            g_gamma,
                            h_gamma,
                            query: Seq::new(
                                key_frame_count(curve, frame) as nat,
                                |i: int| g1_of_frame(curve, query_block(curve, frame, i)).unwrap(),
                            ),
                        },
                    )
                } else {
                    None
                }
            },
            _ => None,
        }
    }
}

/// The points of a proof that `frame` holds, if it holds them.
pub open spec fn proof_of_frame(curve: Curve, frame: Seq<u8>) -> Option<ProofPointsText> {
    let g1 = curve.g1_size() as int;
    let g2 = curve.g2_size() as int;
    if frame.len() != 2 * g1 + g2 {
        None
    } else {
        match (
            g1_of_frame(curve, frame.subrange(0, g1)),
            g2_point_of_frame(curve, frame.subrange(g1, g1 + g2)),
            g1_of_frame(curve, frame.subrange(g1 + g2, 2 * g1 + g2)),
        ) {
            (Some(a), Some(b), Some(c)) => Some(ProofPointsText { a, b, c }),
            _ => None,
        }
    }
}

/// Tells whether `frame` has the length of a key frame, and how many query
/// points it announces.
pub fn key_layout(curve: Curve, frame: &[u8]) -> (count: Option<usize>)
    ensures
        match count {
            Some(n) => is_key_layout(curve, frame@) && n == key_frame_count(curve, frame@),
            None => !is_key_layout(curve, frame@),
        },
{
    let g1: usize = curve.g1_len();
    let head: usize = 3 * curve.g2_len() + 2 * g1 + COUNT_LEN;
    if frame.len() < head {
        return None;
    }
    let announced: u64 = u64_from_le_bytes(slice_subrange(frame, head - COUNT_LEN, head));
    let rest: usize = frame.len() - head;
    let n: usize = rest / g1;
    if rest % g1 != 0 || n as u64 != announced {
        proof {
            let k = key_frame_count(curve, frame@);
            let g = g1 as int;
            if rest as int == k * g {
                assert(k * g % g == 0 && k * g / g == k) by (nonlinear_arith)
                    requires
                        g > 0,
                ;
            }
        }
        return None;
    }
    assert(rest as int == (n as int) * (g1 as int)) by (nonlinear_arith)
        requires
            g1 > 0,
            n as int == (rest as int) / (g1 as int),
            (rest as int) % (g1 as int) == 0,
    ;
    Some(n)
}

impl VerificationKey {
    /// Reads the key from the frame that the proving engine wrote.
    pub fn from_frame(curve: Curve, frame: &[u8]) -> (key: Option<VerificationKey>)
        ensures
            match key {
                Some(k) => key_of_frame(curve, frame@) == Some(k@),
                None => key_of_frame(curve, frame@) is None,
            },
    {
        let g1: usize = curve.g1_len();
        let g2: usize = curve.g2_len();
        let head: usize = 3 * g2 + 2 * g1 + COUNT_LEN;
        let count: usize = match key_layout(curve, frame) {
            Some(n) => n,
            None => {
                return None;
            },
        };
        let h: Option<G2Point> = parse_g2_point(curve, slice_subrange(frame, 0, g2));
        let g_alpha: Option<G1Affine> = parse_g1(curve, slice_subrange(frame, g2, g2 + g1));
        let h_beta: Option<G2Point> = parse_g2_point(
            curve,
            slice_subrange(frame, g2 + g1, 2 * g2 + g1),
        );
        let g_gamma: Option<G1Affine> = parse_g1(
            curve,
            slice_subrange(frame, 2 * g2 + g1, 2 * g2 + 2 * g1),
        );
        let h_gamma: Option<G2Point> = parse_g2_point(
            curve,
            slice_subrange(frame, 2 * g2 + 2 * g1, 3 * g2 + 2 * g1),
        );
        let (h, g_alpha, h_beta, g_gamma, h_gamma) = match (h, g_alpha, h_beta, g_gamma, h_gamma) {
            (Some(h), Some(g_alpha), Some(h_beta), Some(g_gamma), Some(h_gamma)) => (
                h,
                g_alpha,
                h_beta,
                g_gamma,
                h_gamma,
            ),
            _ => {
                return None;
            },
        };
        let mut query: Vec<G1Affine> = Vec::new();
        let mut i: usize = 0;
        let mut at: usize = head;
        let total: usize = frame.len();
        while i < count
            invariant
                i <= count,
                total == frame@.len(),
                g1 == curve.g1_size(),
                head == key_head_size(curve),
                is_key_layout(curve, frame@),
                count == key_frame_count(curve, frame@),
                at as int == head + (i as int) * (g1 as int),
                query@.len() == i,
                forall|k: int|
                    0 <= k < i ==> g1_of_frame(curve, #[trigger] query_block(curve, frame@, k))
                        == Some(query@[k]@),
            decreases count - i,
        {
            assert(at + g1 <= frame@.len() && at as int + (g1 as int) == head + (i as int + 1) * (
            g1 as int)) by (nonlinear_arith)
                requires
                    at as int == head + (i as int) * (g1 as int),
                    i < count,
                    frame@.len() == head + (count as int) * (g1 as int),
                    g1 > 0,
            ;
            let ghost here = query_block(curve, frame@, i as int);
            match parse_g1(curve, slice_subrange(frame, at, at + g1)) {
                Some(p) => {
                    query.push(p);
                },
                None => {
                    assert(g1_of_frame(curve, here) is None);
                    return None;
                },
            }
            at = at + g1;
            i = i + 1;
        }
        let key = VerificationKey { h, g_alpha, h_beta, g_gamma, h_gamma, query };
        proof {
            let expected = key_of_frame(curve, frame@);
            assert(expected is Some);
            assert(expected.unwrap().query =~= key@.query);
        }
        Some(key)
    }
}

impl ProofPoints {
    /// Reads the points from the frame that the proving engine wrote.
    pub fn from_frame(curve: Curve, frame: &[u8]) -> (points: Option<ProofPoints>)
        ensures
            match points {
                Some(p) => proof_of_frame(curve, frame@) == Some(p@),
                None => proof_of_frame(curve, frame@) is None,
            },
    {
        let g1: usize = curve.g1_len();
        let g2: usize = curve.g2_len();
        if frame.len() != 2 * g1 + g2 {
            return None;
        }
        let a: Option<G1Affine> = parse_g1(curve, slice_subrange(frame, 0, g1));
        let b: Option<G2Point> = parse_g2_point(curve, slice_subrange(frame, g1, g1 + g2));
        let c: Option<G1Affine> = parse_g1(curve, slice_subrange(frame, g1 + g2, 2 * g1 + g2));
        match (a, b, c) {
            (Some(a), Some(b), Some(c)) => Some(ProofPoints { a, b, c }),
            _ => None,
        }
    }
}

/// Framing the points of a proof that were read from a frame gives the frame
/// back.
pub proof fn lemma_proof_frame_round_trip(curve: Curve, frame: Seq<u8>)
    requires
        proof_of_frame(curve, frame) is Some,
    ensures
        proof_frame(curve, proof_of_frame(curve, frame).unwrap()) == Some(frame),
{
    let g1 = curve.g1_size() as int;
    let g2 = curve.g2_size() as int;
    let a = frame.subrange(0, g1);
    let b = frame.subrange(g1, g1 + g2);
    let c = frame.subrange(g1 + g2, 2 * g1 + g2);
    lemma_g1_frame_round_trip(curve, a);
    lemma_g2_point_frame_round_trip(curve, b);
    lemma_g1_frame_round_trip(curve, c);
    assert(a + b + c =~= frame);
}

/// The points that are read from `k` blocks in a row are framed as those
/// blocks.
proof fn lemma_blocks_frame(curve: Curve, frame: Seq<u8>, start: int, k: int)
    requires
        0 <= start,
        0 <= k,
        start + k * curve.g1_size() <= frame.len(),
        forall|i: int|
            0 <= i < k ==> g1_of_frame(
                curve,
                #[trigger] block(frame, start, curve.g1_size() as int, i),
            ) is Some,
    ensures
        points_frame(
            curve,
            Seq::new(
                k as nat,
                |i: int|
                    g1_of_frame(curve, block(frame, start, curve.g1_size() as int, i)).unwrap(),
            ),
        ) == Some(frame.subrange(start, start + k * curve.g1_size())),
    decreases k,
{
    let g1 = curve.g1_size() as int;
    let points = Seq::new(
        k as nat,
        |i: int| g1_of_frame(curve, block(frame, start, g1, i)).unwrap(),
    );
    if k == 0 {
        assert(0 * g1 == 0);
        assert(frame.subrange(start, start + 0 * g1) =~= Seq::empty());
    } else {
        let before = (k - 1) * g1;
        let here = k * g1;
        assert(before >= 0 && here == before + g1 && (k - 1 + 1) * g1 == here)
            by (nonlinear_arith)
            requires
                k >= 1,
                g1 >= 0,
                before == (k - 1) * g1,
                here == k * g1,
        ;
        lemma_blocks_frame(curve, frame, start, k - 1);
        let fewer = Seq::new(
            (k - 1) as nat,
            |i: int| g1_of_frame(curve, block(frame, start, g1, i)).unwrap(),
        );
        assert(points.drop_last() =~= fewer);
        let last = block(frame, start, g1, k - 1);
        assert(last == frame.subrange(start + before, start + here));
        assert(g1_of_frame(curve, last) is Some);
        assert(points.last() == g1_of_frame(curve, last).unwrap());
        lemma_g1_frame_round_trip(curve, last);
        lemma_subrange_join(frame, start, start + before, start + here);
    }
}

/// Two pieces of a sequence that meet make up the piece that spans both.
proof fn lemma_subrange_join(s: Seq<u8>, a: int, b: int, c: int)
    requires
        0 <= a <= b <= c <= s.len(),
    ensures
        s.subrange(a, b) + s.subrange(b, c) == s.subrange(a, c),
{
    assert(s.subrange(a, b) + s.subrange(b, c) =~= s.subrange(a, c));
}

/// The five points before the query of a key frame are framed as the bytes
/// they were read from.
proof fn lemma_key_head_round_trip(curve: Curve, frame: Seq<u8>)
    requires
        key_of_frame(curve, frame) is Some,
    ensures
        ({
            let g1 = curve.g1_size() as int;
            let g2 = curve.g2_size() as int;
            let key = key_of_frame(curve, frame).unwrap();
            &&& g2_point_frame(curve, key.h) == Some(frame.subrange(0, g2))
            &&& g1_frame(curve, key.g_alpha) == Some(frame.subrange(g2, g2 + g1))
            &&& g2_point_frame(curve, key.h_beta) == Some(frame.subrange(g2 + g1, 2 * g2 + g1))
            &&& g1_frame(curve, key.g_gamma) == Some(
                frame.subrange(2 * g2 + g1, 2 * g2 + 2 * g1),
            )
            &&& g2_point_frame(curve, key.h_gamma) == Some(
                frame.subrange(2 * g2 + 2 * g1, 3 * g2 + 2 * g1),
            )
        }),
{
    let g1 = curve.g1_size() as int;
    let g2 = curve.g2_size() as int;
    lemma_g2_point_frame_round_trip(curve, frame.subrange(0, g2));
    lemma_g1_frame_round_trip(curve, frame.subrange(g2, g2 + g1));
    lemma_g2_point_frame_round_trip(curve, frame.subrange(g2 + g1, 2 * g2 + g1));
    lemma_g1_frame_round_trip(curve, frame.subrange(2 * g2 + g1, 2 * g2 + 2 * g1));
    lemma_g2_point_frame_round_trip(curve, frame.subrange(2 * g2 + 2 * g1, 3 * g2 + 2 * g1));
}

/// The query points of a key frame are framed as the bytes they were read
/// from.
proof fn lemma_key_query_round_trip(curve: Curve, frame: Seq<u8>)
    requires
        key_of_frame(curve, frame) is Some,
    ensures
        key_of_frame(curve, frame).unwrap().query.len() == key_frame_count(curve, frame),
        points_frame(curve, key_of_frame(curve, frame).unwrap().query) == Some(
            frame.subrange(key_head_size(curve), frame.len() as int),
        ),
{
    let head = key_head_size(curve);
    let g1 = curve.g1_size() as int;
    let count = key_frame_count(curve, frame);
    assert forall|i: int| 0 <= i < count implies g1_of_frame(
        curve,
        #[trigger] block(frame, head, g1, i),
    ) is Some by {
        assert(block(frame, head, g1, i) == query_block(curve, frame, i));
    }
    lemma_blocks_frame(curve, frame, head, count);
    let read = Seq::new(
        count as nat,
        |i: int| g1_of_frame(curve, block(frame, head, g1, i)).unwrap(),
    );
    assert(read =~= key_of_frame(curve, frame).unwrap().query);
}

/// Framing a key that was read from a frame gives the frame back: the
/// proving engine is handed the key as it wrote it.
pub proof fn lemma_key_frame_round_trip(curve: Curve, frame: Seq<u8>)
    requires
        key_of_frame(curve, frame) is Some,
    ensures
        key_frame(curve, key_of_frame(curve, frame).unwrap()) == Some(frame),
{
    let g1 = curve.g1_size() as int;
    let g2 = curve.g2_size() as int;
    let head = key_head_size(curve);
    let announced = frame.subrange(head - COUNT_LEN, head);
    lemma_key_head_round_trip(curve, frame);
    lemma_key_query_round_trip(curve, frame);
    vstd::bytes::lemma_auto_spec_u64_to_from_le_bytes();
    assert(spec_u64_to_le_bytes(spec_u64_from_le_bytes(announced)) == announced);
    lemma_subrange_join(frame, 0, g2, g2 + g1);
    lemma_subrange_join(frame, 0, g2 + g1, 2 * g2 + g1);
    lemma_subrange_join(frame, 0, 2 * g2 + g1, 2 * g2 + 2 * g1);
    lemma_subrange_join(frame, 0, 2 * g2 + 2 * g1, 3 * g2 + 2 * g1);
    lemma_subrange_join(frame, 0, 3 * g2 + 2 * g1, head);
    lemma_subrange_join(frame, 0, head, frame.len() as int);
    assert(frame.subrange(0, frame.len() as int) =~= frame);
}

/// Every coordinate of the points of a proof is written in lower case.
pub open spec fn is_canonical_proof(proof: ProofPointsText) -> bool {
    is_canonical_pair(proof.a) && is_canonical_g2(proof.b) && is_canonical_pair(proof.c)
}

/// Reading the frame of the points of a proof gives the points back, for
/// points written with lower-case digits.
pub proof fn lemma_proof_round_trip(curve: Curve, proof: ProofPointsText)
    requires
        proof_frame(curve, proof) is Some,
        is_canonical_proof(proof),
    ensures
        proof_of_frame(curve, proof_frame(curve, proof).unwrap()) == Some(proof),
{
    let g1 = curve.g1_size() as int;
    let g2 = curve.g2_size() as int;
    let a = g1_frame(curve, proof.a).unwrap();
    let b = g2_point_frame(curve, proof.b).unwrap();
    let c = g1_frame(curve, proof.c).unwrap();
    lemma_frame_lengths(curve, proof.a, proof.b);
    lemma_frame_lengths(curve, proof.c, proof.b);
    lemma_g1_round_trip(curve, proof.a);
    lemma_g2_point_round_trip(curve, proof.b);
    lemma_g1_round_trip(curve, proof.c);
    let frame = a + b + c;
    assert(frame.subrange(0, g1) =~= a);
    assert(frame.subrange(g1, g1 + g2) =~= b);
    assert(frame.subrange(g1 + g2, 2 * g1 + g2) =~= c);
}

/// No two proofs share a frame: whoever changes a coordinate of a proof
/// changes what the proving engine is asked about.
pub proof fn lemma_tampering_changes_the_frame(
    curve: Curve,
    proof: ProofPointsText,
    tampered: ProofPointsText,
)
    requires
        proof_frame(curve, proof) is Some,
        proof_frame(curve, tampered) is Some,
        is_canonical_proof(proof),
        is_canonical_proof(tampered),
        proof != tampered,
    ensures
        proof_frame(curve, proof) != proof_frame(curve, tampered),
{
    lemma_proof_round_trip(curve, proof);
    lemma_proof_round_trip(curve, tampered);
}

} // verus!
