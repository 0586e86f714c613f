//! The Groth–Maller backend: checking a proof against a verification key.
//!
//! The library frames keys, proofs and inputs, and decides what is handed to
//! the proving engine. The engine decides two things only: whether a frame
//! holds a point of the group it is meant for, and whether the pairing
//! equations of the scheme hold.

use crate::computation::{bytes_of, public_variables, Computation};
use crate::curve::Curve;
use crate::field::{
    be_value, fr_text, fr_text_of, input_bytes, input_value, lemma_fr_text_value, to_fr,
};
use crate::gm17::{
    is_key_layout, key_frame, key_frame_count, key_head_size, key_layout, key_of_frame,
    proof_frame,
    proof_of_frame, query_block, Proof, ProofPoints, ProofPointsText, SetupKeypair,
    VerificationKey, VerificationKeyText, COUNT_LEN,
};
use crate::ir::FieldElement;
use ark_ff::PrimeField;
use ark_serialize::CanonicalDeserialize;
use vstd::prelude::*;
use vstd::slice::slice_subrange;

verus! {

/// Whether the proving engine takes `frame` for a point of the first group
/// of `curve`: on the curve, and in its subgroup of prime order.
pub uninterp spec fn g1_valid(curve: Curve, frame: Seq<u8>) -> bool;

/// Whether the proving engine takes `frame` for a point of the second group
/// of `curve`: on the curve, and in its subgroup of prime order.
pub uninterp spec fn g2_valid(curve: Curve, frame: Seq<u8>) -> bool;

/// Whether the pairing equations of the scheme hold on `curve` for the
/// framed key, the framed proof and the inputs, each input a number that the
/// engine reduces by the order of the scalar field.
pub uninterp spec fn gm17_accepts(
    curve: Curve,
    key: Seq<u8>,
    proof: Seq<u8>,
    inputs: Seq<nat>,
) -> bool;

/// The numbers that `inputs` hold, each most significant byte first.
pub open spec fn values_of_bytes(inputs: Seq<Seq<u8>>) -> Seq<nat> {
    Seq::new(inputs.len(), |i: int| be_value(inputs[i]))
}

/// Every point of the key frame is a point of its group.
pub open spec fn key_frame_is_valid(curve: Curve, frame: Seq<u8>) -> bool {
    let g1 = curve.g1_size() as int;
    let g2 = curve.g2_size() as int;
    &&& is_key_layout(curve, frame)
    &&& g2_valid(curve, frame.subrange(0, g2))
    &&& g1_valid(curve, frame.subrange(g2, g2 + g1))
    &&& g2_valid(curve, frame.subrange(g2 + g1, 2 * g2 + g1))
    &&& g1_valid(curve, frame.subrange(2 * g2 + g1, 2 * g2 + 2 * g1))
    &&& g2_valid(curve, frame.subrange(2 * g2 + 2 * g1, 3 * g2 + 2 * g1))
    &&& forall|i: int|
        0 <= i < key_frame_count(curve, frame) ==> g1_valid(
            curve,
            #[trigger] query_block(curve, frame, i),
        )
}

/// Every point of the proof frame is a point of its group.
pub open spec fn proof_frame_is_valid(curve: Curve, frame: Seq<u8>) -> bool {
    let g1 = curve.g1_size() as int;
    let g2 = curve.g2_size() as int;
    &&& frame.len() == 2 * g1 + g2
    &&& g1_valid(curve, frame.subrange(0, g1))
    &&& g2_valid(curve, frame.subrange(g1, g1 + g2))
    &&& g1_valid(curve, frame.subrange(g1 + g2, 2 * g1 + g2))
}

/// Calls `deserialize_uncompressed` of `ark_bn254::G1Affine`, which reads
/// the point and tests that it lies in the subgroup, and then `is_on_curve`.
#[verifier::external_body]
fn bn128_g1_valid(frame: &[u8]) -> (ok: bool)
    ensures
        ok == g1_valid(Curve::Bn128, frame@),
{
    match ark_bn254::G1Affine::deserialize_uncompressed(frame) {
        Ok(point) => point.is_on_curve(),
        Err(_) => false,
    }
}

/// Calls `deserialize_uncompressed` of `ark_bn254::G2Affine`, which reads
/// the point and tests that it lies in the subgroup, and then `is_on_curve`.
#[verifier::external_body]
fn bn128_g2_valid(frame: &[u8]) -> (ok: bool)
    ensures
        ok == g2_valid(Curve::Bn128, frame@),
{
    match ark_bn254::G2Affine::deserialize_uncompressed(frame) {
        Ok(point) => point.is_on_curve(),
        Err(_) => false,
    }
}

/// Calls `ark_gm17::verify_proof` on BN254, after `deserialize_unchecked`
/// for the key and the proof, `from_be_bytes_mod_order` for each input, which
/// reads a number most significant byte first and reduces it, and
/// `prepare_verifying_key`. The call fails where the key's query is not one
/// longer than the inputs, and that is taken for a refusal.
#[verifier::external_body]
fn bn128_accepts(key: &[u8], proof: &[u8], inputs: &Vec<Vec<u8>>) -> (ok: bool)
    requires
        key_frame_is_valid(Curve::Bn128, key@),
        proof_frame_is_valid(Curve::Bn128, proof@),
    ensures
        ok == gm17_accepts(Curve::Bn128, key@, proof@, values_of_bytes(inputs.deep_view())),
{
    let key = ark_gm17::VerifyingKey::<ark_bn254::Bn254>::deserialize_unchecked(key);
    let proof = ark_gm17::Proof::<ark_bn254::Bn254>::deserialize_unchecked(proof);
    let x: Vec<ark_bn254::Fr> =
        inputs.iter().map(|b| PrimeField::from_be_bytes_mod_order(b)).collect();
    match (key, proof) {
        (Ok(k), Ok(p)) => {
            ark_gm17::verify_proof(&ark_gm17::prepare_verifying_key(&k), &p, &x).unwrap_or(false)
        },
        _ => false,
    }
}

/// Calls `deserialize_uncompressed` of `ark_bls12_377::G1Affine`, which
/// reads the point and tests that it lies in the subgroup, and then
/// `is_on_curve`.
#[verifier::external_body]
fn bls12_377_g1_valid(frame: &[u8]) -> (ok: bool)
    ensures
        ok == g1_valid(Curve::Bls12_377, frame@),
{
    match ark_bls12_377::G1Affine::deserialize_uncompressed(frame) {
        Ok(point) => point.is_on_curve(),
        Err(_) => false,
    }
}

/// Calls `deserialize_uncompressed` of `ark_bls12_377::G2Affine`, which
/// reads the point and tests that it lies in the subgroup, and then
/// `is_on_curve`.
#[verifier::external_body]
fn bls12_377_g2_valid(frame: &[u8]) -> (ok: bool)
    ensures
        ok == g2_valid(Curve::Bls12_377, frame@),
{
    match ark_bls12_377::G2Affine::deserialize_uncompressed(frame) {
        Ok(point) => point.is_on_curve(),
        Err(_) => false,
    }
}

/// Calls `ark_gm17::verify_proof` on BLS12-377, after `deserialize_unchecked`
/// for the key and the proof, `from_be_bytes_mod_order` for each input, which
/// reads a number most significant byte first and reduces it, and
/// `prepare_verifying_key`. The call fails where the key's query is not one
/// longer than the inputs, and that is taken for a refusal.
#[verifier::external_body]
fn bls12_377_accepts(key: &[u8], proof: &[u8], inputs: &Vec<Vec<u8>>) -> (ok: bool)
    requires
        key_frame_is_valid(Curve::Bls12_377, key@),
        proof_frame_is_valid(Curve::Bls12_377, proof@),
    ensures
        ok == gm17_accepts(Curve::Bls12_377, key@, proof@, values_of_bytes(inputs.deep_view())),
{
    let key = ark_gm17::VerifyingKey::<ark_bls12_377::Bls12_377>::deserialize_unchecked(key);
    let proof = ark_gm17::Proof::<ark_bls12_377::Bls12_377>::deserialize_unchecked(proof);
    let x: Vec<ark_bls12_377::Fr> =
        inputs.iter().map(|b| PrimeField::from_be_bytes_mod_order(b)).collect();
    match (key, proof) {
        (Ok(k), Ok(p)) => {
            ark_gm17::verify_proof(&ark_gm17::prepare_verifying_key(&k), &p, &x).unwrap_or(false)
        },
        _ => false,
    }
}

/// Calls `deserialize_uncompressed` of `ark_bw6_761::G1Affine`, which reads
/// the point and tests that it lies in the subgroup, and then `is_on_curve`.
#[verifier::external_body]
fn bw6_761_g1_valid(frame: &[u8]) -> (ok: bool)
    ensures
        ok == g1_valid(Curve::Bw6_761, frame@),
{
    match ark_bw6_761::G1Affine::deserialize_uncompressed(frame) {
        Ok(point) => point.is_on_curve(),
        Err(_) => false,
    }
}

/// Calls `deserialize_uncompressed` of `ark_bw6_761::G2Affine`, which reads
/// the point and tests that it lies in the subgroup, and then `is_on_curve`.
#[verifier::external_body]
fn bw6_761_g2_valid(frame: &[u8]) -> (ok: bool)
    ensures
        ok == g2_valid(Curve::Bw6_761, frame@),
{
    match ark_bw6_761::G2Affine::deserialize_uncompressed(frame) {
        Ok(point) => point.is_on_curve(),
        Err(_) => false,
    }
}

/// Calls `ark_gm17::verify_proof` on BW6-761, after `deserialize_unchecked`
/// for the key and the proof, `from_be_bytes_mod_order` for each input, which
/// reads a number most significant byte first and reduces it, and
/// `prepare_verifying_key`. The call fails where the key's query is not one
/// longer than the inputs, and that is taken for a refusal.
#[verifier::external_body]
fn bw6_761_accepts(key: &[u8], proof: &[u8], inputs: &Vec<Vec<u8>>) -> (ok: bool)
    requires
        key_frame_is_valid(Curve::Bw6_761, key@),
        proof_frame_is_valid(Curve::Bw6_761, proof@),
    ensures
        ok == gm17_accepts(Curve::Bw6_761, key@, proof@, values_of_bytes(inputs.deep_view())),
{
    let key = ark_gm17::VerifyingKey::<ark_bw6_761::BW6_761>::deserialize_unchecked(key);
    let proof = ark_gm17::Proof::<ark_bw6_761::BW6_761>::deserialize_unchecked(proof);
    let x: Vec<ark_bw6_761::Fr> =
        inputs.iter().map(|b| PrimeField::from_be_bytes_mod_order(b)).collect();
    match (key, proof) {
        (Ok(k), Ok(p)) => {
            ark_gm17::verify_proof(&ark_gm17::prepare_verifying_key(&k), &p, &x).unwrap_or(false)
        },
        _ => false,
    }
}

/// Asks the proving engine whether `frame` holds a point of the first group.
pub fn is_g1(curve: Curve, frame: &[u8]) -> (ok: bool)
    ensures
        ok == g1_valid(curve, frame@),
{
    match curve {
        Curve::Bn128 => bn128_g1_valid(frame),
        Curve::Bls12_377 => bls12_377_g1_valid(frame),
        Curve::Bw6_761 => bw6_761_g1_valid(frame),
    }
}

/// Asks the proving engine whether `frame` holds a point of the second
/// group.
pub fn is_g2(curve: Curve, frame: &[u8]) -> (ok: bool)
    ensures
        ok == g2_valid(curve, frame@),
{
    match curve {
        Curve::Bn128 => bn128_g2_valid(frame),
        Curve::Bls12_377 => bls12_377_g2_valid(frame),
        Curve::Bw6_761 => bw6_761_g2_valid(frame),
    }
}

/// Tells whether every point of a key frame is a point of its group.
pub fn check_key_frame(curve: Curve, frame: &[u8]) -> (ok: bool)
    ensures
        ok == key_frame_is_valid(curve, frame@),
{
    let g1: usize = curve.g1_len();
    let g2: usize = curve.g2_len();
    let head: usize = 3 * g2 + 2 * g1 + COUNT_LEN;
    let count: usize = match key_layout(curve, frame) {
        Some(n) => n,
        None => {
            return false;
        },
    };
    if !is_g2(curve, slice_subrange(frame, 0, g2)) {
        return false;
    }
    if !is_g1(curve, slice_subrange(frame, g2, g2 + g1)) {
        return false;
    }
    if !is_g2(curve, slice_subrange(frame, g2 + g1, 2 * g2 + g1)) {
        return false;
    }
    if !is_g1(curve, slice_subrange(frame, 2 * g2 + g1, 2 * g2 + 2 * g1)) {
        return false;
    }
    if !is_g2(curve, slice_subrange(frame, 2 * g2 + 2 * g1, 3 * g2 + 2 * g1)) {
        return false;
    }
    let total: usize = frame.len();
    let mut i: usize = 0;
    let mut at: usize = head;
    while i < count
        invariant
            i <= count,
            total == frame@.len(),
            g1 == curve.g1_size(),
            head == key_head_size(curve),
            is_key_layout(curve, frame@),
            count == key_frame_count(curve, frame@),
            at as int == head + (i as int) * (g1 as int),
            forall|k: int| 0 <= k < i ==> g1_valid(curve, #[trigger] query_block(curve, frame@, k)),
        decreases count - i,
    {
        assert(at + g1 <= frame@.len() && at as int + (g1 as int) == head + (i as int + 1) * (
        g1 as int)) by (nonlinear_arith)
            requires
                at as int == head + (i as int) * (g1 as int),
                i < count,
                frame@.len() == head + (count as int) * (g1 as int),
                g1 > 0,
        ;
        let ghost here = query_block(curve, frame@, i as int);
        if !is_g1(curve, slice_subrange(frame, at, at + g1)) {
            assert(!g1_valid(curve, here));
            return false;
        }
        at = at + g1;
        i = i + 1;
    }
    true
}

/// Tells whether every point of a proof frame is a point of its group.
pub fn check_proof_frame(curve: Curve, frame: &[u8]) -> (ok: bool)
    ensures
        ok == proof_frame_is_valid(curve, frame@),
{
    let g1: usize = curve.g1_len();
    let g2: usize = curve.g2_len();
    if frame.len() != 2 * g1 + g2 {
        return false;
    }
    is_g1(curve, slice_subrange(frame, 0, g1)) && is_g2(curve, slice_subrange(frame, g1, g1 + g2))
        && is_g1(curve, slice_subrange(frame, g1 + g2, 2 * g1 + g2))
}

/// The big-endian bytes of each input, if every text holds a number.
pub open spec fn inputs_bytes(inputs: Seq<Seq<char>>) -> Option<Seq<Seq<u8>>> {
    if forall|i: int| 0 <= i < inputs.len() ==> input_bytes(#[trigger] inputs[i]) is Some {
        Some(Seq::new(inputs.len(), |i: int| input_bytes(inputs[i]).unwrap()))
    } else {
        None
    }
}

/// The number that each input holds; zero for a text that holds none.
pub open spec fn inputs_values(inputs: Seq<Seq<char>>) -> Seq<nat> {
    Seq::new(
        inputs.len(),
        |i: int|
            match input_value(inputs[i]) {
                Some(v) => v,
                None => 0,
            },
    )
}

/// Reads the number of each input.
pub fn to_inputs(inputs: &Vec<String>) -> (bytes: Option<Vec<Vec<u8>>>)
    ensures
        match bytes {
            Some(b) => inputs_bytes(Seq::new(inputs@.len(), |i: int| inputs@[i]@)) == Some(
                b.deep_view(),
            ),
            None => inputs_bytes(Seq::new(inputs@.len(), |i: int| inputs@[i]@)) is None,
        },
{
    let ghost text = Seq::new(inputs@.len(), |i: int| inputs@[i]@);
    let mut out: Vec<Vec<u8>> = Vec::new();
    let mut i: usize = 0;
    while i < inputs.len()
        invariant
            i <= inputs@.len(),
            text == Seq::new(inputs@.len(), |i: int| inputs@[i]@),
            out@.len() == i,
            forall|k: int| 0 <= k < i ==> input_bytes(#[trigger] text[k]) == Some(out@[k]@),
        decreases inputs@.len() - i,
    {
        match to_fr(inputs[i].as_str()) {
            Some(b) => {
                out.push(b);
            },
            None => {
                assert(input_bytes(text[i as int]) is None);
                return None;
            },
        }
        i = i + 1;
    }
    proof {
        assert(inputs_bytes(text) is Some);
        assert(out.deep_view() =~= inputs_bytes(text).unwrap()) by {
            assert forall|k: int| 0 <= k < out@.len() implies out.deep_view()[k]
                == inputs_bytes(text).unwrap()[k] by {
                assert(input_bytes(text[k]) == Some(out@[k]@));
            }
        }
    }
    Some(out)
}

/// Whether a proof is accepted under a key: the key's query is one longer
/// than the inputs, every point is written as field elements of the curve
/// and is a point of its group, every input holds a number, and the pairing
/// equations hold.
pub open spec fn accepted(
    curve: Curve,
    key: VerificationKeyText,
    points: ProofPointsText,
    inputs: Seq<Seq<char>>,
) -> bool {
    &&& key.query.len() == inputs.len() + 1
    &&& key_frame(curve, key) is Some
    &&& proof_frame(curve, points) is Some
    &&& inputs_bytes(inputs) is Some
    &&& key_frame_is_valid(curve, key_frame(curve, key).unwrap())
    &&& proof_frame_is_valid(curve, proof_frame(curve, points).unwrap())
    &&& gm17_accepts(
        curve,
        key_frame(curve, key).unwrap(),
        proof_frame(curve, points).unwrap(),
        inputs_values(inputs),
    )
}

/// The backend that proves and verifies with the Groth–Maller scheme.
pub struct Ark;

impl Ark {
    /// Checks `proof` against `vk` on `curve`. A key or a proof that is not
    /// well formed is refused like a proof that does not hold.
    pub fn verify(curve: Curve, vk: &VerificationKey, proof: &Proof) -> (ok: bool)
        ensures
            ok == accepted(curve, vk@, proof.proof@, proof.inputs_text()),
    {
        if vk.query.len() == 0 || vk.query.len() - 1 != proof.inputs.len() {
            return false;
        }
        let key: Vec<u8> = match vk.to_frame(curve) {
            Some(f) => f,
            None => {
                return false;
            },
        };
        let points: Vec<u8> = match proof.proof.to_frame(curve) {
            Some(f) => f,
            None => {
                return false;
            },
        };
        let inputs: Vec<Vec<u8>> = match to_inputs(&proof.inputs) {
            Some(b) => b,
            None => {
                return false;
            },
        };
        if !check_key_frame(curve, key.as_slice()) || !check_proof_frame(
            curve,
            points.as_slice(),
        ) {
            return false;
        }
        assert(values_of_bytes(inputs.deep_view()) =~= inputs_values(proof.inputs_text()));
        match curve {
            Curve::Bn128 => bn128_accepts(key.as_slice(), points.as_slice(), &inputs),
            Curve::Bls12_377 => bls12_377_accepts(key.as_slice(), points.as_slice(), &inputs),
            Curve::Bw6_761 => bw6_761_accepts(key.as_slice(), points.as_slice(), &inputs),
        }
    }
}

/// A key whose query is not one longer than the proof's inputs accepts no
/// proof.
pub proof fn lemma_query_length_mismatch_is_refused(
    curve: Curve,
    key: VerificationKeyText,
    points: ProofPointsText,
    inputs: Seq<Seq<char>>,
)
    requires
        key.query.len() != inputs.len() + 1,
    ensures
        !accepted(curve, key, points, inputs),
{
}

/// A proof with a point that is not written as field elements of the curve
/// is accepted under no key.
pub proof fn lemma_malformed_proof_is_refused(
    curve: Curve,
    key: VerificationKeyText,
    points: ProofPointsText,
    inputs: Seq<Seq<char>>,
)
    requires
        proof_frame(curve, points) is None,
    ensures
        !accepted(curve, key, points, inputs),
{
}

/// Why a setup or a proof did not come about.
#[derive(Clone, Debug, PartialEq, Eq)]
pub enum BackendError {
    /// The proving engine failed, with its message.
    Engine(String),
    /// What the proving engine wrote is no frame of a key or of a proof on
    /// the curve at hand.
    MalformedOutput,
    /// There is no witness, or it lacks the value of a public variable.
    MissingAssignment,
}

/// The two frames that the proving engine writes at a setup.
#[derive(Clone, Debug, PartialEq, Eq)]
pub struct GeneratedKeys {
    /// The frame of the verification key.
    pub vk: Vec<u8>,
    /// The proving key, in the engine's own serialization.
    pub pk: Vec<u8>,
}

/// The texts of `values` as public inputs on `curve`.
pub open spec fn inputs_text_of(curve: Curve, values: Seq<Seq<u8>>) -> Seq<Seq<char>> {
    Seq::new(values.len(), |i: int| fr_text_of(curve, values[i]))
}

/// Writes each value as a public input on `curve`.
pub fn inputs_text(curve: Curve, values: &Vec<FieldElement>) -> (texts: Vec<String>)
    ensures
        Seq::new(texts@.len(), |i: int| texts@[i]@) == inputs_text_of(curve, bytes_of(values@)),
{
    let mut texts: Vec<String> = Vec::new();
    let mut i: usize = 0;
    while i < values.len()
        invariant
            i <= values@.len(),
            texts@.len() == i,
            forall|k: int| 0 <= k < i ==> (#[trigger] texts@[k])@ == fr_text_of(curve, values@[k]@),
        decreases values@.len() - i,
    {
        texts.push(fr_text(curve, &values[i]));
        i = i + 1;
    }
    assert(Seq::new(texts@.len(), |i: int| texts@[i]@) =~= inputs_text_of(
        curve,
        bytes_of(values@),
    ));
    texts
}

impl Ark {
    /// Completes a setup from what the proving engine returned: its failure
    /// is handed on, and its two frames become the key pair. The proving key
    /// is kept byte for byte.
    pub fn setup(curve: Curve, outcome: Result<GeneratedKeys, String>) -> (keys: Result<
        SetupKeypair,
        BackendError,
    >)
        ensures
            match outcome {
                Err(message) => keys == Err::<SetupKeypair, BackendError>(
                    BackendError::Engine(message),
                ),
                Ok(generated) => match key_of_frame(curve, generated.vk@) {
                    Some(key) => keys matches Ok(pair) && pair.vk@ == key && pair.pk
                        == generated.pk,
                    None => keys == Err::<SetupKeypair, BackendError>(
                        BackendError::MalformedOutput,
                    ),
                },
            },
    {
        match outcome {
            Err(message) => Err(BackendError::Engine(message)),
            Ok(generated) => match VerificationKey::from_frame(curve, generated.vk.as_slice()) {
                Some(vk) => Ok(SetupKeypair::new(vk, generated.pk)),
                None => Err(BackendError::MalformedOutput),
            },
        }
    }

    /// Completes a proof from what the proving engine returned: the public
    /// inputs are read from the witness, the engine's failure is handed on,
    /// and its frame becomes the points of the proof.
    pub fn generate_proof(
        curve: Curve,
        computation: &Computation,
        outcome: Result<Vec<u8>, String>,
    ) -> (proof: Result<Proof, BackendError>)
        ensures
            match (computation.public_inputs(), outcome) {
                (None, _) => proof == Err::<Proof, BackendError>(BackendError::MissingAssignment),
                (Some(_), Err(message)) => proof == Err::<Proof, BackendError>(
                    BackendError::Engine(message),
                ),
                (Some(values), Ok(frame)) => match proof_of_frame(curve, frame@) {
                    Some(points) => proof matches Ok(p) && p.proof@ == points && p.inputs_text()
                        == inputs_text_of(curve, values),
                    None => proof == Err::<Proof, BackendError>(BackendError::MalformedOutput),
                },
            },
            proof matches Ok(p) ==> p.inputs@.len() == public_variables(
                &computation.program,
            ).len(),
    {
        let values: Vec<FieldElement> = match computation.public_inputs_values() {
            Some(v) => v,
            None => {
                return Err(BackendError::MissingAssignment);
            },
        };
        let frame: Vec<u8> = match outcome {
            Ok(f) => f,
            Err(message) => {
                return Err(BackendError::Engine(message));
            },
        };
        match ProofPoints::from_frame(curve, frame.as_slice()) {
            Some(points) => {
                let texts: Vec<String> = inputs_text(curve, &values);
                proof {
                    let shown = Seq::new(texts@.len(), |i: int| texts@[i]@);
                    let read = computation.public_inputs().unwrap();
                    assert(shown.len() == inputs_text_of(curve, bytes_of(values@)).len());
                    assert(bytes_of(values@).len() == read.len());
                }
                Ok(Proof::new(points, texts))
            },
            None => Err(BackendError::MalformedOutput),
        }
    }
}

/// The verdict goes by the numbers that the inputs hold, not by how they are
/// written: two proofs with the same points whose inputs hold the same
/// numbers are accepted together or refused together.
pub proof fn lemma_verdict_goes_by_numbers(
    curve: Curve,
    key: VerificationKeyText,
    points: ProofPointsText,
    inputs: Seq<Seq<char>>,
    others: Seq<Seq<char>>,
)
    requires
        inputs.len() == others.len(),
        forall|i: int|
            0 <= i < inputs.len() ==> input_value(inputs[i]) is Some && input_value(inputs[i])
                == input_value(others[i]),
    ensures
        accepted(curve, key, points, inputs) == accepted(curve, key, points, others),
{
    assert(inputs_values(inputs) =~= inputs_values(others));
    assert(inputs_bytes(inputs) is Some);
    assert(inputs_bytes(others) is Some) by {
        assert forall|i: int| 0 <= i < others.len() implies input_bytes(
            #[trigger] others[i],
        ) is Some by {
            assert(input_value(inputs[i]) == input_value(others[i]));
        }
    }
}

/// The inputs that a proof carries hold the public inputs of the witness:
/// what is written at proving is read at verification as the same numbers.
pub proof fn lemma_written_inputs_hold_the_values(curve: Curve, values: Seq<Seq<u8>>)
    ensures
        inputs_bytes(inputs_text_of(curve, values)) is Some,
        inputs_values(inputs_text_of(curve, values)) == values_of_bytes(values),
{
    let texts = inputs_text_of(curve, values);
    assert forall|i: int| 0 <= i < texts.len() implies input_value(#[trigger] texts[i]) == Some(
        be_value(values[i]),
    ) by {
        lemma_fr_text_value(curve, values[i]);
    }
    assert(inputs_values(texts) =~= values_of_bytes(values));
}

} // verus!
