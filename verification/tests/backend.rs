use ark_crypto_primitives::SNARK;
use ark_ec::AffineCurve;
use ark_ff::PrimeField;
use ark_gm17::GM17;
use ark_relations::r1cs::{
    ConstraintSynthesizer, ConstraintSystemRef, LinearCombination, SynthesisError, Variable,
};
use ark_serialize::{CanonicalDeserialize, CanonicalSerialize};
use rand::rngs::StdRng;
use rand::SeedableRng;
use zokrates_proof_system::ark::{
    check_key_frame, check_proof_frame, inputs_text, is_g1, is_g2, to_inputs, Ark, BackendError,
    GeneratedKeys,
};
use zokrates_proof_system::computation::{Computation, Entry, Synthesis};
use zokrates_proof_system::curve::Curve;
use zokrates_proof_system::gm17::{Proof, SetupKeypair};
use zokrates_proof_system::ir::{
    FieldElement, FlatParameter, FlatVariable, LinComb, Prog, QuadComb, Statement, Witness,
};
use zokrates_proof_system::points::{G1Affine, G2Point};

/// Hands a planned synthesis to the proving engine.
struct Circuit {
    plan: Synthesis,
}

fn combination<F: PrimeField>(entries: &[Entry], wires: &[Variable]) -> LinearCombination<F> {
    let mut out = LinearCombination::zero();
    for entry in entries {
        out += (F::from_be_bytes_mod_order(&entry.coefficient.bytes), wires[entry.wire]);
    }
    out
}

impl<F: PrimeField> ConstraintSynthesizer<F> for Circuit {
    fn generate_constraints(self, cs: ConstraintSystemRef<F>) -> Result<(), SynthesisError> {
        let mut wires = vec![Variable::One];
        for wire in self.plan.wires.iter().skip(1) {
            let value = || {
                wire.value
                    .as_ref()
                    .map(|v| F::from_be_bytes_mod_order(&v.bytes))
                    .ok_or(SynthesisError::AssignmentMissing)
            };
            wires.push(if wire.public {
                cs.new_input_variable(value)?
            } else {
                cs.new_witness_variable(value)?
            });
        }
        for row in &self.plan.rows {
            cs.enforce_constraint(
                combination(&row.a, &wires),
                combination(&row.b, &wires),
                combination(&row.c, &wires),
            )?;
        }
        Ok(())
    }
}

fn setup<E: ark_ec::PairingEngine>(curve: Curve, program: Prog) -> Result<SetupKeypair, BackendError> {
    let computation = Computation::without_witness(program);
    let rng = &mut StdRng::from_entropy();
    let outcome = GM17::<E>::circuit_specific_setup(Circuit { plan: computation.synthesize() }, rng)
        .map(|(pk, vk)| {
            let mut generated = GeneratedKeys { vk: Vec::new(), pk: Vec::new() };
            vk.serialize_uncompressed(&mut generated.vk).unwrap();
            pk.serialize_uncompressed(&mut generated.pk).unwrap();
            generated
        })
        .map_err(|e| e.to_string());
    Ark::setup(curve, outcome)
}

fn generate_proof<E: ark_ec::PairingEngine>(
    curve: Curve,
    program: Prog,
    witness: Witness,
    proving_key: Vec<u8>,
) -> Result<Proof, BackendError> {
    let computation = Computation::with_witness(program, witness);
    let pk = ark_gm17::ProvingKey::<E>::deserialize_uncompressed(&mut proving_key.as_slice())
        .unwrap();
    let rng = &mut StdRng::from_entropy();
    let outcome = GM17::<E>::prove(&pk, Circuit { plan: computation.synthesize() }, rng)
        .map(|proof| {
            let mut frame: Vec<u8> = Vec::new();
            proof.serialize_uncompressed(&mut frame).unwrap();
            frame
        })
        .map_err(|e| e.to_string());
    Ark::generate_proof(curve, &computation, outcome)
}

/// One public argument, copied to the one public output.
fn program() -> Prog {
    Prog::new(
        vec![FlatParameter::public(FlatVariable::new(0))],
        vec![Statement::constraint(
            QuadComb::from_variable(FlatVariable::new(0)),
            LinComb::from_variable(FlatVariable::public(0)),
        )],
        1,
    )
}

/// What running `program` on `input` assigns.
fn execute(input: u64) -> Witness {
    let mut witness = Witness::empty();
    witness.insert(FlatVariable::one(), FieldElement::from_u64(1));
    witness.insert(FlatVariable::new(0), FieldElement::from_u64(input));
    witness.insert(FlatVariable::public(0), FieldElement::from_u64(input));
    witness
}

fn prove_42<E: ark_ec::PairingEngine>(curve: Curve) -> (SetupKeypair, Proof) {
    let keypair = setup::<E>(curve, program()).unwrap();
    let proof = generate_proof::<E>(curve, program(), execute(42), keypair.pk.clone()).unwrap();
    (keypair, proof)
}

/// `text` with its last digit replaced by another.
fn tampered(text: &str) -> String {
    let mut out = text.to_string();
    let last = out.pop().unwrap();
    out.push(if last == '0' { '1' } else { '0' });
    out
}

#[test]
fn verify_bls12_377_field() {
    let keypair = setup::<ark_bls12_377::Bls12_377>(Curve::Bls12_377, program()).unwrap();
    let witness = execute(42);
    let proof = generate_proof::<ark_bls12_377::Bls12_377>(
        Curve::Bls12_377,
        program(),
        witness,
        keypair.pk,
    )
    .unwrap();
    let ans = Ark::verify(Curve::Bls12_377, &keypair.vk, &proof);

    assert!(ans);
}

#[test]
fn verify_bw6_761_field() {
    let keypair = setup::<ark_bw6_761::BW6_761>(Curve::Bw6_761, program()).unwrap();
    let witness = execute(42);
    let proof =
        generate_proof::<ark_bw6_761::BW6_761>(Curve::Bw6_761, program(), witness, keypair.pk)
            .unwrap();
    let ans = Ark::verify(Curve::Bw6_761, &keypair.vk, &proof);

    assert!(ans);
}

#[test]
fn verify_bn128_field() {
    let (keypair, proof) = prove_42::<ark_bn254::Bn254>(Curve::Bn128);
    assert!(Ark::verify(Curve::Bn128, &keypair.vk, &proof));
}

#[test]
fn setup_yields_one_query_point_more_than_public_inputs() {
    let keypair = setup::<ark_bls12_377::Bls12_377>(Curve::Bls12_377, program()).unwrap();
    assert_eq!(keypair.vk.query.len(), 3);
    assert!(matches!(keypair.vk.h, G2Point::Quadratic(_)));
    assert!(!keypair.pk.is_empty());
}

#[test]
fn setup_on_bw6_761_yields_base_field_points() {
    let keypair = setup::<ark_bw6_761::BW6_761>(Curve::Bw6_761, program()).unwrap();
    assert!(matches!(keypair.vk.h, G2Point::Base(_)));
    assert!(matches!(keypair.vk.h_beta, G2Point::Base(_)));
    assert!(matches!(keypair.vk.h_gamma, G2Point::Base(_)));
    assert_eq!(keypair.vk.g_alpha.0.len(), 2 + 2 * 96);
}

#[test]
fn proof_carries_the_public_inputs_as_text() {
    let (_, proof) = prove_42::<ark_bls12_377::Bls12_377>(Curve::Bls12_377);
    let expected = format!("0x{}2a", "0".repeat(62));
    assert_eq!(proof.inputs, vec![expected.clone(), expected]);
}

#[test]
fn verify_accepts_inputs_written_otherwise() {
    let (keypair, mut proof) = prove_42::<ark_bls12_377::Bls12_377>(Curve::Bls12_377);
    proof.inputs = vec!["0x2a".to_string(), "2A".to_string()];
    assert!(Ark::verify(Curve::Bls12_377, &keypair.vk, &proof));
    proof.inputs = vec!["0x02a".to_string(), "0x002a".to_string()];
    assert!(Ark::verify(Curve::Bls12_377, &keypair.vk, &proof));
}

#[test]
fn verify_refuses_a_substituted_input() {
    let (keypair, mut proof) = prove_42::<ark_bls12_377::Bls12_377>(Curve::Bls12_377);
    assert!(Ark::verify(Curve::Bls12_377, &keypair.vk, &proof));
    let other = format!("0x{}2b", "0".repeat(62));
    proof.inputs = vec![other.clone(), other];
    assert!(!Ark::verify(Curve::Bls12_377, &keypair.vk, &proof));
    proof.inputs[0] = format!("0x{}2a", "0".repeat(62));
    assert!(!Ark::verify(Curve::Bls12_377, &keypair.vk, &proof));
}

#[test]
fn verify_refuses_an_input_that_is_no_number() {
    let (keypair, mut proof) = prove_42::<ark_bls12_377::Bls12_377>(Curve::Bls12_377);
    proof.inputs[1] = "0x2g".to_string();
    assert!(!Ark::verify(Curve::Bls12_377, &keypair.vk, &proof));
    proof.inputs[1] = "0x".to_string();
    assert!(!Ark::verify(Curve::Bls12_377, &keypair.vk, &proof));
    proof.inputs[1] = "0x0x2a".to_string();
    assert!(!Ark::verify(Curve::Bls12_377, &keypair.vk, &proof));
}

#[test]
fn verify_refuses_a_query_of_another_length() {
    let (keypair, proof) = prove_42::<ark_bls12_377::Bls12_377>(Curve::Bls12_377);

    let mut longer = keypair.vk.clone();
    longer.query.push(longer.query[0].clone());
    assert!(!Ark::verify(Curve::Bls12_377, &longer, &proof));

    let mut shorter = keypair.vk.clone();
    shorter.query.pop();
    assert!(!Ark::verify(Curve::Bls12_377, &shorter, &proof));

    let mut empty = keypair.vk.clone();
    empty.query.clear();
    assert!(!Ark::verify(Curve::Bls12_377, &empty, &proof));

    let mut fewer = proof.clone();
    fewer.inputs.pop();
    assert!(!Ark::verify(Curve::Bls12_377, &keypair.vk, &fewer));

    let mut more = proof.clone();
    more.inputs.push("0x2a".to_string());
    assert!(!Ark::verify(Curve::Bls12_377, &keypair.vk, &more));
}

#[test]
fn verify_refuses_each_tampered_coordinate_bls12_377() {
    let (keypair, proof) = prove_42::<ark_bls12_377::Bls12_377>(Curve::Bls12_377);

    let mut p = proof.clone();
    p.proof.a.0 = tampered(&p.proof.a.0);
    assert!(!Ark::verify(Curve::Bls12_377, &keypair.vk, &p));

    let mut p = proof.clone();
    p.proof.a.1 = tampered(&p.proof.a.1);
    assert!(!Ark::verify(Curve::Bls12_377, &keypair.vk, &p));

    let mut p = proof.clone();
    p.proof.c.0 = tampered(&p.proof.c.0);
    assert!(!Ark::verify(Curve::Bls12_377, &keypair.vk, &p));

    let mut p = proof.clone();
    p.proof.c.1 = tampered(&p.proof.c.1);
    assert!(!Ark::verify(Curve::Bls12_377, &keypair.vk, &p));

    for place in 0..4 {
        let mut p = proof.clone();
        match &mut p.proof.b {
            G2Point::Quadratic(b) => match place {
                0 => b.0 .0 = tampered(&b.0 .0),
                1 => b.0 .1 = tampered(&b.0 .1),
                2 => b.1 .0 = tampered(&b.1 .0),
                _ => b.1 .1 = tampered(&b.1 .1),
            },
            G2Point::Base(_) => panic!("a point over the base field on BLS12-377"),
        }
        assert!(!Ark::verify(Curve::Bls12_377, &keypair.vk, &p));
    }
}

#[test]
fn verify_refuses_each_tampered_coordinate_bw6_761() {
    let (keypair, proof) = prove_42::<ark_bw6_761::BW6_761>(Curve::Bw6_761);

    let mut p = proof.clone();
    p.proof.a.0 = tampered(&p.proof.a.0);
    assert!(!Ark::verify(Curve::Bw6_761, &keypair.vk, &p));

    let mut p = proof.clone();
    p.proof.c.1 = tampered(&p.proof.c.1);
    assert!(!Ark::verify(Curve::Bw6_761, &keypair.vk, &p));

    for place in 0..2 {
        let mut p = proof.clone();
        match &mut p.proof.b {
            G2Point::Base(b) => match place {
                0 => b.0 = tampered(&b.0),
                _ => b.1 = tampered(&b.1),
            },
            G2Point::Quadratic(_) => panic!("a point over an extension on BW6-761"),
        }
        assert!(!Ark::verify(Curve::Bw6_761, &keypair.vk, &p));
    }
}

#[test]
fn verify_refuses_a_point_that_is_no_field_element() {
    let (keypair, proof) = prove_42::<ark_bls12_377::Bls12_377>(Curve::Bls12_377);

    let mut p = proof.clone();
    p.proof.a.0 = p.proof.a.0[2..].to_string();
    assert!(!Ark::verify(Curve::Bls12_377, &keypair.vk, &p));

    let mut p = proof.clone();
    p.proof.a.0.push_str("00");
    assert!(!Ark::verify(Curve::Bls12_377, &keypair.vk, &p));

    let mut p = proof.clone();
    p.proof.a.1 = format!("0x80{}", &p.proof.a.1[4..]);
    assert!(!Ark::verify(Curve::Bls12_377, &keypair.vk, &p));

    let mut p = proof.clone();
    p.proof.a = G1Affine(format!("0x{}", "f".repeat(96)), format!("0x{}", "0".repeat(96)));
    assert!(!Ark::verify(Curve::Bls12_377, &keypair.vk, &p));

    let mut p = proof.clone();
    p.proof.a = G1Affine(format!("0x{}", "0".repeat(96)), format!("0x{}", "0".repeat(96)));
    assert!(!Ark::verify(Curve::Bls12_377, &keypair.vk, &p));
}

#[test]
fn verify_refuses_a_key_of_another_curve() {
    let (keypair, proof) = prove_42::<ark_bls12_377::Bls12_377>(Curve::Bls12_377);
    assert!(!Ark::verify(Curve::Bn128, &keypair.vk, &proof));
    assert!(!Ark::verify(Curve::Bw6_761, &keypair.vk, &proof));
    let (other, _) = prove_42::<ark_bls12_377::Bls12_377>(Curve::Bls12_377);
    assert!(!Ark::verify(Curve::Bls12_377, &other.vk, &proof));
}

#[test]
fn verify_reads_digits_of_either_case_in_points() {
    let (keypair, mut proof) = prove_42::<ark_bls12_377::Bls12_377>(Curve::Bls12_377);
    proof.proof.a.0 = format!("0x{}", proof.proof.a.0[2..].to_uppercase());
    assert!(Ark::verify(Curve::Bls12_377, &keypair.vk, &proof));
}

#[test]
fn setup_hands_on_the_failure_of_the_engine() {
    let keys = Ark::setup(Curve::Bn128, Err("the degree is too large".to_string()));
    assert_eq!(keys, Err(BackendError::Engine("the degree is too large".to_string())));
}

#[test]
fn setup_refuses_a_frame_that_is_no_key() {
    let keys = Ark::setup(Curve::Bn128, Ok(GeneratedKeys { vk: vec![0u8; 7], pk: vec![1, 2, 3] }));
    assert_eq!(keys, Err(BackendError::MalformedOutput));

    let on_another_curve = setup::<ark_bls12_377::Bls12_377>(Curve::Bn128, program());
    assert_eq!(on_another_curve, Err(BackendError::MalformedOutput));
}

#[test]
fn setup_keeps_the_proving_key_byte_for_byte() {
    let rng = &mut StdRng::from_entropy();
    let plan = Computation::without_witness(program()).synthesize();
    let (pk, vk) =
        GM17::<ark_bn254::Bn254>::circuit_specific_setup(Circuit { plan }, rng).unwrap();
    let mut generated = GeneratedKeys { vk: Vec::new(), pk: Vec::new() };
    vk.serialize_uncompressed(&mut generated.vk).unwrap();
    pk.serialize_uncompressed(&mut generated.pk).unwrap();
    let written = generated.pk.clone();
    let keypair = Ark::setup(Curve::Bn128, Ok(generated)).unwrap();
    assert_eq!(keypair.pk, written);
    let read = ark_gm17::ProvingKey::<ark_bn254::Bn254>::deserialize_uncompressed(
        &mut keypair.pk.as_slice(),
    )
    .unwrap();
    assert!(read == pk);
}

#[test]
fn generate_proof_needs_a_witness() {
    let computation = Computation::without_witness(program());
    let proof = Ark::generate_proof(Curve::Bn128, &computation, Ok(vec![0u8; 256]));
    assert_eq!(proof, Err(BackendError::MissingAssignment));

    let mut witness = Witness::empty();
    witness.insert(FlatVariable::new(0), FieldElement::from_u64(42));
    let computation = Computation::with_witness(program(), witness);
    let proof = Ark::generate_proof(Curve::Bn128, &computation, Ok(vec![0u8; 256]));
    assert_eq!(proof, Err(BackendError::MissingAssignment));
}

#[test]
fn generate_proof_hands_on_the_failure_of_the_engine() {
    let computation = Computation::with_witness(program(), execute(42));
    let proof = Ark::generate_proof(Curve::Bn128, &computation, Err("unsatisfied".to_string()));
    assert_eq!(proof, Err(BackendError::Engine("unsatisfied".to_string())));
}

#[test]
fn generate_proof_refuses_a_frame_that_is_no_proof() {
    let computation = Computation::with_witness(program(), execute(42));
    let proof = Ark::generate_proof(Curve::Bn128, &computation, Ok(vec![0u8; 255]));
    assert_eq!(proof, Err(BackendError::MalformedOutput));
    let flagged = Ark::generate_proof(Curve::Bn128, &computation, Ok(vec![0xffu8; 256]));
    assert_eq!(flagged, Err(BackendError::MalformedOutput));
}

#[test]
fn generate_proof_reads_a_frame_of_plain_elements() {
    let computation = Computation::with_witness(program(), execute(42));
    let proof = Ark::generate_proof(Curve::Bn128, &computation, Ok(vec![0u8; 256])).unwrap();
    assert_eq!(proof.proof.a, G1Affine(format!("0x{}", "0".repeat(64)), format!("0x{}", "0".repeat(64))));
    assert_eq!(proof.inputs.len(), 2);
}

#[test]
fn a_witness_that_does_not_satisfy_the_circuit_gives_no_valid_proof() {
    let keypair = setup::<ark_bn254::Bn254>(Curve::Bn128, program()).unwrap();
    let mut witness = Witness::empty();
    witness.insert(FlatVariable::one(), FieldElement::from_u64(1));
    witness.insert(FlatVariable::new(0), FieldElement::from_u64(42));
    witness.insert(FlatVariable::public(0), FieldElement::from_u64(43));
    match generate_proof::<ark_bn254::Bn254>(Curve::Bn128, program(), witness, keypair.pk) {
        Ok(proof) => assert!(!Ark::verify(Curve::Bn128, &keypair.vk, &proof)),
        Err(e) => assert!(matches!(e, BackendError::Engine(_))),
    }
}

fn generator_frames<E: ark_ec::PairingEngine>() -> (Vec<u8>, Vec<u8>) {
    let mut g1: Vec<u8> = Vec::new();
    E::G1Affine::prime_subgroup_generator().serialize_uncompressed(&mut g1).unwrap();
    let mut g2: Vec<u8> = Vec::new();
    E::G2Affine::prime_subgroup_generator().serialize_uncompressed(&mut g2).unwrap();
    (g1, g2)
}

fn points_of_the_groups<E: ark_ec::PairingEngine>(curve: Curve) {
    let (g1, g2) = generator_frames::<E>();
    assert_eq!(g1.len(), curve.g1_len());
    assert_eq!(g2.len(), curve.g2_len());
    assert!(is_g1(curve, &g1));
    assert!(is_g2(curve, &g2));

    let mut off_curve = g1.clone();
    off_curve[0] ^= 1;
    assert!(!is_g1(curve, &off_curve));
    let mut off_curve = g2.clone();
    off_curve[0] ^= 1;
    assert!(!is_g2(curve, &off_curve));

    assert!(!is_g1(curve, &g1[1..]));
    assert!(!is_g2(curve, &g2[1..]));
    assert!(!is_g1(curve, &[]));
    assert!(!is_g2(curve, &[]));
    assert!(!is_g1(curve, &vec![0xffu8; curve.g1_len()]));
    assert!(!is_g2(curve, &vec![0xffu8; curve.g2_len()]));
    let mut one_one = vec![0u8; curve.g1_len()];
    one_one[0] = 1;
    one_one[curve.base_len()] = 1;
    assert!(!is_g1(curve, &one_one));
}

#[test]
fn the_engine_tells_the_points_of_its_groups() {
    points_of_the_groups::<ark_bn254::Bn254>(Curve::Bn128);
    points_of_the_groups::<ark_bls12_377::Bls12_377>(Curve::Bls12_377);
    points_of_the_groups::<ark_bw6_761::BW6_761>(Curve::Bw6_761);
}

#[test]
fn a_point_of_the_first_group_is_none_of_the_second() {
    let (g1, g2) = generator_frames::<ark_bw6_761::BW6_761>();
    assert_eq!(g1.len(), g2.len());
    assert!(!is_g2(Curve::Bw6_761, &g1));
    assert!(!is_g1(Curve::Bw6_761, &g2));
}

fn frames_of_a_setup<E: ark_ec::PairingEngine>(curve: Curve) {
    let (keypair, proof) = prove_42::<E>(curve);
    let key = keypair.vk.to_frame(curve).unwrap();
    let points = proof.proof.to_frame(curve).unwrap();
    assert!(check_key_frame(curve, &key));
    assert!(check_proof_frame(curve, &points));

    assert!(!check_key_frame(curve, &key[..key.len() - 1]));
    assert!(!check_key_frame(curve, &points));
    assert!(!check_proof_frame(curve, &key));
    assert!(!check_proof_frame(curve, &points[..points.len() - 1]));
    assert!(!check_key_frame(curve, &[]));
    assert!(!check_proof_frame(curve, &[]));

    for at in [0, curve.g2_len(), key.len() - 1] {
        let mut broken = key.clone();
        broken[at] ^= 1;
        assert!(!check_key_frame(curve, &broken));
    }
    for at in [0, curve.g1_len(), points.len() - 1] {
        let mut broken = points.clone();
        broken[at] ^= 1;
        assert!(!check_proof_frame(curve, &broken));
    }
}

#[test]
fn the_frames_of_a_setup_hold_points_of_their_groups() {
    frames_of_a_setup::<ark_bn254::Bn254>(Curve::Bn128);
    frames_of_a_setup::<ark_bls12_377::Bls12_377>(Curve::Bls12_377);
    frames_of_a_setup::<ark_bw6_761::BW6_761>(Curve::Bw6_761);
}

#[test]
fn the_key_is_handed_to_the_engine_as_the_engine_wrote_it() {
    let rng = &mut StdRng::from_entropy();
    let plan = Computation::without_witness(program()).synthesize();
    let (pk, vk) =
        GM17::<ark_bw6_761::BW6_761>::circuit_specific_setup(Circuit { plan }, rng).unwrap();
    let mut generated = GeneratedKeys { vk: Vec::new(), pk: Vec::new() };
    vk.serialize_uncompressed(&mut generated.vk).unwrap();
    pk.serialize_uncompressed(&mut generated.pk).unwrap();
    let written = generated.vk.clone();
    let keypair = Ark::setup(Curve::Bw6_761, Ok(generated)).unwrap();
    assert_eq!(keypair.vk.to_frame(Curve::Bw6_761), Some(written));
}

#[test]
fn inputs_are_read_one_by_one() {
    assert_eq!(to_inputs(&vec![]), Some(vec![]));
    assert_eq!(
        to_inputs(&vec!["0x2a".to_string(), "1".to_string(), "0xFFff".to_string()]),
        Some(vec![vec![0x2a], vec![0x01], vec![0xff, 0xff]])
    );
    assert_eq!(to_inputs(&vec!["0x2a".to_string(), "".to_string()]), None);
    assert_eq!(to_inputs(&vec!["zz".to_string(), "0x2a".to_string()]), None);
}

#[test]
fn inputs_are_written_one_by_one() {
    assert_eq!(inputs_text(Curve::Bn128, &vec![]), Vec::<String>::new());
    assert_eq!(
        inputs_text(
            Curve::Bw6_761,
            &vec![FieldElement::from_u64(1), FieldElement::from_be_bytes(vec![0xab, 0xcd])]
        ),
        vec![format!("0x{}01", "0".repeat(94)), format!("0x{}abcd", "0".repeat(92))]
    );
}
