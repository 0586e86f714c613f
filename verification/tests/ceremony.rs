use zokrates_proof_system::mpc::{
    announcement, report, step, to_decimal, Action, ContributionHash, Event, FieldTag, MpcError,
    Stage, HASH_LEN,
};

fn hash(first: u8) -> ContributionHash {
    let mut bytes = [0u8; 32];
    for (i, b) in bytes.iter_mut().enumerate() {
        *b = first.wrapping_add(i as u8);
    }
    ContributionHash(bytes)
}

/// Runs the pipeline on what the caller would report, and returns how it
/// ended.
fn run(events: Vec<Event>) -> (Stage, Vec<Action>) {
    let mut stage = Stage::Idle;
    let mut actions = Vec::new();
    for event in events {
        let (next, action) = step(stage, event);
        stage = next;
        actions.push(action);
    }
    (stage, actions)
}

#[test]
fn a_matching_transcript_is_reported() {
    let hashes = vec![hash(1), hash(2), hash(3)];
    let (stage, actions) = run(vec![
        Event::Started,
        Event::CircuitLoaded { field: FieldTag::Bn128 },
        Event::ParametersLoaded,
        Event::Verified { hashes: hashes.clone() },
    ]);
    assert_eq!(stage, Stage::Done);
    assert_eq!(
        actions,
        vec![Action::ReadCircuit, Action::LoadParameters, Action::Verify, Action::Report(hashes.clone())]
    );
    let lines = report(&hashes);
    assert_eq!(lines.len(), 5);
    assert_eq!(lines[0], "\nContributions:");
    assert_eq!(lines[1], "0: 0102030405060708090a0b0c0d0e0f101112131415161718191a1b1c1d1e1f20");
    assert_eq!(lines[2], "1: 02030405060708090a0b0c0d0e0f101112131415161718191a1b1c1d1e1f2021");
    assert_eq!(lines[3], "2: 030405060708090a0b0c0d0e0f101112131415161718191a1b1c1d1e1f202122");
    assert_eq!(lines[4], "\nContributions verified");
}

#[test]
fn a_transcript_for_another_circuit_fails_without_a_cause() {
    let (stage, actions) = run(vec![
        Event::Started,
        Event::CircuitLoaded { field: FieldTag::Bn128 },
        Event::ParametersLoaded,
        Event::Rejected,
    ]);
    assert_eq!(stage, Stage::Done);
    assert_eq!(actions[3], Action::Fail(MpcError::VerificationFailed));
    assert_eq!(MpcError::VerificationFailed.message(), "Verification failed");
}

#[test]
fn a_circuit_over_another_field_is_refused_by_its_tag() {
    for field in [FieldTag::Bls12_381, FieldTag::Bls12_377, FieldTag::Bw6_761] {
        assert!(!field.has_ceremony());
        assert_eq!(
            step(Stage::Circuit, Event::CircuitLoaded { field }),
            (Stage::Done, Action::Fail(MpcError::UnsupportedField(field)))
        );
    }
    assert!(FieldTag::Bn128.has_ceremony());
    assert_eq!(
        MpcError::UnsupportedField(FieldTag::Bls12_377).message(),
        "Unsupported field: bls12_377"
    );
    assert_eq!(MpcError::UnsupportedField(FieldTag::Bn128).message(), "Unsupported field: bn128");
    assert_eq!(
        MpcError::UnsupportedField(FieldTag::Bls12_381).message(),
        "Unsupported field: bls12_381"
    );
    assert_eq!(MpcError::UnsupportedField(FieldTag::Bw6_761).message(), "Unsupported field: bw6_761");
    assert_eq!(FieldTag::Bn128.name(), "bn128");
}

#[test]
fn a_file_that_cannot_be_opened_is_named_with_the_cause() {
    let failed = |path: &str| Event::OpenFailed {
        path: path.to_string(),
        cause: "No such file or directory (os error 2)".to_string(),
    };
    let error = MpcError::Open {
        path: "out".to_string(),
        cause: "No such file or directory (os error 2)".to_string(),
    };
    assert_eq!(step(Stage::Circuit, failed("out")), (Stage::Done, Action::Fail(error.clone())));
    assert_eq!(step(Stage::Parameters, failed("out")), (Stage::Done, Action::Fail(error.clone())));
    assert_eq!(
        error.message(),
        "Could not open `out`: No such file or directory (os error 2)"
    );
}

#[test]
fn a_circuit_that_cannot_be_read_hands_on_the_message() {
    let (stage, action) =
        step(Stage::Circuit, Event::CircuitInvalid { cause: "Wrong magic number".to_string() });
    assert_eq!(stage, Stage::Done);
    assert_eq!(action, Action::Fail(MpcError::Circuit("Wrong magic number".to_string())));
    assert_eq!(MpcError::Circuit("Wrong magic number".to_string()).message(), "Wrong magic number");
}

#[test]
fn parameters_that_cannot_be_read_are_named_with_the_cause() {
    let (stage, action) = step(
        Stage::Parameters,
        Event::ParametersInvalid { path: "mpc.params".to_string(), cause: "short".to_string() },
    );
    assert_eq!(stage, Stage::Done);
    let error =
        MpcError::Parameters { path: "mpc.params".to_string(), cause: "short".to_string() };
    assert_eq!(action, Action::Fail(error.clone()));
    assert_eq!(error.message(), "Could not read `mpc.params`: short");
}

#[test]
fn an_event_out_of_turn_ends_the_verification() {
    let out_of_turn = (Stage::Done, Action::Fail(MpcError::OutOfTurn));
    assert_eq!(step(Stage::Idle, Event::ParametersLoaded), out_of_turn);
    assert_eq!(step(Stage::Idle, Event::Verified { hashes: vec![hash(1)] }), out_of_turn);
    assert_eq!(step(Stage::Circuit, Event::Started), out_of_turn);
    assert_eq!(step(Stage::Circuit, Event::Verified { hashes: vec![] }), out_of_turn);
    assert_eq!(step(Stage::Parameters, Event::Rejected), out_of_turn);
    assert_eq!(
        step(Stage::Parameters, Event::CircuitLoaded { field: FieldTag::Bn128 }),
        out_of_turn
    );
    assert_eq!(step(Stage::Verification, Event::ParametersLoaded), out_of_turn);
    assert_eq!(
        step(
            Stage::Verification,
            Event::OpenFailed { path: "a".to_string(), cause: "b".to_string() }
        ),
        out_of_turn
    );
    assert_eq!(step(Stage::Done, Event::Started), out_of_turn);
    assert_eq!(step(Stage::Done, Event::Rejected), out_of_turn);
    assert_eq!(MpcError::OutOfTurn.message(), "Unexpected event");
}

#[test]
fn the_report_of_no_contribution_has_the_two_framing_lines() {
    assert_eq!(report(&vec![]), vec!["\nContributions:", "\nContributions verified"]);
}

#[test]
fn the_report_numbers_the_contributions_in_base_ten() {
    let hashes: Vec<ContributionHash> = (0..12).map(|i| hash(i as u8)).collect();
    let lines = report(&hashes);
    assert_eq!(lines.len(), 14);
    for (i, h) in hashes.iter().enumerate() {
        assert_eq!(lines[i + 1], format!("{}: {}", i, h.to_hex()));
        assert_eq!(h.to_hex().len(), 2 * HASH_LEN);
    }
    assert!(lines[11].starts_with("10: "));
    assert!(lines[12].starts_with("11: "));
}

#[test]
fn numbers_in_base_ten() {
    assert_eq!(to_decimal(0), "0");
    assert_eq!(to_decimal(7), "7");
    assert_eq!(to_decimal(10), "10");
    assert_eq!(to_decimal(105), "105");
    assert_eq!(to_decimal(1234567890), "1234567890");
    assert_eq!(to_decimal(usize::MAX), usize::MAX.to_string());
}

#[test]
fn a_hash_has_thirty_two_bytes() {
    assert_eq!(HASH_LEN, 32);
    let bytes: Vec<u8> = (0..32).collect();
    assert_eq!(ContributionHash::from_slice(&bytes).map(|h| h.0.to_vec()), Some(bytes.clone()));
    assert_eq!(ContributionHash::from_slice(&bytes[..31]), None);
    assert_eq!(ContributionHash::from_slice(&[bytes.clone(), vec![0]].concat()), None);
    assert_eq!(ContributionHash::from_slice(&[0u8; 64]), None);
    assert_eq!(ContributionHash::from_slice(&[]), None);
    assert_eq!(
        ContributionHash([0xab; 32]).to_hex(),
        "abababababababababababababababababababababababababababababababab"
    );
}

#[test]
fn the_announcement() {
    assert_eq!(announcement(), "Verifying contributions...");
}
