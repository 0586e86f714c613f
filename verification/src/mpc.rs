//! Checking the outcome of a multi-party parameter ceremony against a
//! circuit.
//!
//! The work outside this library comes in three steps: reading the compiled
//! circuit, loading the ceremony's parameters, and having the transcript
//! checked against the circuit. [`step`] decides after each of them what is
//! done next; the caller does it and comes back with what happened.

use crate::hexstr;
use crate::hexstr::{digit_char, encoded};
use vstd::prelude::*;
use vstd::string::*;

verus! {

/// Bytes of a contribution hash.
pub const HASH_LEN: usize = 32;

/// The digest that identifies one round of a ceremony.
#[derive(Clone, Copy, Debug, PartialEq, Eq)]
pub struct ContributionHash(pub [u8; 32]);

impl View for ContributionHash {
    type V = Seq<u8>;

    open spec fn view(&self) -> Seq<u8> {
        self.0@
    }
}

impl ContributionHash {
    /// The hash that `bytes` holds: none unless there are exactly as many
    /// bytes as a hash has.
    pub fn from_slice(bytes: &[u8]) -> (hash: Option<ContributionHash>)
        ensures
            match hash {
                Some(h) => h@ == bytes@,
                None => bytes@.len() != HASH_LEN,
            },
    {
        if bytes.len() != HASH_LEN {
            return None;
        }
        let mut out: [u8; 32] = [0u8; 32];
        let mut i: usize = 0;
        while i < HASH_LEN
            invariant
                i <= HASH_LEN,
                bytes@.len() == HASH_LEN,
                out@.len() == HASH_LEN,
                forall|k: int| 0 <= k < i ==> out@[k] == bytes@[k],
            decreases HASH_LEN - i,
        {
            out.set(i, bytes[i]);
            i = i + 1;
        }
        assert(out@ =~= bytes@);
        Some(ContributionHash(out))
    }

    /// The hash as text: two lower-case digits per byte.
    pub fn to_hex(&self) -> (text: String)
        ensures
            text@ == encoded(self@),
            text@.len() == 2 * HASH_LEN,
    {
        hexstr::encode(self.0.as_slice())
    }
}

/// The field that a compiled circuit is tagged with.
#[derive(Clone, Copy, Debug, PartialEq, Eq, Structural)]
pub enum FieldTag {
    Bn128,
    Bls12_381,
    Bls12_377,
    Bw6_761,
}

impl FieldTag {
    /// Whether ceremonies are held over this field: only over the field of
    /// the default proving curve.
    pub open spec fn spec_has_ceremony(self) -> bool {
        self == FieldTag::Bn128
    }

    /// Whether ceremonies are held over this field.
    #[verifier::when_used_as_spec(spec_has_ceremony)]
    pub fn has_ceremony(self) -> (b: bool)
        ensures
            b == self.spec_has_ceremony(),
    {
        match self {
            FieldTag::Bn128 => true,
            _ => false,
        }
    }

    /// The name of the field.
    pub fn name(self) -> (text: String)
        ensures
            text@ == match self {
                FieldTag::Bn128 => "bn128"@,
                FieldTag::Bls12_381 => "bls12_381"@,
                FieldTag::Bls12_377 => "bls12_377"@,
                FieldTag::Bw6_761 => "bw6_761"@,
            },
    {
        match self {
            FieldTag::Bn128 => String::from_str("bn128"),
            FieldTag::Bls12_381 => String::from_str("bls12_381"),
            FieldTag::Bls12_377 => String::from_str("bls12_377"),
            FieldTag::Bw6_761 => String::from_str("bw6_761"),
        }
    }
}

/// Why a verification ended without a report.
#[derive(Clone, Debug, PartialEq, Eq)]
pub enum MpcError {
    /// A file could not be opened.
    Open { path: String, cause: String },
    /// The compiled circuit could not be read; the reader's message.
    Circuit(String),
    /// The compiled circuit is over a field for which no ceremony is held.
    UnsupportedField(FieldTag),
    /// The parameters could not be read.
    Parameters { path: String, cause: String },
    /// The transcript does not fit the circuit, or does not hold together.
    VerificationFailed,
    /// The caller reported something that was not asked for.
    OutOfTurn,
}

impl MpcError {
    /// The error as the operator reads it.
    pub open spec fn message_text(&self) -> Seq<char> {
        match self {
            MpcError::Open { path, cause } => "Could not open `"@ + path@ + "`: "@ + cause@,
            MpcError::Circuit(message) => message@,
            MpcError::UnsupportedField(FieldTag::Bn128) => "Unsupported field: "@ + "bn128"@,
            MpcError::UnsupportedField(FieldTag::Bls12_381) => "Unsupported field: "@
                + "bls12_381"@,
            MpcError::UnsupportedField(FieldTag::Bls12_377) => "Unsupported field: "@
                + "bls12_377"@,
            MpcError::UnsupportedField(FieldTag::Bw6_761) => "Unsupported field: "@ + "bw6_761"@,
            MpcError::Parameters { path, cause } => "Could not read `"@ + path@ + "`: "@ + cause@,
            MpcError::VerificationFailed => "Verification failed"@,
            MpcError::OutOfTurn => "Unexpected event"@,
        }
    }

    /// Writes the error as the operator reads it. A failed verification is
    /// reported without its cause.
    pub fn message(&self) -> (text: String)
        ensures
            text@ == self.message_text(),
    {
        match self {
            MpcError::Open { path, cause } => String::from_str("Could not open `").concat(
                path.as_str(),
            ).concat("`: ").concat(cause.as_str()),
            MpcError::Circuit(message) => message.clone(),
            MpcError::UnsupportedField(field) => String::from_str("Unsupported field: ").concat(
                field.name().as_str(),
            ),
            MpcError::Parameters { path, cause } => String::from_str("Could not read `").concat(
                path.as_str(),
            ).concat("`: ").concat(cause.as_str()),
            MpcError::VerificationFailed => String::from_str("Verification failed"),
            MpcError::OutOfTurn => String::from_str("Unexpected event"),
        }
    }
}

/// How far a verification has come.
#[derive(Clone, Copy, Debug, PartialEq, Eq, Structural)]
pub enum Stage {
    /// Nothing was asked for yet.
    Idle,
    /// The compiled circuit is being read.
    Circuit,
    /// The parameters are being loaded.
    Parameters,
    /// The transcript is being checked against the circuit.
    Verification,
    /// The verification has ended.
    Done,
}

/// What the caller reports.
#[derive(Clone, Debug, PartialEq, Eq)]
pub enum Event {
    /// The verification is to begin.
    Started,
    /// The file at `path` could not be opened.
    OpenFailed { path: String, cause: String },
    /// The compiled circuit could not be read.
    CircuitInvalid { cause: String },
    /// The compiled circuit was read; it is over `field`.
    CircuitLoaded { field: FieldTag },
    /// The parameters at `path` could not be read.
    ParametersInvalid { path: String, cause: String },
    /// The parameters were loaded and hold together.
    ParametersLoaded,
    /// The transcript fits the circuit; the hashes of its contributions, in
    /// the order of the ceremony.
    Verified { hashes: Vec<ContributionHash> },
    /// The transcript was refused.
    Rejected,
}

/// What the caller is to do next.
#[derive(Clone, Debug, PartialEq, Eq)]
pub enum Action {
    /// Open and read the compiled circuit.
    ReadCircuit,
    /// Announce the verification, then open and load the parameters, with
    /// their own check switched on.
    LoadParameters,
    /// Build the circuit without a witness and have the transcript checked
    /// against it, with the directory of the randomness beacon.
    Verify,
    /// Show the hashes and end with success.
    Report(Vec<ContributionHash>),
    /// End with the error.
    Fail(MpcError),
}

/// What follows `event` at `stage`.
pub open spec fn next(stage: Stage, event: Event) -> (Stage, Action) {
    match (stage, event) {
        (Stage::Idle, Event::Started) => (Stage::Circuit, Action::ReadCircuit),
        (Stage::Circuit, Event::OpenFailed { path, cause }) => (
            Stage::Done,
            Action::Fail(MpcError::Open { path, cause }),
        ),
        (Stage::Circuit, Event::CircuitInvalid { cause }) => (
            Stage::Done,
            Action::Fail(MpcError::Circuit(cause)),
        ),
        (Stage::Circuit, Event::CircuitLoaded { field }) => if field.has_ceremony() {
            (Stage::Parameters, Action::LoadParameters)
        } else {
            (Stage::Done, Action::Fail(MpcError::UnsupportedField(field)))
        },
        (Stage::Parameters, Event::OpenFailed { path, cause }) => (
            Stage::Done,
            Action::Fail(MpcError::Open { path, cause }),
        ),
        (Stage::Parameters, Event::ParametersInvalid { path, cause }) => (
            Stage::Done,
            Action::Fail(MpcError::Parameters { path, cause }),
        ),
        (Stage::Parameters, Event::ParametersLoaded) => (Stage::Verification, Action::Verify),
        (Stage::Verification, Event::Verified { hashes }) => (Stage::Done, Action::Report(hashes)),
        (Stage::Verification, Event::Rejected) => (
            Stage::Done,
            Action::Fail(MpcError::VerificationFailed),
        ),
        _ => (Stage::Done, Action::Fail(MpcError::OutOfTurn)),
    }
}

/// Decides what is done after `event` at `stage`.
pub fn step(stage: Stage, event: Event) -> (out: (Stage, Action))
    ensures
        out == next(stage, event),
{
    match (stage, event) {
        (Stage::Idle, Event::Started) => (Stage::Circuit, Action::ReadCircuit),
        (Stage::Circuit, Event::OpenFailed { path, cause }) => (
            Stage::Done,
            Action::Fail(MpcError::Open { path, cause }),
        ),
        (Stage::Circuit, Event::CircuitInvalid { cause }) => (
            Stage::Done,
            Action::Fail(MpcError::Circuit(cause)),
        ),
        (Stage::Circuit, Event::CircuitLoaded { field }) => if field.has_ceremony() {
            (Stage::Parameters, Action::LoadParameters)
        } else {
            (Stage::Done, Action::Fail(MpcError::UnsupportedField(field)))
        },
        (Stage::Parameters, Event::OpenFailed { path, cause }) => (
            Stage::Done,
            Action::Fail(MpcError::Open { path, cause }),
        ),
        (Stage::Parameters, Event::ParametersInvalid { path, cause }) => (
            Stage::Done,
            Action::Fail(MpcError::Parameters { path, cause }),
        ),
        (Stage::Parameters, Event::ParametersLoaded) => (Stage::Verification, Action::Verify),
        (Stage::Verification, Event::Verified { hashes }) => (Stage::Done, Action::Report(hashes)),
        (Stage::Verification, Event::Rejected) => (
            Stage::Done,
            Action::Fail(MpcError::VerificationFailed),
        ),
        _ => (Stage::Done, Action::Fail(MpcError::OutOfTurn)),
    }
}

/// The line that announces a verification.
pub fn announcement() -> (text: String)
    ensures
        text@ == "Verifying contributions..."@,
{
    String::from_str("Verifying contributions...")
}

/// The digits of `n` in base ten, without leading zeros.
pub open spec fn decimal(n: nat) -> Seq<char>
    decreases n,
{
    if n < 10 {
        seq![digit_char(n as int)]
    } else {
        decimal(n / 10).push(digit_char((n % 10) as int))
    }
}

fn decimal_digit(d: usize) -> (text: &'static str)
    requires
        d < 10,
    ensures
        text@ == seq![digit_char(d as int)],
{
    proof {
        reveal_strlit("0");
        reveal_strlit("1");
        reveal_strlit("2");
        reveal_strlit("3");
        reveal_strlit("4");
        reveal_strlit("5");
        reveal_strlit("6");
        reveal_strlit("7");
        reveal_strlit("8");
        reveal_strlit("9");
    }
    let text: &'static str = if d == 0 {
        "0"
    } else if d == 1 {
        "1"
    } else if d == 2 {
        "2"
    } else if d == 3 {
        "3"
    } else if d == 4 {
        "4"
    } else if d == 5 {
        "5"
    } else if d == 6 {
        "6"
    } else if d == 7 {
        "7"
    } else if d == 8 {
        "8"
    } else {
        "9"
    };
    assert(text@ =~= seq![digit_char(d as int)]);
    text
}

/// Writes `n` in base ten.
pub fn to_decimal(n: usize) -> (text: String)
    ensures
        text@ == decimal(n as nat),
{
    let mut text: String = String::from_str(decimal_digit(n % 10));
    let mut rest: usize = n / 10;
    while rest > 0
        invariant
            decimal(n as nat) == if rest > 0 {
                decimal(rest as nat) + text@
            } else {
                text@
            },
        decreases rest,
    {
        let digit: &'static str = decimal_digit(rest % 10);
        proof {
            let d = seq![digit_char((rest % 10) as int)];
            if rest >= 10 {
                assert(decimal(rest as nat) =~= decimal((rest / 10) as nat) + d);
                assert(decimal(rest as nat) + text@ =~= decimal((rest / 10) as nat) + (d + text@));
            } else {
                assert(decimal(rest as nat) =~= d);
            }
        }
        text = String::from_str(digit).concat(text.as_str());
        rest = rest / 10;
    }
    text
}

/// The line that shows the `index`-th contribution.
pub open spec fn contribution_line(index: nat, hash: Seq<u8>) -> Seq<char> {
    decimal(index) + ": "@ + encoded(hash)
}

/// The report of a verified transcript: a heading, one line for each
/// contribution in the order of the ceremony, and a closing line.
pub open spec fn report_lines(hashes: Seq<ContributionHash>) -> Seq<Seq<char>> {
    seq!["\nContributions:"@] + Seq::new(
        hashes.len(),
        |i: int| contribution_line(i as nat, hashes[i]@),
    ) + seq!["\nContributions verified"@]
}

/// Writes the report of a verified transcript, line by line.
pub fn report(hashes: &Vec<ContributionHash>) -> (lines: Vec<String>)
    ensures
        Seq::new(lines@.len(), |i: int| lines@[i]@) == report_lines(hashes@),
        lines@.len() == hashes@.len() + 2,
{
    let mut lines: Vec<String> = Vec::new();
    lines.push(String::from_str("\nContributions:"));
    let mut i: usize = 0;
    while i < hashes.len()
        invariant
            i <= hashes@.len(),
            lines@.len() == i + 1,
            lines@[0]@ == "\nContributions:"@,
            forall|k: int|
                0 <= k < i ==> (#[trigger] lines@[k + 1])@ == contribution_line(
                    k as nat,
                    hashes@[k]@,
                ),
        decreases hashes@.len() - i,
    {
        let line: String = to_decimal(i).concat(": ").concat(hashes[i].to_hex().as_str());
        lines.push(line);
        i = i + 1;
    }
    let ghost body = lines@;
    lines.push(String::from_str("\nContributions verified"));
    proof {
        let shown = Seq::new(lines@.len(), |i: int| lines@[i]@);
        let expected = report_lines(hashes@);
        assert(shown.len() == expected.len());
        assert forall|k: int| 0 <= k < shown.len() implies shown[k] == expected[k] by {
            if k == 0 {
                assert(lines@[0] == body[0]);
            } else if k <= hashes@.len() {
                assert(lines@[k] == body[(k - 1) + 1]);
                assert(body[(k - 1) + 1]@ == contribution_line((k - 1) as nat, hashes@[k - 1]@));
            } else {
            }
        }
        assert(shown =~= expected);
    }
    lines
}

/// Hashes are shown only for a transcript that was checked: a report follows
/// nothing but the success of the verification itself, and shows the hashes
/// as they came.
pub proof fn lemma_report_follows_verification(stage: Stage, event: Event)
    ensures
        next(stage, event).1 matches Action::Report(shown) ==> stage == Stage::Verification
            && event == (Event::Verified { hashes: shown }),
{
}

/// A verification ends with its first failure and with its report, and with
/// nothing else.
pub proof fn lemma_end_of_verification(stage: Stage, event: Event)
    ensures
        next(stage, event).0 == Stage::Done <==> (next(stage, event).1 is Fail || next(
            stage,
            event,
        ).1 is Report),
{
}

/// The transcript is checked only against a circuit over the field of the
/// ceremony, and only once the parameters were loaded.
pub proof fn lemma_verification_follows_loading(stage: Stage, event: Event)
    ensures
        next(stage, event).1 is Verify ==> stage == Stage::Parameters && event
            == Event::ParametersLoaded,
        next(stage, event).1 is LoadParameters ==> stage == Stage::Circuit && event == (
            Event::CircuitLoaded { field: FieldTag::Bn128 }
        ),
{
}

} // verus!
