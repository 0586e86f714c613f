use zokrates_proof_system::computation::{Computation, Entry, Row, Wire};
use zokrates_proof_system::ir::{
    FieldElement, FlatParameter, FlatVariable, LinComb, Prog, QuadComb, Statement, Term,
    Witness,
};

fn n(value: u64) -> FieldElement {
    FieldElement::from_u64(value)
}

fn term(variable: FlatVariable, coefficient: u64) -> Term {
    Term { variable, coefficient: n(coefficient) }
}

fn entry(wire: usize, coefficient: u64) -> Entry {
    Entry { wire, coefficient: n(coefficient) }
}

/// `x * y == ~out_0` and `(2 x + 3 w) * 1 == 5 y`, with `x` public and `y`
/// private arguments and `w` an inner variable.
fn program() -> Prog {
    let x = FlatVariable::new(0);
    let y = FlatVariable::new(1);
    let w = FlatVariable::new(2);
    Prog::new(
        vec![FlatParameter::public(x), FlatParameter::private(y)],
        vec![
            Statement::constraint(
                QuadComb::from_linear(LinComb::from_variable(x), LinComb::from_variable(y)),
                LinComb::from_variable(FlatVariable::public(0)),
            ),
            Statement::constraint(
                QuadComb::from_linear(LinComb(vec![term(x, 2), term(w, 3)]), LinComb::one()),
                LinComb(vec![term(y, 5)]),
            ),
        ],
        1,
    )
}

fn witness() -> Witness {
    let mut witness = Witness::empty();
    witness.insert(FlatVariable::one(), n(1));
    witness.insert(FlatVariable::new(0), n(6));
    witness.insert(FlatVariable::new(1), n(3));
    witness.insert(FlatVariable::new(2), n(1));
    witness.insert(FlatVariable::public(0), n(18));
    witness
}

#[test]
fn variables_are_told_apart() {
    assert_eq!(FlatVariable::one(), FlatVariable::One);
    assert_eq!(FlatVariable::new(4), FlatVariable::Private(4));
    assert_eq!(FlatVariable::public(4), FlatVariable::Public(4));
    assert!(FlatVariable::public(0).is_output());
    assert!(!FlatVariable::new(0).is_output());
    assert!(!FlatVariable::one().is_output());
    assert!(!FlatParameter::public(FlatVariable::new(0)).private);
    assert!(FlatParameter::private(FlatVariable::new(0)).private);
}

#[test]
fn combinations_from_a_variable() {
    let v = FlatVariable::new(7);
    assert_eq!(LinComb::from_variable(v), LinComb(vec![term(v, 1)]));
    assert_eq!(LinComb::one(), LinComb(vec![term(FlatVariable::One, 1)]));
    let q = QuadComb::from_variable(v);
    assert_eq!(q.left, LinComb::from_variable(v));
    assert_eq!(q.right, LinComb::one());
}

#[test]
fn the_first_value_of_a_variable_counts() {
    let mut witness = Witness::empty();
    assert_eq!(witness.get(FlatVariable::new(0)), None);
    witness.insert(FlatVariable::new(0), n(1));
    witness.insert(FlatVariable::new(1), n(2));
    witness.insert(FlatVariable::new(0), n(3));
    assert_eq!(witness.get(FlatVariable::new(0)), Some(&n(1)));
    assert_eq!(witness.get(FlatVariable::new(1)), Some(&n(2)));
    assert_eq!(witness.get(FlatVariable::public(0)), None);
    assert_eq!(witness.get(FlatVariable::one()), None);
}

#[test]
fn public_inputs_are_the_public_arguments_then_the_outputs() {
    let computation = Computation::with_witness(program(), witness());
    assert_eq!(computation.public_inputs_values(), Some(vec![n(6), n(18)]));
}

#[test]
fn public_inputs_keep_the_declared_order() {
    let a = FlatVariable::new(5);
    let b = FlatVariable::new(2);
    let c = FlatVariable::new(9);
    let program = Prog::new(
        vec![FlatParameter::public(a), FlatParameter::private(b), FlatParameter::public(c)],
        vec![],
        2,
    );
    let mut witness = Witness::empty();
    witness.insert(FlatVariable::public(1), n(41));
    witness.insert(c, n(30));
    witness.insert(b, n(20));
    witness.insert(a, n(10));
    witness.insert(FlatVariable::public(0), n(40));
    let computation = Computation::with_witness(program, witness);
    assert_eq!(computation.public_inputs_values(), Some(vec![n(10), n(30), n(40), n(41)]));
}

#[test]
fn public_inputs_need_every_value() {
    assert_eq!(Computation::without_witness(program()).public_inputs_values(), None);

    let mut no_output = Witness::empty();
    no_output.insert(FlatVariable::new(0), n(6));
    assert_eq!(Computation::with_witness(program(), no_output).public_inputs_values(), None);

    let mut no_argument = Witness::empty();
    no_argument.insert(FlatVariable::public(0), n(18));
    assert_eq!(Computation::with_witness(program(), no_argument).public_inputs_values(), None);

    let mut only_public = Witness::empty();
    only_public.insert(FlatVariable::new(0), n(6));
    only_public.insert(FlatVariable::public(0), n(18));
    assert_eq!(
        Computation::with_witness(program(), only_public).public_inputs_values(),
        Some(vec![n(6), n(18)])
    );

    let empty = Prog::new(vec![], vec![], 0);
    assert_eq!(
        Computation::with_witness(empty, Witness::empty()).public_inputs_values(),
        Some(vec![])
    );
}

#[test]
fn synthesis_gives_each_variable_one_wire_in_the_order_of_first_mention() {
    let plan = Computation::with_witness(program(), witness()).synthesize();
    assert_eq!(
        plan.wires,
        vec![
            Wire { variable: FlatVariable::One, public: false, value: Some(n(1)) },
            Wire { variable: FlatVariable::new(0), public: true, value: Some(n(6)) },
            Wire { variable: FlatVariable::new(1), public: false, value: Some(n(3)) },
            Wire { variable: FlatVariable::public(0), public: true, value: Some(n(18)) },
            Wire { variable: FlatVariable::new(2), public: false, value: Some(n(1)) },
        ]
    );
    assert_eq!(
        plan.rows,
        vec![
            Row { a: vec![entry(1, 1)], b: vec![entry(2, 1)], c: vec![entry(3, 1)] },
            Row {
                a: vec![entry(1, 2), entry(4, 3)],
                b: vec![entry(0, 1)],
                c: vec![entry(2, 5)],
            },
        ]
    );
}

#[test]
fn synthesis_without_a_witness_leaves_the_values_open() {
    let plan = Computation::without_witness(program()).synthesize();
    assert_eq!(plan.wires.len(), 5);
    assert!(plan.wires.iter().all(|w| w.value.is_none()));
    assert_eq!(plan.rows.len(), 2);
    let with = Computation::with_witness(program(), witness()).synthesize();
    assert_eq!(plan.rows, with.rows);
}

#[test]
fn synthesis_with_a_partial_witness_leaves_the_missing_values_open() {
    let mut partial = Witness::empty();
    partial.insert(FlatVariable::new(1), n(3));
    let plan = Computation::with_witness(program(), partial).synthesize();
    assert_eq!(plan.wires[1].value, None);
    assert_eq!(plan.wires[2].value, Some(n(3)));
}

#[test]
fn synthesis_of_the_empty_circuit_has_the_constant_wire_only() {
    let plan = Computation::without_witness(Prog::new(vec![], vec![], 0)).synthesize();
    assert_eq!(plan.wires, vec![Wire { variable: FlatVariable::One, public: false, value: None }]);
    assert!(plan.rows.is_empty());
}

#[test]
fn synthesis_goes_by_the_first_declaration_of_an_argument() {
    let v = FlatVariable::new(0);
    let program = Prog::new(
        vec![FlatParameter::private(v), FlatParameter::public(v)],
        vec![Statement::constraint(
            QuadComb::from_variable(v),
            LinComb(vec![term(FlatVariable::public(3), 1), term(v, 1), term(v, 2)]),
        )],
        4,
    );
    let plan = Computation::without_witness(program).synthesize();
    assert_eq!(
        plan.wires,
        vec![
            Wire { variable: FlatVariable::One, public: false, value: None },
            Wire { variable: v, public: false, value: None },
            Wire { variable: FlatVariable::public(3), public: true, value: None },
        ]
    );
    assert_eq!(
        plan.rows,
        vec![Row {
            a: vec![entry(1, 1)],
            b: vec![entry(0, 1)],
            c: vec![entry(2, 1), entry(1, 1), entry(1, 2)],
        }]
    );
}
