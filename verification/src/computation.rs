//! A circuit made ready for the proving engine, with or without a witness.
//!
//! The engine asks for the constraints of a circuit over its own variables,
//! which this library calls wires. [`Computation::synthesize`] decides which
//! wire stands for which variable and writes every constraint over wires; the
//! caller hands the plan to the engine, wire by wire and row by row.

use crate::ir::{
    Assignment, FieldElement, FlatParameter, FlatVariable, LinComb, Prog, Statement, Term,
    Witness,
};
use vstd::prelude::*;

verus! {

/// The variables of the arguments that are not private, in declared order.
pub open spec fn public_arguments(arguments: Seq<FlatParameter>) -> Seq<FlatVariable>
    decreases arguments.len(),
{
    if arguments.len() == 0 {
        Seq::empty()
    } else if arguments.last().private {
        public_arguments(arguments.drop_last())
    } else {
        public_arguments(arguments.drop_last()).push(arguments.last().id)
    }
}

/// The first `count` public outputs.
pub open spec fn outputs(count: nat) -> Seq<FlatVariable> {
    Seq::new(count, |i: int| FlatVariable::Public(i as usize))
}

/// The variables whose values are the public inputs of a proof: the public
/// arguments in declared order, then the outputs.
pub open spec fn public_variables(program: &Prog) -> Seq<FlatVariable> {
    public_arguments(program.arguments@) + outputs(program.return_count as nat)
}

/// The values of `variables` in `witness`, if it holds one for each.
pub open spec fn values_of(witness: &Witness, variables: Seq<FlatVariable>) -> Option<
    Seq<Seq<u8>>,
> {
    if forall|i: int| 0 <= i < variables.len() ==> witness.value_of(#[trigger] variables[i]) is Some {
        Some(Seq::new(variables.len(), |i: int| witness.value_of(variables[i]).unwrap()))
    } else {
        None
    }
}

/// The numbers of `values`, as bytes.
pub open spec fn bytes_of(values: Seq<FieldElement>) -> Seq<Seq<u8>> {
    Seq::new(values.len(), |i: int| values[i]@)
}

/// A circuit, and the witness where there is one.
#[derive(Clone, Debug, PartialEq, Eq)]
pub struct Computation {
    pub program: Prog,
    pub witness: Option<Witness>,
}

impl Computation {
    /// The circuit with a value for its variables, as proving takes it.
    pub fn with_witness(program: Prog, witness: Witness) -> (c: Computation)
        ensures
            c.program == program,
            c.witness == Some(witness),
    {
        Computation { program, witness: Some(witness) }
    }

    /// The circuit alone, as a setup takes it.
    pub fn without_witness(program: Prog) -> (c: Computation)
        ensures
            c.program == program,
            c.witness is None,
    {
        Computation { program, witness: None }
    }

    /// The public inputs: the values of the public variables, if there is a
    /// witness and it holds them all.
    pub open spec fn public_inputs(&self) -> Option<Seq<Seq<u8>>> {
        match &self.witness {
            Some(w) => values_of(w, public_variables(&self.program)),
            None => None,
        }
    }

    /// The values of the public arguments, in declared order, then those of
    /// the outputs.
    pub fn public_inputs_values(&self) -> (values: Option<Vec<FieldElement>>)
        ensures
            match values {
                Some(v) => self.public_inputs() == Some(bytes_of(v@)),
                None => self.public_inputs() is None,
            },
    {
        let witness: &Witness = match &self.witness {
            Some(w) => w,
            None => {
                return None;
            },
        };
        let ghost all = public_variables(&self.program);
        let ghost arguments = self.program.arguments@;
        let mut done: Ghost<Seq<FlatVariable>> = Ghost(Seq::empty());
        let mut out: Vec<FieldElement> = Vec::new();
        let mut i: usize = 0;
        assert(arguments.take(0) =~= Seq::empty());
        while i < self.program.arguments.len()
            invariant
                i <= arguments.len(),
                arguments == self.program.arguments@,
                all == public_variables(&self.program),
                self.witness == Some(*witness),
                done@ == public_arguments(arguments.take(i as int)),
                out@.len() == done@.len(),
                forall|k: int|
                    0 <= k < out@.len() ==> witness.value_of(#[trigger] done@[k]) == Some(
                        out@[k]@,
                    ),
            decreases arguments.len() - i,
        {
            assert(arguments.take(i + 1).drop_last() =~= arguments.take(i as int));
            let parameter: &FlatParameter = &self.program.arguments[i];
            if !parameter.private {
                match witness.get(parameter.id) {
                    Some(v) => {
                        out.push(v.duplicate());
                        proof {
                            done@ = done@.push(parameter.id);
                        }
                    },
                    None => {
                        proof {
                            let next = public_arguments(arguments.take(i + 1));
                            assert(arguments.take(i + 1).last() == *parameter);
                            assert(next == done@.push(parameter.id));
                            lemma_public_arguments_prefix(arguments, i + 1);
                            assert(next[next.len() - 1] == parameter.id);
                            assert(all[next.len() - 1] == parameter.id);
                        }
                        return None;
                    },
                }
            }
            i = i + 1;
        }
        assert(arguments.take(i as int) =~= arguments);
        let ghost head = done@;
        let mut j: usize = 0;
        while j < self.program.return_count
            invariant
                j <= self.program.return_count,
                self.witness == Some(*witness),
                head == public_arguments(self.program.arguments@),
                all == public_variables(&self.program),
                done@ == head + outputs(j as nat),
                out@.len() == done@.len(),
                forall|k: int|
                    0 <= k < out@.len() ==> witness.value_of(#[trigger] done@[k]) == Some(
                        out@[k]@,
                    ),
            decreases self.program.return_count - j,
        {
            match witness.get(FlatVariable::Public(j)) {
                Some(v) => {
                    out.push(v.duplicate());
                    proof {
                        done@ = done@.push(FlatVariable::Public(j));
                        assert(done@ =~= head + outputs((j + 1) as nat));
                    }
                },
                None => {
                    assert(all[head.len() + j] == FlatVariable::Public(j));
                    return None;
                },
            }
            j = j + 1;
        }
        proof {
            assert(done@ == all);
            assert(values_of(witness, all) is Some);
            assert(bytes_of(out@) =~= values_of(witness, all).unwrap());
        }
        Some(out)
    }
}

/// The public arguments among the first `k` arguments come first among the
/// public arguments of all.
proof fn lemma_public_arguments_prefix(arguments: Seq<FlatParameter>, k: int)
    requires
        0 <= k <= arguments.len(),
    ensures
        public_arguments(arguments.take(k)).len() <= public_arguments(arguments).len(),
        forall|i: int|
            0 <= i < public_arguments(arguments.take(k)).len() ==> public_arguments(
                arguments.take(k),
            )[i] == public_arguments(arguments)[i],
    decreases arguments.len() - k,
{
    if k < arguments.len() {
        assert(arguments.take(k + 1).drop_last() =~= arguments.take(k));
        lemma_public_arguments_prefix(arguments, k + 1);
    } else {
        assert(arguments.take(k) =~= arguments);
    }
}

/// The variables of a constraint, in the order in which they are met: the
/// left factor, the right factor, the linear side.
pub open spec fn statement_variables(statement: &Statement) -> Seq<FlatVariable> {
    statement.quad.left.variables() + statement.quad.right.variables()
        + statement.lin.variables()
}

/// The variables of `statements`, in the order in which they are met.
pub open spec fn statements_variables(statements: Seq<Statement>) -> Seq<FlatVariable>
    decreases statements.len(),
{
    if statements.len() == 0 {
        Seq::empty()
    } else {
        statements_variables(statements.drop_last()) + statement_variables(&statements.last())
    }
}

/// The variables of the arguments, in declared order.
pub open spec fn argument_variables(arguments: Seq<FlatParameter>) -> Seq<FlatVariable> {
    Seq::new(arguments.len(), |i: int| arguments[i].id)
}

/// Every mention of a variable in a circuit, in the order of synthesis: the
/// constant one, the arguments, the constraints.
pub open spec fn occurrences(program: &Prog) -> Seq<FlatVariable> {
    seq![FlatVariable::One] + argument_variables(program.arguments@) + statements_variables(
        program.statements@,
    )
}

/// The variables of `mentions` without repetition, each at the place of its
/// first mention.
pub open spec fn distinct(mentions: Seq<FlatVariable>) -> Seq<FlatVariable>
    decreases mentions.len(),
{
    if mentions.len() == 0 {
        Seq::empty()
    } else if distinct(mentions.drop_last()).contains(mentions.last()) {
        distinct(mentions.drop_last())
    } else {
        distinct(mentions.drop_last()).push(mentions.last())
    }
}

/// The variables that get a wire, in the order of their wires.
pub open spec fn wire_variables(program: &Prog) -> Seq<FlatVariable> {
    distinct(occurrences(program))
}

/// The place of the first argument that declares `variable`, if one does.
pub open spec fn first_argument(arguments: Seq<FlatParameter>, variable: FlatVariable) -> Option<
    int,
>
    decreases arguments.len(),
{
    if arguments.len() == 0 {
        None
    } else {
        match first_argument(arguments.drop_last(), variable) {
            Some(i) => Some(i),
            None => if arguments.last().id == variable {
                Some(arguments.len() - 1)
            } else {
                None
            },
        }
    }
}

/// Whether the wire of `variable` is part of the public instance: as its
/// first declaration among the arguments says, and for a variable that is no
/// argument, if it is an output.
pub open spec fn is_public(program: &Prog, variable: FlatVariable) -> bool {
    match first_argument(program.arguments@, variable) {
        Some(i) => !program.arguments@[i].private,
        None => variable.is_output(),
    }
}

/// A variable of the proving engine, and what the engine is told of it.
#[derive(Clone, Debug, PartialEq, Eq)]
pub struct Wire {
    /// The variable of the circuit that the wire stands for.
    pub variable: FlatVariable,
    /// Whether the wire is part of the public instance.
    pub public: bool,
    /// The value of the wire, where a witness gives one.
    pub value: Option<FieldElement>,
}

impl Wire {
    /// The value, as bytes.
    pub open spec fn value_bytes(&self) -> Option<Seq<u8>> {
        match &self.value {
            Some(v) => Some(v@),
            None => None,
        }
    }
}

/// One term of a constraint over wires.
#[derive(Clone, Debug, PartialEq, Eq)]
pub struct Entry {
    /// The place of the wire in the plan.
    pub wire: usize,
    pub coefficient: FieldElement,
}

/// One constraint over wires: the product of `a` and `b` equals `c`.
#[derive(Clone, Debug, PartialEq, Eq)]
pub struct Row {
    pub a: Vec<Entry>,
    pub b: Vec<Entry>,
    pub c: Vec<Entry>,
}

/// What the proving engine is handed for a circuit. The first wire is the
/// constant one, which the engine has from the start; every other wire is
/// allocated in order, as a public or a private one.
#[derive(Clone, Debug, PartialEq, Eq)]
pub struct Synthesis {
    pub wires: Vec<Wire>,
    pub rows: Vec<Row>,
}

/// The variables that `wires` stand for.
pub open spec fn variables_of(wires: Seq<Wire>) -> Seq<FlatVariable> {
    Seq::new(wires.len(), |i: int| wires[i].variable)
}

/// `entries` is `terms` over wires: term by term the same coefficient, on
/// the wire of the term's variable.
pub open spec fn entries_match(
    variables: Seq<FlatVariable>,
    entries: Seq<Entry>,
    terms: Seq<Term>,
) -> bool {
    &&& entries.len() == terms.len()
    &&& forall|k: int|
        0 <= k < terms.len() ==> {
            &&& (#[trigger] entries[k]).wire < variables.len()
            &&& variables[entries[k].wire as int] == terms[k].variable
            &&& entries[k].coefficient@ == terms[k].coefficient@
        }
}

/// `row` is `statement` over wires.
pub open spec fn row_matches(variables: Seq<FlatVariable>, row: &Row, statement: &Statement) -> bool {
    &&& entries_match(variables, row.a@, statement.quad.left.0@)
    &&& entries_match(variables, row.b@, statement.quad.right.0@)
    &&& entries_match(variables, row.c@, statement.lin.0@)
}

/// `short` is the beginning of `long`.
pub open spec fn is_prefix(short: Seq<FlatVariable>, long: Seq<FlatVariable>) -> bool {
    &&& short.len() <= long.len()
    &&& forall|k: int| 0 <= k < short.len() ==> short[k] == long[k]
}

impl Computation {
    /// The value that the witness gives to `variable`, if there is a witness
    /// and it gives one.
    pub open spec fn value_of(&self, variable: FlatVariable) -> Option<Seq<u8>> {
        match &self.witness {
            Some(w) => w.value_of(variable),
            None => None,
        }
    }

    /// Every wire is told what the circuit and the witness say of its
    /// variable.
    pub open spec fn wires_conform(&self, wires: Seq<Wire>) -> bool {
        forall|i: int|
            0 <= i < wires.len() ==> {
                &&& (#[trigger] wires[i]).public == is_public(&self.program, wires[i].variable)
                &&& wires[i].value_bytes() == self.value_of(wires[i].variable)
            }
    }

    /// `plan` is the synthesis of this computation: one wire for each
    /// variable, in the order of first mention and told what the circuit and
    /// the witness say of it, and one row for each constraint.
    pub open spec fn is_synthesis(&self, plan: &Synthesis) -> bool {
        &&& variables_of(plan.wires@) == wire_variables(&self.program)
        &&& self.wires_conform(plan.wires@)
        &&& plan.rows@.len() == self.program.statements@.len()
        &&& forall|i: int|
            0 <= i < plan.rows@.len() ==> row_matches(
                variables_of(plan.wires@),
                #[trigger] &plan.rows@[i],
                &self.program.statements@[i],
            )
    }

    fn is_declared_public(&self, variable: FlatVariable) -> (public: bool)
        ensures
            public == is_public(&self.program, variable),
    {
        let mut i: usize = 0;
        assert(self.program.arguments@.take(0) =~= Seq::empty());
        while i < self.program.arguments.len()
            invariant
                i <= self.program.arguments@.len(),
                first_argument(self.program.arguments@.take(i as int), variable) is None,
            decreases self.program.arguments@.len() - i,
        {
            assert(self.program.arguments@.take(i + 1).drop_last()
                =~= self.program.arguments@.take(i as int));
            if self.program.arguments[i].id == variable {
                proof {
                    lemma_first_argument_extends(self.program.arguments@, variable, i + 1);
                }
                return !self.program.arguments[i].private;
            }
            i = i + 1;
        }
        assert(self.program.arguments@.take(i as int) =~= self.program.arguments@);
        variable.is_output()
    }

    fn wire_of(&self, wires: &mut Vec<Wire>, variable: FlatVariable) -> (index: usize)
        requires
            self.wires_conform(old(wires)@),
        ensures
            self.wires_conform(final(wires)@),
            variables_of(final(wires)@) == if variables_of(old(wires)@).contains(variable) {
                variables_of(old(wires)@)
            } else {
                variables_of(old(wires)@).push(variable)
            },
            index < final(wires)@.len(),
            final(wires)@[index as int].variable == variable,
    {
        let mut i: usize = 0;
        while i < wires.len()
            invariant
                i <= wires@.len(),
                wires@ == old(wires)@,
                self.wires_conform(wires@),
                forall|k: int| 0 <= k < i ==> wires@[k].variable != variable,
            decreases wires@.len() - i,
        {
            if wires[i].variable == variable {
                proof {
                    let found = variables_of(wires@);
                    assert(found[i as int] == variable);
                }
                return i;
            }
            i = i + 1;
        }
        let public: bool = self.is_declared_public(variable);
        let value: Option<FieldElement> = match &self.witness {
            Some(w) => match w.get(variable) {
                Some(v) => Some(v.duplicate()),
                None => None,
            },
            None => None,
        };
        proof {
            let before = variables_of(wires@);
            assert(!before.contains(variable)) by {
                if before.contains(variable) {
                    let k = choose|k: int| 0 <= k < before.len() && before[k] == variable;
                    assert(wires@[k].variable == variable);
                }
            }
        }
        wires.push(Wire { variable, public, value });
        assert(variables_of(wires@) =~= variables_of(old(wires)@).push(variable));
        i
    }

    fn entries_of(&self, wires: &mut Vec<Wire>, terms: &LinComb, mentions: Ghost<
        Seq<FlatVariable>,
    >) -> (entries: Vec<Entry>)
        requires
            self.wires_conform(old(wires)@),
            variables_of(old(wires)@) == distinct(mentions@),
        ensures
            self.wires_conform(final(wires)@),
            variables_of(final(wires)@) == distinct(mentions@ + terms.variables()),
            is_prefix(variables_of(old(wires)@), variables_of(final(wires)@)),
            entries_match(variables_of(final(wires)@), entries@, terms.0@),
    {
        let ghost start = variables_of(wires@);
        let mut entries: Vec<Entry> = Vec::new();
        let mut i: usize = 0;
        assert(mentions@ + terms.variables().take(0) =~= mentions@);
        while i < terms.0.len()
            invariant
                i <= terms.0@.len(),
                self.wires_conform(wires@),
                variables_of(wires@) == distinct(mentions@ + terms.variables().take(i as int)),
                is_prefix(start, variables_of(wires@)),
                entries_match(variables_of(wires@), entries@, terms.0@.take(i as int)),
            decreases terms.0@.len() - i,
        {
            let ghost before = variables_of(wires@);
            let ghost met = mentions@ + terms.variables().take(i as int);
            let index: usize = self.wire_of(wires, terms.0[i].variable);
            proof {
                let next = mentions@ + terms.variables().take(i + 1);
                assert(next.drop_last() =~= met);
                assert(next.last() == terms.0@[i as int].variable);
                assert(is_prefix(before, variables_of(wires@)));
            }
            entries.push(Entry { wire: index, coefficient: terms.0[i].coefficient.duplicate() });
            i = i + 1;
        }
        assert(terms.variables().take(i as int) =~= terms.variables());
        assert(terms.0@.take(i as int) =~= terms.0@);
        entries
    }

    /// Plans the synthesis of the circuit: which wire stands for which
    /// variable, and every constraint over wires.
    pub fn synthesize(&self) -> (plan: Synthesis)
        ensures
            self.is_synthesis(&plan),
    {
        let ghost arguments = self.program.arguments@;
        let ghost statements = self.program.statements@;
        let mut wires: Vec<Wire> = Vec::new();
        let ghost first = seq![FlatVariable::One];
        let mut mentions: Ghost<Seq<FlatVariable>> = Ghost(first);
        assert(mentions@.drop_last() =~= Seq::empty());
        assert(variables_of(wires@) =~= Seq::empty());
        assert(distinct(mentions@) =~= seq![FlatVariable::One]) by {
            assert(distinct(mentions@.drop_last()) =~= Seq::empty());
            assert(!distinct(mentions@.drop_last()).contains(mentions@.last()));
            assert(mentions@.last() == FlatVariable::One);
        }
        self.wire_of(&mut wires, FlatVariable::One);
        assert(variables_of(wires@) =~= seq![FlatVariable::One]);
        assert(argument_variables(arguments.take(0)) =~= Seq::empty());
        assert(mentions@ =~= seq![FlatVariable::One] + argument_variables(arguments.take(0)));
        let mut i: usize = 0;
        while i < self.program.arguments.len()
            invariant
                i <= arguments.len(),
                arguments == self.program.arguments@,
                self.wires_conform(wires@),
                mentions@ == seq![FlatVariable::One] + argument_variables(arguments.take(i as int)),
                variables_of(wires@) == distinct(mentions@),
            decreases arguments.len() - i,
        {
            self.wire_of(&mut wires, self.program.arguments[i].id);
            proof {
                let next = seq![FlatVariable::One] + argument_variables(arguments.take(i + 1));
                assert(next.drop_last() =~= mentions@);
                assert(next.last() == arguments[i as int].id);
                mentions@ = next;
            }
            i = i + 1;
        }
        assert(arguments.take(i as int) =~= arguments);
        let ghost head = mentions@;
        let mut rows: Vec<Row> = Vec::new();
        let mut j: usize = 0;
        assert(statements.take(0) =~= Seq::empty());
        assert(head + statements_variables(statements.take(0)) =~= head);
        while j < self.program.statements.len()
            invariant
                j <= statements.len(),
                statements == self.program.statements@,
                head == seq![FlatVariable::One] + argument_variables(self.program.arguments@),
                self.wires_conform(wires@),
                mentions@ == head + statements_variables(statements.take(j as int)),
                variables_of(wires@) == distinct(mentions@),
                rows@.len() == j,
                forall|r: int|
                    0 <= r < j ==> row_matches(
                        variables_of(wires@),
                        #[trigger] &rows@[r],
                        &statements[r],
                    ),
            decreases statements.len() - j,
        {
            let statement: &Statement = &self.program.statements[j];
            let ghost v0 = variables_of(wires@);
            let ghost m0 = mentions@;
            let a: Vec<Entry> = self.entries_of(&mut wires, &statement.quad.left, mentions);
            let ghost v1 = variables_of(wires@);
            let ghost m1 = m0 + statement.quad.left.variables();
            let b: Vec<Entry> = self.entries_of(&mut wires, &statement.quad.right, Ghost(m1));
            let ghost v2 = variables_of(wires@);
            let ghost m2 = m1 + statement.quad.right.variables();
            let c: Vec<Entry> = self.entries_of(&mut wires, &statement.lin, Ghost(m2));
            let ghost v3 = variables_of(wires@);
            let row = Row { a, b, c };
            proof {
                let m3 = m2 + statement.lin.variables();
                assert(statements.take(j + 1).drop_last() =~= statements.take(j as int));
                assert(statements.take(j + 1).last() == *statement);
                assert(m3 =~= head + statements_variables(statements.take(j + 1)));
                mentions@ = m3;
                assert(is_prefix(v0, v3));
                assert(is_prefix(v1, v3));
                assert(is_prefix(v2, v3));
                assert(row_matches(v3, &row, statement));
                assert forall|r: int| 0 <= r < j implies row_matches(
                    v3,
                    #[trigger] &rows@[r],
                    &statements[r],
                ) by {
                    assert(row_matches(v0, &rows@[r], &statements[r]));
                }
            }
            rows.push(row);
            j = j + 1;
        }
        assert(statements.take(j as int) =~= statements);
        Synthesis { wires, rows }
    }
}

/// Once `variable` is declared among the first `k` arguments, that
/// declaration is the first among all.
proof fn lemma_first_argument_extends(
    arguments: Seq<FlatParameter>,
    variable: FlatVariable,
    k: int,
)
    requires
        0 <= k <= arguments.len(),
        first_argument(arguments.take(k), variable) is Some,
    ensures
        first_argument(arguments, variable) == first_argument(arguments.take(k), variable),
    decreases arguments.len() - k,
{
    if k < arguments.len() {
        assert(arguments.take(k + 1).drop_last() =~= arguments.take(k));
        lemma_first_argument_extends(arguments, variable, k + 1);
    } else {
        assert(arguments.take(k) =~= arguments);
    }
}

/// No variable has two wires, and every variable that is mentioned has one.
pub proof fn lemma_distinct(mentions: Seq<FlatVariable>)
    ensures
        forall|i: int, j: int|
            0 <= i < j < distinct(mentions).len() ==> distinct(mentions)[i] != distinct(
                mentions,
            )[j],
        forall|k: int| 0 <= k < mentions.len() ==> distinct(mentions).contains(mentions[k]),
        forall|v: FlatVariable| distinct(mentions).contains(v) ==> mentions.contains(v),
    decreases mentions.len(),
{
    if mentions.len() > 0 {
        let head = mentions.drop_last();
        lemma_distinct(head);
        let d = distinct(head);
        let all = distinct(mentions);
        assert forall|k: int| 0 <= k < mentions.len() implies all.contains(mentions[k]) by {
            if k < head.len() {
                assert(head[k] == mentions[k]);
                let at = choose|at: int| 0 <= at < d.len() && d[at] == head[k];
                assert(all[at] == mentions[k]);
            } else if d.contains(mentions.last()) {
            } else {
                assert(all[all.len() - 1] == mentions[k]);
            }
        }
        assert forall|v: FlatVariable| all.contains(v) implies mentions.contains(v) by {
            let at = choose|at: int| 0 <= at < all.len() && all[at] == v;
            if at < d.len() {
                assert(d[at] == v);
                assert(d.contains(v));
                assert(head.contains(v));
                let k = choose|k: int| 0 <= k < head.len() && head[k] == v;
                assert(mentions[k] == v);
            } else {
                assert(mentions[mentions.len() - 1] == v);
            }
        }
    }
}

} // verus!
