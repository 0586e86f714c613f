//! Flat arithmetic circuits: constraints between linear combinations of
//! variables, and assignments of values to the variables.

use vstd::prelude::*;

verus! {

/// A variable of a circuit.
#[derive(Clone, Copy, Debug, PartialEq, Eq, Structural)]
pub enum FlatVariable {
    /// The constant one.
    One,
    /// The public output with the given index.
    Public(usize),
    /// Any other variable, by its index.
    Private(usize),
}

impl FlatVariable {
    /// The constant one.
    pub fn one() -> (v: FlatVariable)
        ensures
            v == FlatVariable::One,
    {
        FlatVariable::One
    }

    /// The variable with the given index that is no output.
    pub fn new(id: usize) -> (v: FlatVariable)
        ensures
            v == FlatVariable::Private(id),
    {
        FlatVariable::Private(id)
    }

    /// The public output with the given index.
    pub fn public(id: usize) -> (v: FlatVariable)
        ensures
            v == FlatVariable::Public(id),
    {
        FlatVariable::Public(id)
    }

    /// Whether this is a public output of the circuit.
    pub open spec fn spec_is_output(self) -> bool {
        self is Public
    }

    /// Whether this is a public output of the circuit.
    #[verifier::when_used_as_spec(spec_is_output)]
    pub fn is_output(self) -> (b: bool)
        ensures
            b == self.spec_is_output(),
    {
        match self {
            FlatVariable::Public(_) => true,
            _ => false,
        }
    }
}

/// An argument of a circuit: a variable, and whether its value stays with
/// the prover.
#[derive(Clone, Copy, Debug, PartialEq, Eq, Structural)]
pub struct FlatParameter {
    pub id: FlatVariable,
    pub private: bool,
}

impl FlatParameter {
    /// An argument whose value is public.
    pub fn public(id: FlatVariable) -> (p: FlatParameter)
        ensures
            p == (FlatParameter { id, private: false }),
    {
        FlatParameter { id, private: false }
    }

    /// An argument whose value stays with the prover.
    pub fn private(id: FlatVariable) -> (p: FlatParameter)
        ensures
            p == (FlatParameter { id, private: true }),
    {
        FlatParameter { id, private: true }
    }
}

/// The big-endian bytes of `value`, eight of them.
pub open spec fn number(value: u64) -> Seq<u8> {
    vstd::bytes::spec_u64_to_le_bytes(value).reverse()
}

/// A number, as big-endian bytes. The proving engine reduces it by the order
/// of the scalar field of the curve at hand.
#[derive(Clone, Debug, PartialEq, Eq)]
pub struct FieldElement {
    pub bytes: Vec<u8>,
}

impl View for FieldElement {
    type V = Seq<u8>;

    open spec fn view(&self) -> Seq<u8> {
        self.bytes@
    }
}

impl FieldElement {
    /// The number that `bytes` hold, most significant first.
    pub fn from_be_bytes(bytes: Vec<u8>) -> (e: FieldElement)
        ensures
            e@ == bytes@,
    {
        FieldElement { bytes }
    }

    /// The number `value`, on eight bytes.
    pub fn from_u64(value: u64) -> (e: FieldElement)
        ensures
            e@ == number(value),
    {
        let le: Vec<u8> = vstd::bytes::u64_to_le_bytes(value);
        FieldElement { bytes: crate::points::reversed(le.as_slice()) }
    }

    /// A copy of this number.
    pub fn duplicate(&self) -> (e: FieldElement)
        ensures
            e@ == self@,
    {
        FieldElement { bytes: vstd::slice::slice_to_vec(self.bytes.as_slice()) }
    }
}

/// One term of a linear combination.
#[derive(Clone, Debug, PartialEq, Eq)]
pub struct Term {
    pub variable: FlatVariable,
    pub coefficient: FieldElement,
}

/// A sum of variables, each times a coefficient.
#[derive(Clone, Debug, PartialEq, Eq)]
pub struct LinComb(pub Vec<Term>);

impl LinComb {
    /// The combination that is the constant one.
    pub fn one() -> (l: LinComb)
        ensures
            l.0@.len() == 1,
            l.0@[0].variable == FlatVariable::One,
            l.0@[0].coefficient@ == number(1),
    {
        LinComb::from_variable(FlatVariable::One)
    }

    /// The combination that is `variable` alone.
    pub fn from_variable(variable: FlatVariable) -> (l: LinComb)
        ensures
            l.0@.len() == 1,
            l.0@[0].variable == variable,
            l.0@[0].coefficient@ == number(1),
    {
        let mut terms: Vec<Term> = Vec::new();
        terms.push(Term { variable, coefficient: FieldElement::from_u64(1) });
        LinComb(terms)
    }

    /// The variables of the terms, in their order.
    pub open spec fn variables(&self) -> Seq<FlatVariable> {
        Seq::new(self.0@.len(), |i: int| self.0@[i].variable)
    }
}

/// A product of two linear combinations.
#[derive(Clone, Debug, PartialEq, Eq)]
pub struct QuadComb {
    pub left: LinComb,
    pub right: LinComb,
}

impl QuadComb {
    /// The product of `left` and `right`.
    pub fn from_linear(left: LinComb, right: LinComb) -> (q: QuadComb)
        ensures
            q.left == left,
            q.right == right,
    {
        QuadComb { left, right }
    }

    /// The product of `variable` and one.
    pub fn from_variable(variable: FlatVariable) -> (q: QuadComb)
        ensures
            q.left.variables() == seq![variable],
            q.right.variables() == seq![FlatVariable::One],
    {
        let q = QuadComb { left: LinComb::from_variable(variable), right: LinComb::one() };
        assert(q.left.variables() =~= seq![variable]);
        assert(q.right.variables() =~= seq![FlatVariable::One]);
        q
    }
}

/// A constraint: the product on the left equals the combination on the
/// right.
#[derive(Clone, Debug, PartialEq, Eq)]
pub struct Statement {
    pub quad: QuadComb,
    pub lin: LinComb,
}

impl Statement {
    /// The constraint that `quad` equals `lin`.
    pub fn constraint(quad: QuadComb, lin: LinComb) -> (s: Statement)
        ensures
            s.quad == quad,
            s.lin == lin,
    {
        Statement { quad, lin }
    }
}

/// A circuit: its arguments in declared order, the number of its public
/// outputs, and its constraints.
#[derive(Clone, Debug, PartialEq, Eq)]
pub struct Prog {
    pub arguments: Vec<FlatParameter>,
    pub return_count: usize,
    pub statements: Vec<Statement>,
}

impl Prog {
    /// The circuit with the given arguments, constraints and number of outputs.
    pub fn new(arguments: Vec<FlatParameter>, statements: Vec<Statement>, return_count: usize) -> (p:
        Prog)
        ensures
            p.arguments == arguments,
            p.statements == statements,
            p.return_count == return_count,
    {
        Prog { arguments, return_count, statements }
    }
}

/// One value of a witness.
#[derive(Clone, Debug, PartialEq, Eq)]
pub struct Assignment {
    pub variable: FlatVariable,
    pub value: FieldElement,
}

/// An assignment of values to the variables of a circuit. Where a variable
/// occurs twice, its first value counts.
#[derive(Clone, Debug, PartialEq, Eq)]
pub struct Witness(pub Vec<Assignment>);

/// The place of the first value of `variable` among `entries`, if it has one.
pub open spec fn first_of(entries: Seq<Assignment>, variable: FlatVariable) -> Option<int>
    decreases entries.len(),
{
    if entries.len() == 0 {
        None
    } else {
        match first_of(entries.drop_last(), variable) {
            Some(i) => Some(i),
            None => if entries.last().variable == variable {
                Some(entries.len() - 1)
            } else {
                None
            },
        }
    }
}

/// What `first_of` returns is the least place that holds `variable`.
pub proof fn lemma_first_of(entries: Seq<Assignment>, variable: FlatVariable)
    ensures
        match first_of(entries, variable) {
            Some(i) => 0 <= i < entries.len() && entries[i].variable == variable && forall|k: int|
                0 <= k < i ==> entries[k].variable != variable,
            None => forall|k: int| 0 <= k < entries.len() ==> entries[k].variable != variable,
        },
    decreases entries.len(),
{
    if entries.len() > 0 {
        let head = entries.drop_last();
        lemma_first_of(head, variable);
        assert(forall|k: int| 0 <= k < head.len() ==> head[k] == entries[k]);
        match first_of(head, variable) {
            Some(i) => {
                assert(entries[i] == head[i]);
            },
            None => {
                assert forall|k: int| 0 <= k < entries.len() - 1 implies entries[k].variable
                    != variable by {
                    assert(head[k] == entries[k]);
                }
            },
        }
    }
}

impl Witness {
    /// The witness that holds no value.
    pub fn empty() -> (w: Witness)
        ensures
            w.0@.len() == 0,
    {
        Witness(Vec::new())
    }

    /// Adds a value for `variable`, behind those that are there.
    pub fn insert(&mut self, variable: FlatVariable, value: FieldElement)
        ensures
            final(self).0@ == old(self).0@.push(Assignment { variable, value }),
    {
        self.0.push(Assignment { variable, value });
    }

    /// The value of `variable`, as bytes.
    pub open spec fn value_of(&self, variable: FlatVariable) -> Option<Seq<u8>> {
        match first_of(self.0@, variable) {
            Some(i) => Some(self.0@[i].value@),
            None => None,
        }
    }

    /// The value of `variable`.
    pub fn get(&self, variable: FlatVariable) -> (value: Option<&FieldElement>)
        ensures
            match value {
                Some(v) => self.value_of(variable) == Some(v@),
                None => self.value_of(variable) is None,
            },
    {
        let mut i: usize = 0;
        assert(self.0@.take(0) =~= Seq::empty());
        while i < self.0.len()
            invariant
                i <= self.0@.len(),
                first_of(self.0@.take(i as int), variable) is None,
            decreases self.0@.len() - i,
        {
            assert(self.0@.take(i + 1).drop_last() =~= self.0@.take(i as int));
            if self.0[i].variable == variable {
                proof {
                    lemma_first_of_extends(self.0@, variable, i + 1);
                }
                return Some(&self.0[i].value);
            }
            i = i + 1;
        }
        assert(self.0@.take(i as int) =~= self.0@);
        None
    }
}

/// Once a value of `variable` is found among the first `k` entries, it is
/// the one found among all.
proof fn lemma_first_of_extends(entries: Seq<Assignment>, variable: FlatVariable, k: int)
    requires
        0 <= k <= entries.len(),
        first_of(entries.take(k), variable) is Some,
    ensures
        first_of(entries, variable) == first_of(entries.take(k), variable),
    decreases entries.len() - k,
{
    if k < entries.len() {
        assert(entries.take(k + 1).drop_last() =~= entries.take(k));
        lemma_first_of_extends(entries, variable, k + 1);
    } else {
        assert(entries.take(k) =~= entries);
    }
}

} // verus!
