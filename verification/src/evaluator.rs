//! The constraint-system builder of one compilation, and the values that
//! expressions are lowered to.

use crate::circuit::{Arithmetic, Gate, GateView, Witness, OPCODE};
use crate::field::FieldElement;
use crate::hir::ExprId;
use vstd::prelude::*;

verus! {

/// A witness that holds an integer of `num_bits` bits.
#[derive(Clone, Copy, Debug, PartialEq, Eq, Structural)]
pub struct Integer {
    pub witness: Witness,
    pub num_bits: u32,
}

/// The linear expression `mul_scale * witness + add_scale`.
#[derive(Clone, Copy, Debug, PartialEq, Eq, Structural)]
pub struct Linear {
    pub mul_scale: FieldElement,
    pub witness: Witness,
    pub add_scale: FieldElement,
}

impl Linear {
    /// The expression is its witness itself: scaled by one, with nothing
    /// added.
    pub open spec fn spec_is_unit(&self) -> bool {
        self.mul_scale@ == 1 && self.add_scale@ == 0
    }

    #[verifier::when_used_as_spec(spec_is_unit)]
    pub fn is_unit(&self) -> (r: bool)
        ensures
            r == self.spec_is_unit(),
    {
        self.mul_scale.is_one() && self.add_scale.is_zero()
    }

    /// The expression that is `witness` itself.
    pub fn from_witness(witness: Witness) -> (r: Linear)
        ensures
            r.witness == witness,
            r.spec_is_unit(),
    {
        Linear { mul_scale: FieldElement::one(), witness, add_scale: FieldElement::zero() }
    }
}

/// A collection of values of a fixed length.
#[derive(Debug)]
pub struct Array {
    pub contents: Vec<Object>,
    pub length: u128,
}

/// What an expression is lowered to.
#[derive(Debug)]
pub enum Object {
    Null,
    Integer(Integer),
    Array(Array),
    Arithmetic(Arithmetic<FieldElement>),
    Constants(FieldElement),
    Linear(Linear),
}

/// The kinds of lowered value, for reports.
#[derive(Clone, Copy, Debug, PartialEq, Eq, Structural)]
pub enum ObjectKind {
    Null,
    Integer,
    Array,
    Arithmetic,
    Constants,
    Linear,
}

impl Object {
    /// The kind of this value.
    pub open spec fn spec_kind(&self) -> ObjectKind {
        match self {
            Object::Null => ObjectKind::Null,
            Object::Integer(_) => ObjectKind::Integer,
            Object::Array(_) => ObjectKind::Array,
            Object::Arithmetic(_) => ObjectKind::Arithmetic,
            Object::Constants(_) => ObjectKind::Constants,
            Object::Linear(_) => ObjectKind::Linear,
        }
    }

    /// The kind of this value.
    #[verifier::when_used_as_spec(spec_kind)]
    pub fn kind(&self) -> (r: ObjectKind)
        ensures
            r == self.spec_kind(),
    {
        match self {
            Object::Null => ObjectKind::Null,
            Object::Integer(_) => ObjectKind::Integer,
            Object::Array(_) => ObjectKind::Array,
            Object::Arithmetic(_) => ObjectKind::Arithmetic,
            Object::Constants(_) => ObjectKind::Constants,
            Object::Linear(_) => ObjectKind::Linear,
        }
    }

    /// The value stands for `witness` itself, as a unit linear expression.
    pub open spec fn is_witness(&self, witness: Witness) -> bool {
        *self matches Object::Linear(lin) && lin.witness == witness && lin.spec_is_unit()
    }

    /// The value that stands for `witness` itself.
    pub fn from_witness(witness: Witness) -> (r: Object)
        ensures
            r.is_witness(witness),
    {
        Object::Linear(Linear::from_witness(witness))
    }
}

/// A construct that lowering does not handle yet.
#[derive(Clone, Copy, Debug, PartialEq, Eq, Structural)]
pub enum UnsupportedConstruct {
    /// A linear expression that is more than its witness.
    NonUnitLinear,
    /// A value of this kind.
    Kind(ObjectKind),
}

/// Why a call could not be lowered.
#[allow(inconsistent_fields)]
#[derive(Clone, Copy, Debug, PartialEq, Eq, Structural)]
pub enum RuntimeErrorKind {
    /// The gadget takes `expected` arguments and was given `found`.
    ArgumentCountMismatch { gadget: OPCODE, expected: usize, found: usize },
    /// The argument must be an array; it is a value of the kind `found`, or
    /// has no value at all.
    ExpectedArray { gadget: OPCODE, found: Option<ObjectKind> },
    /// The array has no element, and the gadget needs at least one.
    EmptyArray { gadget: OPCODE },
    /// The element at `index` is of a shape that the gadget does not take
    /// yet.
    UnsupportedElement { gadget: OPCODE, index: usize, construct: UnsupportedConstruct },
}

impl RuntimeErrorKind {
    /// Whether the source asked for something that is valid but not handled
    /// yet, rather than for something invalid.
    pub fn is_unsupported_feature(&self) -> (r: bool)
        ensures
            r == (*self is UnsupportedElement),
    {
        matches!(self, RuntimeErrorKind::UnsupportedElement { .. })
    }

    /// The gadget whose call failed.
    pub fn gadget(&self) -> (r: OPCODE)
        ensures
            r == match *self {
                RuntimeErrorKind::ArgumentCountMismatch { gadget, .. } => gadget,
                RuntimeErrorKind::ExpectedArray { gadget, .. } => gadget,
                RuntimeErrorKind::EmptyArray { gadget } => gadget,
                RuntimeErrorKind::UnsupportedElement { gadget, .. } => gadget,
            },
    {
        match self {
            RuntimeErrorKind::ArgumentCountMismatch { gadget, .. } => *gadget,
            RuntimeErrorKind::ExpectedArray { gadget, .. } => *gadget,
            RuntimeErrorKind::EmptyArray { gadget } => *gadget,
            RuntimeErrorKind::UnsupportedElement { gadget, .. } => *gadget,
        }
    }
}

/// The values that the expressions of one compilation were lowered to, each
/// under the id of its expression.
#[derive(Debug)]
pub struct Environment {
    pub values: Vec<Object>,
}

impl View for Environment {
    type V = Seq<Object>;

    open spec fn view(&self) -> Seq<Object> {
        self.values@
    }
}

impl Environment {
    /// An environment that keeps nothing yet.
    pub fn new() -> (r: Environment)
        ensures
            r@ == Seq::<Object>::empty(),
    {
        Environment { values: Vec::new() }
    }

    /// Keeps `value` and hands out the id under which it is found again.
    pub fn store(&mut self, value: Object) -> (r: ExprId)
        ensures
            r.0 == old(self)@.len(),
            final(self)@ == old(self)@.push(value),
    {
        let id = ExprId(self.values.len());
        self.values.push(value);
        id
    }

    /// The value kept under `id`, if there is one.
    pub fn get(&self, id: ExprId) -> (r: Option<&Object>)
        ensures
            match r {
                Some(value) => id.0 < self@.len() && *value == self@[id.0 as int],
                None => id.0 >= self@.len(),
            },
    {
        if id.0 < self.values.len() {
            Some(&self.values[id.0])
        } else {
            None
        }
    }
}

/// The builder of one compilation: how many witnesses were handed out, and
/// the gates pushed so far, in order.
#[derive(Debug)]
pub struct Evaluator {
    num_witnesses: u32,
    gates: Vec<Gate<FieldElement>>,
}

/// What a builder holds.
pub struct EvaluatorView {
    pub witness_count: nat,
    pub gates: Seq<GateView<FieldElement>>,
}

impl EvaluatorView {
    /// No gate names a witness that was not handed out.
    pub open spec fn is_closed(self) -> bool {
        forall|i: int| 0 <= i < self.gates.len() ==> (#[trigger] self.gates[i]).in_scope(self.witness_count)
    }

    /// The witness that the next allocation hands out.
    pub open spec fn next_witness(self) -> Witness {
        Witness(self.witness_count as u32)
    }

    /// The builder after one allocation.
    pub open spec fn after_allocation(self) -> EvaluatorView {
        EvaluatorView { witness_count: self.witness_count + 1, gates: self.gates }
    }

    /// The builder after `gate` was pushed.
    pub open spec fn after_push(self, gate: GateView<FieldElement>) -> EvaluatorView {
        EvaluatorView { witness_count: self.witness_count, gates: self.gates.push(gate) }
    }

    /// The builder after one step.
    pub open spec fn after_step(self, step: BuilderStep) -> EvaluatorView {
        match step {
            BuilderStep::Allocate => self.after_allocation(),
            BuilderStep::Push(gate) => self.after_push(gate),
        }
    }

    /// The builder after a run of steps.
    pub open spec fn after_steps(self, steps: Seq<BuilderStep>) -> EvaluatorView
        decreases steps.len(),
    {
        if steps.len() == 0 {
            self
        } else {
            self.after_steps(steps.drop_last()).after_step(steps.last())
        }
    }
}

/// What can be done to a builder: an allocation of a witness, or a push of
/// a gate.
pub enum BuilderStep {
    Allocate,
    Push(GateView<FieldElement>),
}

impl View for Evaluator {
    type V = EvaluatorView;

    closed spec fn view(&self) -> EvaluatorView {
        EvaluatorView {
            witness_count: self.num_witnesses as nat,
            gates: Seq::new(self.gates@.len(), |i: int| self.gates@[i]@),
        }
    }
}

impl Evaluator {
    /// A builder without witnesses and without gates.
    pub fn new() -> (r: Evaluator)
        ensures
            r@.witness_count == 0,
            r@.gates == Seq::<GateView<FieldElement>>::empty(),
            r@.is_closed(),
    {
        let r = Evaluator { num_witnesses: 0, gates: Vec::new() };
        assert(r@.gates =~= Seq::<GateView<FieldElement>>::empty());
        r
    }

    /// The number of witnesses handed out so far.
    pub fn witness_count(&self) -> (r: u32)
        ensures
            r == self@.witness_count,
    {
        self.num_witnesses
    }

    /// The gates pushed so far, in the order in which they were pushed.
    pub fn gates(&self) -> (r: &Vec<Gate<FieldElement>>)
        ensures
            r@.len() == self@.gates.len(),
            forall|i: int| 0 <= i < r@.len() ==> (#[trigger] r@[i])@ == self@.gates[i],
    {
        &self.gates
    }

    /// Hands out a witness that was never handed out before: the one whose
    /// index is the number of witnesses so far. The gates stay as they are.
    pub fn allocate_witness(&mut self) -> (r: Witness)
        requires
            old(self)@.witness_count < u32::MAX,
        ensures
            r == old(self)@.next_witness(),
            r.0 == old(self)@.witness_count,
            final(self)@ == old(self)@.after_allocation(),
            old(self)@.is_closed() ==> final(self)@.is_closed(),
    {
        let witness = Witness(self.num_witnesses);
        self.num_witnesses = self.num_witnesses + 1;
        proof {
            if old(self)@.is_closed() {
                assert forall|i: int| 0 <= i < self@.gates.len() implies (#[trigger] self@.gates[i]).in_scope(
                    self@.witness_count,
                ) by {
                    lemma_in_scope_grows(old(self)@.gates[i], old(self)@.witness_count, self@.witness_count);
                }
            }
        }
        witness
    }

    /// Appends `gate` to the gates. The witnesses stay as they are.
    pub fn push_gate(&mut self, gate: Gate<FieldElement>)
        ensures
            final(self)@ == old(self)@.after_push(gate@),
            old(self)@.is_closed() && gate@.in_scope(old(self)@.witness_count) ==> final(self)@.is_closed(),
    {
        self.gates.push(gate);
        assert(self@.gates =~= old(self)@.gates.push(gate@));
    }
}

/// A gate whose witnesses are below one count has them below any greater
/// count.
pub proof fn lemma_in_scope_grows<F>(gate: GateView<F>, count: nat, more: nat)
    requires
        gate.in_scope(count),
        count <= more,
    ensures
        gate.in_scope(more),
{
}

/// A run of steps never lowers the count of witnesses.
pub proof fn lemma_count_never_falls(s: EvaluatorView, steps: Seq<BuilderStep>, k: int)
    requires
        0 <= k <= steps.len(),
    ensures
        s.after_steps(steps.subrange(0, k)).witness_count <= s.after_steps(steps).witness_count,
    decreases steps.len() - k,
{
    if k < steps.len() {
        assert(steps.subrange(0, k + 1).drop_last() =~= steps.subrange(0, k));
        lemma_count_never_falls(s, steps, k + 1);
    } else {
        assert(steps.subrange(0, k) =~= steps);
    }
}

/// Whatever is done to one builder, of two allocations the earlier hands out
/// the witness of the smaller index: no witness is handed out twice.
pub proof fn lemma_witnesses_distinct(s: EvaluatorView, steps: Seq<BuilderStep>, i: int, j: int)
    requires
        0 <= i < j < steps.len(),
        steps[i] is Allocate,
        steps[j] is Allocate,
        s.after_steps(steps).witness_count <= u32::MAX,
    ensures
        s.after_steps(steps.subrange(0, i)).next_witness().0 < s.after_steps(
            steps.subrange(0, j),
        ).next_witness().0,
        s.after_steps(steps.subrange(0, i)).next_witness() != s.after_steps(
            steps.subrange(0, j),
        ).next_witness(),
{
    let upto_j = steps.subrange(0, j);
    assert(upto_j.subrange(0, i + 1).drop_last() =~= steps.subrange(0, i));
    assert(upto_j.subrange(0, i + 1).last() == steps[i]);
    assert(upto_j.subrange(0, i) =~= steps.subrange(0, i));
    lemma_count_never_falls(s, upto_j, i + 1);
    lemma_count_never_falls(s, steps, j);
}

} // verus!
