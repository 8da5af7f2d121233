//! The circuit model: witnesses and the gates that constrain them.

use vstd::prelude::*;

verus! {

/// A handle on one variable slot of the circuit.
#[derive(Clone, Copy, Debug, PartialEq, Eq, Structural, PartialOrd, Ord, Hash)]
pub struct Witness(pub u32);

/// The gadgets that a backend may offer, by their agreed names.
#[allow(non_camel_case_types)]
#[derive(Clone, Copy, Debug, PartialEq, Eq, Structural, Hash)]
pub enum OPCODE {
    AES,
    SHA256,
    MerkleMembership,
    SchnorrVerify,
    Blake2s,
    Pedersen,
    HashToField,
}

/// A combination of witnesses that must be zero: products of two witnesses
/// and single witnesses, each with a coefficient, and a constant.
#[derive(Clone, Debug)]
pub struct Arithmetic<F> {
    pub mul_terms: Vec<(F, Witness, Witness)>,
    pub linear_combinations: Vec<(F, Witness)>,
    pub q_c: F,
}

/// `result` is the bitwise AND of `a` and `b` on `num_bits` bits.
#[derive(Clone, Copy, Debug, PartialEq, Eq, Structural)]
pub struct AndGate {
    pub a: Witness,
    pub b: Witness,
    pub result: Witness,
    pub num_bits: u32,
}

/// `result` is the bitwise XOR of `a` and `b` on `num_bits` bits.
#[derive(Clone, Copy, Debug, PartialEq, Eq, Structural)]
pub struct XorGate {
    pub a: Witness,
    pub b: Witness,
    pub result: Witness,
    pub num_bits: u32,
}

/// A hint for computing witness values. It constrains nothing.
#[derive(Clone, Copy, Debug, PartialEq, Eq, Structural)]
pub enum Directive {
    /// `result` is the inverse of `x`.
    Invert { x: Witness, result: Witness },
}

/// A witness handed to a gadget, with the number of its bits that the
/// gadget reads.
#[derive(Clone, Copy, Debug, PartialEq, Eq, Structural)]
pub struct GadgetInput {
    pub witness: Witness,
    pub num_bits: u32,
}

/// A call of a sub-circuit that the backend supplies.
#[derive(Clone, Debug)]
pub struct GadgetCall {
    pub name: OPCODE,
    pub inputs: Vec<GadgetInput>,
    pub outputs: Vec<Witness>,
}

/// One node of the circuit.
#[derive(Clone, Debug)]
pub enum Gate<F> {
    Arithmetic(Arithmetic<F>),
    Range(Witness, u32),
    And(AndGate),
    Xor(XorGate),
    GadgetCall(GadgetCall),
    Directive(Directive),
}

/// What an arithmetic gate holds.
pub struct ArithmeticView<F> {
    pub mul_terms: Seq<(F, Witness, Witness)>,
    pub linear_combinations: Seq<(F, Witness)>,
    pub q_c: F,
}

/// What a gadget call holds.
pub struct GadgetCallView {
    pub name: OPCODE,
    pub inputs: Seq<GadgetInput>,
    pub outputs: Seq<Witness>,
}

/// What a gate holds.
pub enum GateView<F> {
    Arithmetic(ArithmeticView<F>),
    Range(Witness, u32),
    And(AndGate),
    Xor(XorGate),
    GadgetCall(GadgetCallView),
    Directive(Directive),
}

impl<F> View for Arithmetic<F> {
    type V = ArithmeticView<F>;

    open spec fn view(&self) -> ArithmeticView<F> {
        ArithmeticView {
            mul_terms: self.mul_terms@,
            linear_combinations: self.linear_combinations@,
            q_c: self.q_c,
        }
    }
}

impl View for GadgetCall {
    type V = GadgetCallView;

    open spec fn view(&self) -> GadgetCallView {
        GadgetCallView { name: self.name, inputs: self.inputs@, outputs: self.outputs@ }
    }
}

impl<F> View for Gate<F> {
    type V = GateView<F>;

    open spec fn view(&self) -> GateView<F> {
        match self {
            Gate::Arithmetic(a) => GateView::Arithmetic(a@),
            Gate::Range(w, n) => GateView::Range(*w, *n),
            Gate::And(g) => GateView::And(*g),
            Gate::Xor(g) => GateView::Xor(*g),
            Gate::GadgetCall(c) => GateView::GadgetCall(c@),
            Gate::Directive(d) => GateView::Directive(*d),
        }
    }
}

impl<F> GateView<F> {
    /// Every witness named here has an index below `count`.
    pub open spec fn in_scope(self, count: nat) -> bool {
        match self {
            GateView::Arithmetic(a) => {
                &&& forall|i: int|
                    0 <= i < a.mul_terms.len() ==> (#[trigger] a.mul_terms[i]).1.0 < count
                        && a.mul_terms[i].2.0 < count
                &&& forall|i: int|
                    0 <= i < a.linear_combinations.len() ==> (#[trigger] a.linear_combinations[i]).1.0
                        < count
            },
            GateView::Range(w, _) => w.0 < count,
            GateView::And(g) => g.a.0 < count && g.b.0 < count && g.result.0 < count,
            GateView::Xor(g) => g.a.0 < count && g.b.0 < count && g.result.0 < count,
            GateView::GadgetCall(c) => {
                &&& forall|i: int| 0 <= i < c.inputs.len() ==> (#[trigger] c.inputs[i]).witness.0 < count
                &&& forall|i: int| 0 <= i < c.outputs.len() ==> (#[trigger] c.outputs[i]).0 < count
            },
            GateView::Directive(d) => match d {
                Directive::Invert { x, result } => x.0 < count && result.0 < count,
            },
        }
    }
}

impl<F> Gate<F> {
    /// Whether this is an arithmetic gate.
    pub fn is_arithmetic(&self) -> (r: bool)
        ensures
            r == (self is Arithmetic),
    {
        matches!(self, Gate::Arithmetic(_))
    }

    /// The payload of an arithmetic gate, which `self` must be.
    pub fn arithmetic(self) -> (r: Arithmetic<F>)
        requires
            self is Arithmetic,
        ensures
            self == Gate::Arithmetic(r),
    {
        match self {
            Gate::Arithmetic(gate) => gate,
            _ => vstd::pervasive::unreached(),
        }
    }
}

} // verus!
