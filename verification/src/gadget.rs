//! Lowering of gadget calls: from a call expression whose arguments are
//! lowered already to one fresh witness and one gadget-call gate.

use crate::circuit::{GadgetCall, GadgetCallView, GadgetInput, Gate, GateView, Witness, OPCODE};
use crate::evaluator::{
    lemma_in_scope_grows, Environment, Evaluator, EvaluatorView, Object, RuntimeErrorKind,
    UnsupportedConstruct,
};
use crate::field::FieldElement;
use crate::hir::HirCallExpression;
use vstd::prelude::*;

verus! {

/// What one kind of gadget has to offer for its calls to be lowered.
pub trait GadgetCaller {
    /// The name under which the backend knows the gadget.
    fn name() -> OPCODE;

    /// Lowers one call: on success exactly one witness is handed out and
    /// exactly one gate is pushed; on failure the builder is as it was.
    fn call(evaluator: &mut Evaluator, env: &mut Environment, call_expr: HirCallExpression) -> (r:
        Result<Object, RuntimeErrorKind>)
        requires
            old(evaluator)@.witness_count < u32::MAX,
        ensures
            r is Err ==> final(evaluator)@ == old(evaluator)@,
            r is Ok ==> final(evaluator)@.witness_count == old(evaluator)@.witness_count + 1,
            r is Ok ==> final(evaluator)@.gates.len() == old(evaluator)@.gates.len() + 1,
            r is Ok ==> final(evaluator)@.gates.drop_last() == old(evaluator)@.gates,
            final(env)@ == old(env)@,
    ;
}

/// The hash gadget.
pub struct PedersenGadget;

/// The witness that the element at `index` of an array argument stands for,
/// or why the element cannot be an input of `gadget`.
pub open spec fn element_witness(gadget: OPCODE, index: nat, element: Object) -> Result<
    Witness,
    RuntimeErrorKind,
> {
    match element {
        Object::Integer(integer) => Ok(integer.witness),
        Object::Linear(lin) => if lin.spec_is_unit() {
            Ok(lin.witness)
        } else {
            Err(
                RuntimeErrorKind::UnsupportedElement {
                    gadget,
                    index: index as usize,
                    construct: UnsupportedConstruct::NonUnitLinear,
                },
            )
        },
        other => Err(
            RuntimeErrorKind::UnsupportedElement {
                gadget,
                index: index as usize,
                construct: UnsupportedConstruct::Kind(other.spec_kind()),
            },
        ),
    }
}

/// The inputs that the elements of an array argument make, each at the full
/// width of the field; where elements cannot be inputs, the report on the
/// first of them.
pub open spec fn inputs_of(gadget: OPCODE, contents: Seq<Object>) -> Result<
    Seq<GadgetInput>,
    RuntimeErrorKind,
>
    decreases contents.len(),
{
    if contents.len() == 0 {
        Ok(Seq::empty())
    } else {
        match inputs_of(gadget, contents.drop_last()) {
            Err(e) => Err(e),
            Ok(inputs) => match element_witness(
                gadget,
                (contents.len() - 1) as nat,
                contents.last(),
            ) {
                Err(e) => Err(e),
                Ok(witness) => Ok(inputs.push(GadgetInput { witness, num_bits: 254 })),
            },
        }
    }
}

/// The inputs of a call of the hash gadget: the call must have one
/// argument, that argument must be lowered to an array with at least one
/// element, and each element must stand for a witness.
pub open spec fn prepared_inputs(env: Seq<Object>, call_expr: HirCallExpression) -> Result<
    Seq<GadgetInput>,
    RuntimeErrorKind,
> {
    let gadget = OPCODE::Pedersen;
    if call_expr.arguments@.len() != 1 {
        Err(
            RuntimeErrorKind::ArgumentCountMismatch {
                gadget,
                expected: 1,
                found: call_expr.arguments@.len() as usize,
            },
        )
    } else if call_expr.arguments@[0].0 >= env.len() {
        Err(RuntimeErrorKind::ExpectedArray { gadget, found: None })
    } else {
        match env[call_expr.arguments@[0].0 as int] {
            Object::Array(arr) => if arr.contents@.len() == 0 {
                Err(RuntimeErrorKind::EmptyArray { gadget })
            } else {
                inputs_of(gadget, arr.contents@)
            },
            other => Err(RuntimeErrorKind::ExpectedArray { gadget, found: Some(other.spec_kind()) }),
        }
    }
}

/// What a call of the hash gadget pushes: one gadget call with one output.
pub open spec fn pedersen_gate(inputs: Seq<GadgetInput>, output: Witness) -> GateView<FieldElement> {
    GateView::GadgetCall(GadgetCallView { name: OPCODE::Pedersen, inputs, outputs: seq![output] })
}

/// A report on an element stands, whatever elements follow it.
pub proof fn lemma_first_error_stands(gadget: OPCODE, contents: Seq<Object>, k: int)
    requires
        0 <= k <= contents.len(),
        inputs_of(gadget, contents.subrange(0, k)) is Err,
    ensures
        inputs_of(gadget, contents) == inputs_of(gadget, contents.subrange(0, k)),
    decreases contents.len() - k,
{
    if k < contents.len() {
        let next = contents.subrange(0, k + 1);
        assert(next.drop_last() =~= contents.subrange(0, k));
        lemma_first_error_stands(gadget, contents, k + 1);
    } else {
        assert(contents.subrange(0, k) =~= contents);
    }
}

/// The inputs of a call are as many as the elements of its array, one for
/// each, and every input has the full width of the field.
pub proof fn lemma_inputs_follow_elements(gadget: OPCODE, contents: Seq<Object>)
    requires
        inputs_of(gadget, contents) is Ok,
    ensures
        inputs_of(gadget, contents)->Ok_0.len() == contents.len(),
        forall|i: int|
            0 <= i < contents.len() ==> element_witness(gadget, i as nat, contents[i]) == Ok::<
                Witness,
                RuntimeErrorKind,
            >((#[trigger] inputs_of(gadget, contents)->Ok_0[i]).witness),
        forall|i: int|
            0 <= i < contents.len() ==> (#[trigger] inputs_of(gadget, contents)->Ok_0[i]).num_bits
                == 254,
    decreases contents.len(),
{
    if contents.len() > 0 {
        lemma_inputs_follow_elements(gadget, contents.drop_last());
    }
}

impl PedersenGadget {
    /// The inputs of a call, or why the call cannot be lowered. Nothing is
    /// changed.
    fn prepare_inputs(env: &Environment, call_expr: &HirCallExpression) -> (r: Result<
        Vec<GadgetInput>,
        RuntimeErrorKind,
    >)
        ensures
            match r {
                Ok(inputs) => prepared_inputs(env@, *call_expr) == Ok::<
                    Seq<GadgetInput>,
                    RuntimeErrorKind,
                >(inputs@),
                Err(e) => prepared_inputs(env@, *call_expr) == Err::<
                    Seq<GadgetInput>,
                    RuntimeErrorKind,
                >(e),
            },
    {
        let gadget = OPCODE::Pedersen;
        // A hash takes a single argument, which is an array.
        if call_expr.arguments.len() != 1 {
            return Err(
                RuntimeErrorKind::ArgumentCountMismatch {
                    gadget,
                    expected: 1,
                    found: call_expr.arguments.len(),
                },
            );
        }
        let arr = match env.get(call_expr.arguments[0]) {
            Some(Object::Array(arr)) => arr,
            Some(other) => {
                return Err(RuntimeErrorKind::ExpectedArray { gadget, found: Some(other.kind()) });
            },
            None => {
                return Err(RuntimeErrorKind::ExpectedArray { gadget, found: None });
            },
        };
        if arr.contents.len() < 1 {
            return Err(RuntimeErrorKind::EmptyArray { gadget });
        }
        let mut inputs: Vec<GadgetInput> = Vec::new();
        let mut i: usize = 0;
        while i < arr.contents.len()
            invariant
                gadget == OPCODE::Pedersen,
                prepared_inputs(env@, *call_expr) == inputs_of(gadget, arr.contents@),
                i <= arr.contents@.len(),
                inputs_of(gadget, arr.contents@.subrange(0, i as int)) == Ok::<
                    Seq<GadgetInput>,
                    RuntimeErrorKind,
                >(inputs@),
            decreases arr.contents@.len() - i,
        {
            proof {
                assert(arr.contents@.subrange(0, i + 1).drop_last() =~= arr.contents@.subrange(
                    0,
                    i as int,
                ));
            }
            let witness = match &arr.contents[i] {
                Object::Integer(integer) => integer.witness,
                Object::Linear(lin) => {
                    if !lin.is_unit() {
                        proof {
                            lemma_first_error_stands(gadget, arr.contents@, i + 1);
                        }
                        return Err(
                            RuntimeErrorKind::UnsupportedElement {
                                gadget,
                                index: i,
                                construct: UnsupportedConstruct::NonUnitLinear,
                            },
                        );
                    }
                    lin.witness
                },
                k => {
                    proof {
                        lemma_first_error_stands(gadget, arr.contents@, i + 1);
                    }
                    return Err(
                        RuntimeErrorKind::UnsupportedElement {
                            gadget,
                            index: i,
                            construct: UnsupportedConstruct::Kind(k.kind()),
                        },
                    );
                },
            };
            inputs.push(GadgetInput { witness, num_bits: FieldElement::max_num_bits() });
            i += 1;
        }
        assert(arr.contents@.subrange(0, i as int) =~= arr.contents@);
        Ok(inputs)
    }
}

impl GadgetCaller for PedersenGadget {
    fn name() -> (r: OPCODE)
        ensures
            r == OPCODE::Pedersen,
    {
        OPCODE::Pedersen
    }

    /// Lowers a call of the hash gadget. Where the inputs can be prepared,
    /// the next witness is handed out for the result, one gadget call that
    /// ties it to the inputs is pushed, and the value that stands for that
    /// witness is returned. Where they cannot, their report is returned and nothing is
    /// changed.
    fn call(evaluator: &mut Evaluator, env: &mut Environment, call_expr: HirCallExpression) -> (r:
        Result<Object, RuntimeErrorKind>)
        ensures
            match r {
                Ok(object) => {
                    &&& prepared_inputs(old(env)@, call_expr) is Ok
                    &&& object.is_witness(old(evaluator)@.next_witness())
                    &&& final(evaluator)@ == old(evaluator)@.after_allocation().after_push(
                        pedersen_gate(
                            prepared_inputs(old(env)@, call_expr)->Ok_0,
                            old(evaluator)@.next_witness(),
                        ),
                    )
                    &&& old(evaluator)@.is_closed() && inputs_in_scope(
                        prepared_inputs(old(env)@, call_expr)->Ok_0,
                        old(evaluator)@.witness_count,
                    ) ==> final(evaluator)@.is_closed()
                },
                Err(e) => {
                    &&& prepared_inputs(old(env)@, call_expr) == Err::<
                        Seq<GadgetInput>,
                        RuntimeErrorKind,
                    >(e)
                    &&& final(evaluator)@ == old(evaluator)@
                },
            },
    {
        let inputs = match PedersenGadget::prepare_inputs(env, &call_expr) {
            Ok(inputs) => inputs,
            Err(e) => {
                return Err(e);
            },
        };
        // The witness that stands for the hash.
        let pedersen_witness = evaluator.allocate_witness();
        let pedersen_object = Object::from_witness(pedersen_witness);
        let mut outputs: Vec<Witness> = Vec::new();
        outputs.push(pedersen_witness);
        let pedersen_gate = GadgetCall { name: PedersenGadget::name(), inputs, outputs };
        assert(pedersen_gate@.outputs =~= seq![pedersen_witness]);
        evaluator.push_gate(Gate::GadgetCall(pedersen_gate));
        proof {
            let before = old(evaluator)@;
            let inputs = prepared_inputs(old(env)@, call_expr)->Ok_0;
            assert(evaluator@.gates.drop_last() =~= before.gates);
            if before.is_closed() && inputs_in_scope(inputs, before.witness_count) {
                lemma_call_keeps_closed(before, inputs);
            }
        }
        Ok(pedersen_object)
    }
}

/// Every input names a witness with an index below `count`.
pub open spec fn inputs_in_scope(inputs: Seq<GadgetInput>, count: nat) -> bool {
    forall|i: int| 0 <= i < inputs.len() ==> (#[trigger] inputs[i]).witness.0 < count
}

/// A call whose inputs name witnesses of the builder leaves a closed builder
/// closed.
pub proof fn lemma_call_keeps_closed(before: EvaluatorView, inputs: Seq<GadgetInput>)
    requires
        before.is_closed(),
        inputs_in_scope(inputs, before.witness_count),
    ensures
        before.after_allocation().after_push(pedersen_gate(inputs, before.next_witness())).is_closed(),
{
    let after = before.after_allocation().after_push(pedersen_gate(inputs, before.next_witness()));
    assert forall|i: int| 0 <= i < after.gates.len() implies (#[trigger] after.gates[i]).in_scope(
        after.witness_count,
    ) by {
        if i < before.gates.len() {
            lemma_in_scope_grows(before.gates[i], before.witness_count, after.witness_count);
        }
    }
}

} // verus!
