use noir_core::circuit::{Arithmetic, GadgetInput, Gate, Witness, OPCODE};
use noir_core::evaluator::{
    Array, Environment, Evaluator, Integer, Linear, Object, ObjectKind, RuntimeErrorKind,
    UnsupportedConstruct,
};
use noir_core::field::FieldElement;
use noir_core::gadget::{GadgetCaller, PedersenGadget};
use noir_core::hir::{ExprId, FuncId, HirCallExpression};

fn array_of(contents: Vec<Object>) -> Object {
    let length = contents.len() as u128;
    Object::Array(Array { contents, length })
}

fn integer(witness: Witness) -> Object {
    Object::Integer(Integer { witness, num_bits: 32 })
}

fn call_with(arguments: Vec<ExprId>) -> HirCallExpression {
    HirCallExpression { func_id: FuncId(0), arguments }
}

#[test]
fn the_gadget_is_known_as_pedersen() {
    assert_eq!(PedersenGadget::name(), OPCODE::Pedersen);
}

#[test]
fn a_call_with_one_integer_makes_one_witness_and_one_gate() {
    let mut evaluator = Evaluator::new();
    let mut env = Environment::new();
    let w0 = evaluator.allocate_witness();
    let argument = env.store(array_of(vec![integer(w0)]));

    let result = PedersenGadget::call(&mut evaluator, &mut env, call_with(vec![argument]));

    let w1 = Witness(1);
    let object = result.expect("the call is well formed");
    assert!(matches!(object, Object::Linear(l) if l.witness == w1 && l.is_unit()));
    assert_eq!(evaluator.witness_count(), 2);
    assert_eq!(evaluator.gates().len(), 1);
    match &evaluator.gates()[0] {
        Gate::GadgetCall(call) => {
            assert_eq!(call.name, OPCODE::Pedersen);
            assert_eq!(
                call.inputs,
                vec![GadgetInput { witness: w0, num_bits: FieldElement::max_num_bits() }]
            );
            assert_eq!(call.inputs[0].num_bits, 254);
            assert_eq!(call.outputs, vec![w1]);
        }
        other => panic!("expected a gadget call, found {:?}", other),
    }
}

#[test]
fn inputs_follow_the_elements_in_order() {
    let mut evaluator = Evaluator::new();
    let mut env = Environment::new();
    let w0 = evaluator.allocate_witness();
    let w1 = evaluator.allocate_witness();
    let w2 = evaluator.allocate_witness();
    evaluator.push_gate(Gate::Range(w0, 8));
    let argument = env.store(array_of(vec![
        integer(w2),
        Object::Linear(Linear::from_witness(w0)),
        integer(w1),
    ]));

    let result = PedersenGadget::call(&mut evaluator, &mut env, call_with(vec![argument]));

    assert!(result.is_ok());
    assert_eq!(evaluator.witness_count(), 4);
    assert_eq!(evaluator.gates().len(), 2);
    assert!(matches!(evaluator.gates()[0], Gate::Range(Witness(0), 8)));
    match &evaluator.gates()[1] {
        Gate::GadgetCall(call) => {
            let witnesses: Vec<Witness> = call.inputs.iter().map(|i| i.witness).collect();
            assert_eq!(witnesses, vec![w2, w0, w1]);
            assert!(call.inputs.iter().all(|i| i.num_bits == 254));
            assert_eq!(call.outputs, vec![Witness(3)]);
        }
        other => panic!("expected a gadget call, found {:?}", other),
    }
}

#[test]
fn an_empty_array_is_reported_and_changes_nothing() {
    let mut evaluator = Evaluator::new();
    let mut env = Environment::new();
    let w0 = evaluator.allocate_witness();
    evaluator.push_gate(Gate::Range(w0, 8));
    let argument = env.store(array_of(vec![]));

    let result = PedersenGadget::call(&mut evaluator, &mut env, call_with(vec![argument]));

    let error = result.expect_err("an empty array cannot be hashed");
    assert_eq!(error, RuntimeErrorKind::EmptyArray { gadget: OPCODE::Pedersen });
    assert!(!error.is_unsupported_feature());
    assert_eq!(error.gadget(), OPCODE::Pedersen);
    assert_eq!(evaluator.witness_count(), 1);
    assert_eq!(evaluator.gates().len(), 1);
}

#[test]
fn two_arguments_are_reported_and_change_nothing() {
    let mut evaluator = Evaluator::new();
    let mut env = Environment::new();
    let w0 = evaluator.allocate_witness();
    let first = env.store(array_of(vec![integer(w0)]));
    let second = env.store(array_of(vec![integer(w0)]));

    let result = PedersenGadget::call(&mut evaluator, &mut env, call_with(vec![first, second]));

    assert_eq!(
        result.expect_err("the gadget takes one argument"),
        RuntimeErrorKind::ArgumentCountMismatch { gadget: OPCODE::Pedersen, expected: 1, found: 2 }
    );
    assert_eq!(evaluator.witness_count(), 1);
    assert!(evaluator.gates().is_empty());
}

#[test]
fn no_argument_is_reported_and_changes_nothing() {
    let mut evaluator = Evaluator::new();
    let mut env = Environment::new();

    let result = PedersenGadget::call(&mut evaluator, &mut env, call_with(vec![]));

    assert_eq!(
        result.expect_err("the gadget takes one argument"),
        RuntimeErrorKind::ArgumentCountMismatch { gadget: OPCODE::Pedersen, expected: 1, found: 0 }
    );
    assert_eq!(evaluator.witness_count(), 0);
    assert!(evaluator.gates().is_empty());
}

#[test]
fn an_argument_that_is_no_array_is_reported() {
    let mut evaluator = Evaluator::new();
    let mut env = Environment::new();
    let w0 = evaluator.allocate_witness();
    let argument = env.store(integer(w0));

    let result = PedersenGadget::call(&mut evaluator, &mut env, call_with(vec![argument]));
    assert_eq!(
        result.expect_err("an integer is no array"),
        RuntimeErrorKind::ExpectedArray {
            gadget: OPCODE::Pedersen,
            found: Some(ObjectKind::Integer)
        }
    );

    let result = PedersenGadget::call(&mut evaluator, &mut env, call_with(vec![ExprId(17)]));
    assert_eq!(
        result.expect_err("nothing is kept under this id"),
        RuntimeErrorKind::ExpectedArray { gadget: OPCODE::Pedersen, found: None }
    );
    assert_eq!(evaluator.witness_count(), 1);
    assert!(evaluator.gates().is_empty());
}

#[test]
fn a_linear_expression_that_is_no_unit_is_not_supported_yet() {
    let mut evaluator = Evaluator::new();
    let mut env = Environment::new();
    let w0 = evaluator.allocate_witness();
    let doubled = Linear {
        mul_scale: FieldElement::from(2i128),
        witness: w0,
        add_scale: FieldElement::zero(),
    };
    let argument = env.store(array_of(vec![integer(w0), Object::Linear(doubled)]));

    let result = PedersenGadget::call(&mut evaluator, &mut env, call_with(vec![argument]));

    let error = result.expect_err("only unit expressions are taken");
    assert_eq!(
        error,
        RuntimeErrorKind::UnsupportedElement {
            gadget: OPCODE::Pedersen,
            index: 1,
            construct: UnsupportedConstruct::NonUnitLinear
        }
    );
    assert!(error.is_unsupported_feature());
    assert_eq!(evaluator.witness_count(), 1);
    assert!(evaluator.gates().is_empty());
}

#[test]
fn an_element_of_another_kind_is_reported_with_its_kind() {
    let mut evaluator = Evaluator::new();
    let mut env = Environment::new();
    let w0 = evaluator.allocate_witness();
    let arithmetic = Object::Arithmetic(Arithmetic {
        mul_terms: vec![],
        linear_combinations: vec![(FieldElement::one(), w0)],
        q_c: FieldElement::one(),
    });
    let cases = vec![
        (Object::Null, ObjectKind::Null),
        (Object::Constants(FieldElement::one()), ObjectKind::Constants),
        (array_of(vec![integer(w0)]), ObjectKind::Array),
        (arithmetic, ObjectKind::Arithmetic),
    ];
    for (element, kind) in cases {
        let argument = env.store(array_of(vec![element, Object::Null]));
        let result = PedersenGadget::call(&mut evaluator, &mut env, call_with(vec![argument]));
        assert_eq!(
            result.expect_err("the element stands for no witness"),
            RuntimeErrorKind::UnsupportedElement {
                gadget: OPCODE::Pedersen,
                index: 0,
                construct: UnsupportedConstruct::Kind(kind)
            }
        );
        assert_eq!(evaluator.witness_count(), 1);
        assert!(evaluator.gates().is_empty());
    }
}

#[test]
fn a_failed_call_does_not_disturb_a_later_one() {
    let mut evaluator = Evaluator::new();
    let mut env = Environment::new();
    let w0 = evaluator.allocate_witness();
    let empty = env.store(array_of(vec![]));
    let good = env.store(array_of(vec![integer(w0)]));

    assert!(PedersenGadget::call(&mut evaluator, &mut env, call_with(vec![empty])).is_err());
    assert!(PedersenGadget::call(&mut evaluator, &mut env, call_with(vec![good])).is_ok());
    assert!(PedersenGadget::call(&mut evaluator, &mut env, call_with(vec![good])).is_ok());

    assert_eq!(evaluator.witness_count(), 3);
    assert_eq!(evaluator.gates().len(), 2);
    match (&evaluator.gates()[0], &evaluator.gates()[1]) {
        (Gate::GadgetCall(first), Gate::GadgetCall(second)) => {
            assert_eq!(first.outputs, vec![Witness(1)]);
            assert_eq!(second.outputs, vec![Witness(2)]);
        }
        other => panic!("expected two gadget calls, found {:?}", other),
    }
}
