use noir_core::circuit::{Gate, Witness};
use noir_core::evaluator::{Environment, Evaluator, Integer, Linear, Object, ObjectKind};
use noir_core::field::FieldElement;
use noir_core::hir::ExprId;

#[test]
fn a_new_builder_is_empty() {
    let evaluator = Evaluator::new();
    assert_eq!(evaluator.witness_count(), 0);
    assert!(evaluator.gates().is_empty());
}

#[test]
fn allocated_witnesses_are_distinct_and_in_order() {
    let mut evaluator = Evaluator::new();
    let mut handed_out = Vec::new();
    for expected in 0..100u32 {
        let witness = evaluator.allocate_witness();
        assert_eq!(witness, Witness(expected));
        assert_eq!(evaluator.witness_count(), expected + 1);
        handed_out.push(witness);
    }
    for i in 0..handed_out.len() {
        for j in (i + 1)..handed_out.len() {
            assert_ne!(handed_out[i], handed_out[j]);
            assert!(handed_out[i] < handed_out[j]);
        }
    }
    assert!(evaluator.gates().is_empty());
}

#[test]
fn gates_are_kept_in_the_order_of_their_pushes() {
    let mut evaluator = Evaluator::new();
    let w0 = evaluator.allocate_witness();
    let w1 = evaluator.allocate_witness();
    evaluator.push_gate(Gate::Range(w0, 8));
    evaluator.push_gate(Gate::Range(w1, 16));
    let w2 = evaluator.allocate_witness();
    evaluator.push_gate(Gate::Range(w2, 32));
    assert_eq!(evaluator.witness_count(), 3);
    let gates = evaluator.gates();
    assert_eq!(gates.len(), 3);
    assert!(matches!(gates[0], Gate::Range(Witness(0), 8)));
    assert!(matches!(gates[1], Gate::Range(Witness(1), 16)));
    assert!(matches!(gates[2], Gate::Range(Witness(2), 32)));
}

#[test]
fn pushing_a_gate_hands_out_no_witness() {
    let mut evaluator = Evaluator::new();
    let w0 = evaluator.allocate_witness();
    evaluator.push_gate(Gate::Range(w0, 8));
    assert_eq!(evaluator.witness_count(), 1);
    assert_eq!(evaluator.allocate_witness(), Witness(1));
}

#[test]
fn the_environment_finds_values_by_their_ids() {
    let mut env = Environment::new();
    assert!(env.get(ExprId(0)).is_none());
    let first = env.store(Object::Null);
    let second = env.store(Object::Constants(FieldElement::from(5i128)));
    assert_eq!(first, ExprId(0));
    assert_eq!(second, ExprId(1));
    assert!(matches!(env.get(first), Some(Object::Null)));
    assert!(matches!(env.get(second), Some(Object::Constants(c)) if *c == FieldElement::from(5i128)));
    assert!(env.get(ExprId(2)).is_none());
}

#[test]
fn a_linear_expression_is_unit_when_it_is_its_witness() {
    let unit = Linear::from_witness(Witness(4));
    assert!(unit.is_unit());
    assert_eq!(unit.witness, Witness(4));
    let scaled = Linear {
        mul_scale: FieldElement::from(2i128),
        witness: Witness(4),
        add_scale: FieldElement::zero(),
    };
    assert!(!scaled.is_unit());
    let shifted = Linear {
        mul_scale: FieldElement::one(),
        witness: Witness(4),
        add_scale: FieldElement::one(),
    };
    assert!(!shifted.is_unit());
}

#[test]
fn objects_know_their_kind() {
    assert_eq!(Object::Null.kind(), ObjectKind::Null);
    assert_eq!(
        Object::Integer(Integer { witness: Witness(0), num_bits: 8 }).kind(),
        ObjectKind::Integer
    );
    assert_eq!(Object::Constants(FieldElement::one()).kind(), ObjectKind::Constants);
    let from_witness = Object::from_witness(Witness(9));
    assert_eq!(from_witness.kind(), ObjectKind::Linear);
    assert!(matches!(from_witness, Object::Linear(l) if l.witness == Witness(9) && l.is_unit()));
}
