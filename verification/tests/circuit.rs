use noir_core::circuit::{
    AndGate, Arithmetic, Directive, GadgetCall, GadgetInput, Gate, Witness, XorGate, OPCODE,
};
use noir_core::field::FieldElement;

fn sample_arithmetic() -> Arithmetic<FieldElement> {
    Arithmetic {
        mul_terms: vec![(FieldElement::one(), Witness(0), Witness(1))],
        linear_combinations: vec![(FieldElement::from(-1i128), Witness(2))],
        q_c: FieldElement::zero(),
    }
}

#[test]
fn only_the_arithmetic_gate_is_arithmetic() {
    let gates: Vec<Gate<FieldElement>> = vec![
        Gate::Arithmetic(sample_arithmetic()),
        Gate::Range(Witness(3), 8),
        Gate::And(AndGate { a: Witness(0), b: Witness(1), result: Witness(2), num_bits: 8 }),
        Gate::Xor(XorGate { a: Witness(0), b: Witness(1), result: Witness(2), num_bits: 8 }),
        Gate::GadgetCall(GadgetCall {
            name: OPCODE::SHA256,
            inputs: vec![GadgetInput { witness: Witness(0), num_bits: 8 }],
            outputs: vec![Witness(1)],
        }),
        Gate::Directive(Directive::Invert { x: Witness(0), result: Witness(1) }),
    ];
    let flags: Vec<bool> = gates.iter().map(|g| g.is_arithmetic()).collect();
    assert_eq!(flags, vec![true, false, false, false, false, false]);
}

#[test]
fn the_payload_of_an_arithmetic_gate_comes_out_whole() {
    let gate = Gate::Arithmetic(sample_arithmetic());
    assert!(gate.is_arithmetic());
    let payload = gate.arithmetic();
    assert_eq!(payload.mul_terms, vec![(FieldElement::one(), Witness(0), Witness(1))]);
    assert_eq!(
        payload.linear_combinations,
        vec![(FieldElement::from(-1i128), Witness(2))]
    );
    assert_eq!(payload.q_c, FieldElement::zero());
}

#[test]
fn gates_can_be_cloned() {
    let gate: Gate<FieldElement> = Gate::Range(Witness(7), 32);
    let copy = gate.clone();
    assert!(matches!(copy, Gate::Range(Witness(7), 32)));
}
