use aeonmi::quantum_circuits::QuantumCircuit;
use aeonmi::quantum_operations::QuantumOperation;

#[test]
fn runtime_circuit_diagram() {
    let mut c = QuantumCircuit::new(3);
    c.add_operation(QuantumOperation::Hadamard { target: 0 });
    c.add_operation(QuantumOperation::CNOT { control: 0, target: 1 });
    c.add_operation(QuantumOperation::RotationY { target: 2, angle: 1.5f64.to_bits() });
    assert_eq!(
        c.ascii_diagram(),
        "q0  \u{2500}[H]\u{2500}\u{25cf}\u{2500}\u{2500}\u{2500}\u{2500}\u{2500}\n\
         q1  \u{2500}\u{2500}\u{2500}\u{2500}\u{2500}\u{2295}\u{2500}\u{2500}\u{2500}\u{2500}\u{2500}\n\
         q2  \u{2500}\u{2500}\u{2500}\u{2500}\u{2500}\u{2500}\u{2500}[Ry]\u{2500}"
    );
    assert_eq!(c.depth(), 3);
    assert_eq!(c.to_text(), "QuantumCircuit { qubits: 3, depth: 3 }");
}

#[test]
fn runtime_circuit_builders() {
    let mut c = QuantumCircuit::with_label(3, "grover".to_string());
    assert!(c.is_empty());
    c.apply_hadamard_all();
    c.apply_entangle_chain();
    assert_eq!(
        c.operations,
        vec![
            QuantumOperation::Hadamard { target: 0 },
            QuantumOperation::Hadamard { target: 1 },
            QuantumOperation::Hadamard { target: 2 },
            QuantumOperation::CNOT { control: 0, target: 1 },
            QuantumOperation::CNOT { control: 1, target: 2 },
        ]
    );
    assert_eq!(c.label, Some("grover".to_string()));
    let mut empty = QuantumCircuit::new(0);
    empty.apply_entangle_chain();
    assert!(empty.is_empty());
    assert_eq!(empty.ascii_diagram(), "");
    let wide = QuantumCircuit::new(13);
    assert!(wide.ascii_diagram().ends_with("q12 \u{2500}"));
}

#[test]
fn operation_names_and_targets() {
    let t = QuantumOperation::Toffoli { control_a: 0, control_b: 1, target: 2 };
    assert_eq!(t.name(), "Toffoli");
    assert_eq!(t.target_qubit(), 2);
    let p = QuantumOperation::Phase { target: 4, angle: 0.25f64.to_bits() };
    assert_eq!(p.name(), "P");
    assert_eq!(p.target_qubit(), 4);
    assert_eq!(QuantumOperation::Measure { target: 1 }.name(), "M");
}
