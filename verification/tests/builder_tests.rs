use aeonmi::circuit_builder::{QuantumCircuitBuilder, QuantumGate, QuantumGateType, QubitId};
use aeonmi::hardware_integration::QuantumCircuit as HwCircuit;

#[test]
fn test_circuit_builder_creation() {
    let circuit = QuantumCircuitBuilder::new("test_circuit");
    assert_eq!(circuit.name, "test_circuit");
    assert_eq!(circuit.qubit_count(), 0);
    assert_eq!(circuit.gate_count(), 0);
}

#[test]
fn test_bell_state_circuit() {
    let mut circuit = QuantumCircuitBuilder::new("bell_state");
    let qubits = circuit.add_qubits(2);

    circuit.h(&qubits[0]).cnot(&qubits[0], &qubits[1]).measure_all();

    assert_eq!(circuit.qubit_count(), 2);
    assert_eq!(circuit.gate_count(), 4); // H + CNOT + 2 measurements
}

#[test]
fn test_quantum_fourier_transform() {
    let mut circuit = QuantumCircuitBuilder::new("qft_3_qubit");
    let qubits = circuit.add_qubits(3);

    circuit
        .h(&qubits[0])
        .phase(&qubits[0], (std::f64::consts::PI / 2.0).to_bits())
        .h(&qubits[1])
        .phase(&qubits[1], (std::f64::consts::PI / 4.0).to_bits())
        .phase(&qubits[0], (std::f64::consts::PI / 4.0).to_bits())
        .h(&qubits[2]);

    assert_eq!(circuit.qubit_count(), 3);
    assert!(circuit.gate_count() > 0);
}

#[test]
fn qubits_are_numbered_on() {
    let mut circuit = QuantumCircuitBuilder::new("c");
    let first = circuit.add_qubits(2);
    let named = circuit.add_named_qubit("anc");
    let more = circuit.add_qubits(1);
    assert_eq!(first, vec![QubitId::indexed("q", 0), QubitId::indexed("q", 1)]);
    assert_eq!(named, QubitId::new("anc"));
    assert_eq!(more, vec![QubitId::indexed("q", 3)]);
    assert_eq!(circuit.qubits.len(), 4);
    assert_eq!(circuit.get_qubit_index(&QubitId::new("anc")), Some(2));
    assert_eq!(circuit.get_qubit_index(&QubitId::indexed("q", 3)), Some(3));
    assert_eq!(circuit.get_qubit_index(&QubitId::indexed("r", 0)), None);
}

#[test]
fn measure_all_writes_one_bit_per_qubit() {
    let mut circuit = QuantumCircuitBuilder::new("m");
    let qubits = circuit.add_qubits(3);
    circuit.x(&qubits[1]).measure_all();
    assert_eq!(circuit.gate_count(), 4);
    for i in 0..3 {
        let gate = &circuit.gates[1 + i];
        assert!(matches!(gate.gate_type, QuantumGateType::Measure));
        assert_eq!(gate.qubits, vec![qubits[i].clone()]);
        assert_eq!(gate.classical_bits, vec![format!("c[{}]", i)]);
    }
}

#[test]
fn registers_parameters_and_levels() {
    let mut circuit = QuantumCircuitBuilder::new("p");
    circuit.add_classical_register("c", 3);
    assert_eq!(circuit.classical_registers, vec!["c[0]", "c[1]", "c[2]"]);
    circuit.set_parameter("theta", 1.5f64.to_bits()).set_parameter("phi", 0.25f64.to_bits());
    circuit.set_parameter("theta", 2.0f64.to_bits());
    assert_eq!(
        circuit.parameters,
        vec![("theta".to_string(), 2.0f64.to_bits()), ("phi".to_string(), 0.25f64.to_bits())]
    );
    circuit.set_optimization_level(7);
    assert_eq!(circuit.optimization_level, 3);
    circuit.set_optimization_level(2);
    assert_eq!(circuit.optimization_level, 2);
}

#[test]
fn gate_names_and_angles() {
    let circuit = QuantumCircuitBuilder::new("n");
    assert_eq!(circuit.gate_type_to_string(&QuantumGateType::CNOT), "cx");
    assert_eq!(circuit.gate_type_to_string(&QuantumGateType::TDagger), "tdg");
    assert_eq!(circuit.gate_type_to_string(&QuantumGateType::Custom("my".to_string(), vec![])), "my");
    let rz = QuantumGateType::RotationZ(0.5f64.to_bits());
    assert_eq!(circuit.gate_type_to_string(&rz), "rz");
    assert_eq!(circuit.extract_gate_parameters(&rz), vec![0.5f64.to_bits()]);
    assert_eq!(
        circuit.extract_gate_parameters(&QuantumGateType::Custom("u".to_string(), vec![1, 2, 3])),
        vec![1, 2, 3]
    );
    assert!(circuit.extract_gate_parameters(&QuantumGateType::Hadamard).is_empty());
}

#[test]
fn gate_metadata_keeps_each_key_once() {
    let gate = QuantumGate::new(QuantumGateType::Hadamard, vec![QubitId::new("a")])
        .with_metadata("k", "1")
        .with_metadata("j", "2")
        .with_metadata("k", "3");
    assert_eq!(gate.metadata, vec![("k".to_string(), "3".to_string()), ("j".to_string(), "2".to_string())]);
}

#[test]
fn test_circuit_construction() {
    let mut circuit = HwCircuit::new(2);
    circuit.h(0);
    circuit.cx(0, 1);
    circuit.measure_all();

    assert_eq!(circuit.gates.len(), 2);
    assert_eq!(circuit.measurements.len(), 2);
}

#[test]
fn hardware_measurements_are_kept_once() {
    let mut circuit = HwCircuit::new(3);
    circuit.add_measurement(2);
    circuit.add_measurement(2);
    circuit.measure_all();
    assert_eq!(circuit.measurements, vec![2, 0, 1]);
    circuit.rz(1, 0.5f64.to_bits());
    assert_eq!(circuit.gates[0].gate_type, "rz");
    assert_eq!(circuit.gates[0].qubits, vec![1]);
    assert_eq!(circuit.gates[0].parameters, vec![0.5f64.to_bits()]);
}

#[test]
fn builder_converts_to_hardware_form() {
    let mut circuit = QuantumCircuitBuilder::new("hw");
    let qubits = circuit.add_qubits(2);
    let stray = QubitId::new("stray");
    circuit.h(&qubits[0]).cnot(&qubits[0], &qubits[1]).rz(&qubits[1], 0.25f64.to_bits()).cz(&stray, &qubits[0]);
    let hw = circuit.to_hardware_circuit();
    assert_eq!(hw.qubits, 2);
    assert!(hw.measurements.is_empty());
    let names: Vec<&str> = hw.gates.iter().map(|g| g.gate_type.as_str()).collect();
    assert_eq!(names, vec!["h", "cx", "rz", "cz"]);
    assert_eq!(hw.gates[1].qubits, vec![0, 1]);
    assert_eq!(hw.gates[2].parameters, vec![0.25f64.to_bits()]);
    // a qubit the circuit does not hold is left out
    assert_eq!(hw.gates[3].qubits, vec![0]);
}
