use aeonmi::bytecode::{OpCode, OptStats};
use aeonmi::circuit_builder::QubitId;
use aeonmi::circuit_compiler::{check_target, get_qubit_indices, CompilationError, CompilationOptions, CompilationTarget};
use aeonmi::circuit_visualization::{get_gate_qubit_indices, AsciiStyle, CircuitVisualizer, VisualizationConfig};
use aeonmi::code_generator::{Backend, CodeGenerator, HelperSet};
use aeonmi::hardware_integration::{cancel_job_status, check_submission, submit_to_provider, DeviceProfile, JobStatus, QuantumProvider};
use aeonmi::mother_core::{mood_label, sentiment_counts, CreatorInteraction, DepthTier, EvolutionMatrix, LanguageEvolutionCore};
use aeonmi::parser::{is_quantum_variable_symbol, Parser, ParserError};
use aeonmi::quantum_algorithms::gcd;
use aeonmi::quantum_bridge::{first_python_with_qiskit, IBMQuantumBackend, QiskitBackend, QuantumBridgeConfig, QuantumError};
use aeonmi::quantum_neural_network::SpecializedAlgorithms;
use aeonmi::token::TokenKind;

#[test]
fn test_qkd() {
    let key = SpecializedAlgorithms::qkd(8);
    assert_eq!(key.len(), 8);
}

#[test]
fn qkd_bits() {
    assert_eq!(SpecializedAlgorithms::qkd(0), Vec::<u8>::new());
    assert_eq!(SpecializedAlgorithms::qkd(1).len(), 1);
    assert!(SpecializedAlgorithms::qkd(64).iter().all(|&b| b <= 1));
    assert_eq!(SpecializedAlgorithms::qkd(20).len(), 20);
}

#[test]
fn gcd_values() {
    assert_eq!(gcd(12, 18), 6);
    assert_eq!(gcd(17, 5), 1);
    assert_eq!(gcd(7, 0), 7);
    assert_eq!(gcd(0, 9), 9);
    assert_eq!(gcd(15, 6), 3);
}

#[test]
fn qubit_ids() {
    assert_eq!(QubitId::new("q").to_text(), "q");
    let q = QubitId::indexed("reg", 12);
    assert_eq!(q.index, Some(12));
    assert_eq!(q.to_text(), "reg[12]");
}

#[test]
fn error_texts() {
    assert_eq!(QuantumError::CircuitTooLarge(40, 32).to_text(), "Circuit requires 40 qubits but backend supports only 32");
    assert_eq!(QuantumError::BackendUnavailable("ibm".to_string()).to_text(), "Quantum backend 'ibm' is unavailable");
    assert_eq!(QuantumError::ExecutionTimeout.to_text(), "Quantum execution timed out");
    assert_eq!(CompilationError::InvalidQubit("q9".to_string()).to_text(), "Invalid qubit: q9");
    assert_eq!(
        ParserError { message: "Expected ')'".to_string(), line: 4, column: 10 }.to_text(),
        "Expected ')' at 4:10"
    );
}

#[test]
fn default_settings() {
    let c = QuantumBridgeConfig::default();
    assert!(c.optimize_circuits);
    assert_eq!((c.max_local_qubits, c.measurement_shots, c.operation_timeout), (16, 1024, 60));
    let o = CompilationOptions::default();
    assert_eq!(o.target, CompilationTarget::OpenQASM2);
    assert_eq!(o.optimization_level, 1);
    assert!(o.include_measurements && !o.preserve_layout && !o.error_mitigation);
    let v = VisualizationConfig::default();
    assert_eq!(v.ascii_style, AsciiStyle::Unicode);
    assert_eq!(v.max_width, 80);
    let _ = CircuitVisualizer::default();
    assert_eq!(OptStats::default().const_folds, 0);
    assert_ne!(OpCode::Jump(1), OpCode::JumpIfFalse(1));
}

#[test]
fn python_lookup_takes_the_first_success() {
    assert_eq!(first_python_with_qiskit([false, true, true]).unwrap(), "python");
    assert_eq!(first_python_with_qiskit([true, false, false]).unwrap(), "python3");
    match first_python_with_qiskit([false, false, false]) {
        Err(QuantumError::ConfigurationError(m)) => assert_eq!(m, "Qiskit not found"),
        other => panic!("unexpected {:?}", other),
    }
}

#[test]
fn backend_constructors() {
    let q = QiskitBackend::new(
        "aer".to_string(),
        None,
        Ok("python3".to_string()),
        Err(QuantumError::ConfigurationError("no script".to_string())),
    );
    assert!(matches!(q, Err(QuantumError::ConfigurationError(m)) if m == "no script"));
    assert!(QiskitBackend::new("aer".to_string(), None, Ok("py".to_string()), Ok("/tmp/s.py".to_string())).is_ok());
    assert!(IBMQuantumBackend::new("ibm_brisbane".to_string(), "token".to_string(), None, None, None).is_ok());
}

#[test]
fn helper_mapping_and_prelude() {
    let mut g = CodeGenerator::new();
    assert_eq!(g.map_helper("len").as_deref(), Some("__aeonmi_len"));
    assert_eq!(g.map_helper("measure").as_deref(), Some("measure"));
    assert_eq!(g.map_helper("𓀀").as_deref(), Some("__glyph.bind(null, '𓀀')"));
    assert_eq!(g.map_helper("plain"), None);
    assert_eq!(g.map_helper("é"), None);
    let only_len = CodeGenerator::render_helpers(HelperSet { len: true, quantum_runtime: false, glyph_runtime: false });
    assert!(only_len.starts_with("const __aeonmi_len = (value) => {\n"));
    assert!(only_len.ends_with("};\n"));
    let two = CodeGenerator::render_helpers(HelperSet { len: true, quantum_runtime: false, glyph_runtime: true });
    assert!(two.contains("};\n\n// Aeonmi Glyph Runtime\n"));
    assert_eq!(CodeGenerator::render_helpers(HelperSet { len: false, quantum_runtime: false, glyph_runtime: false }), "");
    let _ = CodeGenerator::new_ai();
    assert_eq!(Backend::Js, Backend::Js);
}

#[test]
fn operators_and_layout() {
    let g = CodeGenerator::new();
    assert_eq!(g.op_str(&TokenKind::LessEqual), "<=");
    assert_eq!(g.op_str(&TokenKind::Bang), "!");
    assert_eq!(g.op_str(&TokenKind::Comma), "/*op*/");
    assert_eq!(g.indent_str(), "");
    assert_eq!(CodeGenerator::strip_trailing("x = 1;\n".to_string()), "x = 1");
    assert_eq!(CodeGenerator::strip_trailing("f()\n\n".to_string()), "f()\n");
    assert_eq!(CodeGenerator::strip_trailing(";;".to_string()), ";");
}

#[test]
fn quantum_variable_glyphs() {
    assert!(is_quantum_variable_symbol("𓀀"));
    assert!(is_quantum_variable_symbol("𓀉"));
    assert!(!is_quantum_variable_symbol("𓀊"));
    assert!(!is_quantum_variable_symbol("𓀀𓀀"));
    let _ = Parser::new(vec![]);
}

#[test]
fn evolution_logs_labelled_capabilities() {
    let mut m = EvolutionMatrix::new();
    let (g1, c1) = m.evolve("learn quantum entanglement patterns deeply");
    assert_eq!(g1, 1);
    assert_eq!(c1, "gen1: learn quantum entanglement patte");
    let (g2, c2) = m.evolve("hi");
    assert_eq!(g2, 2);
    assert_eq!(c2, "gen2: hi");
    let (_, c3) = m.evolve("");
    assert_eq!(c3, "gen3: ");
}

#[test]
fn creator_interaction_keeps_its_parts() {
    let i = CreatorInteraction::new("hello".to_string()).with_context("ctx".to_string());
    assert_eq!(i.input, "hello");
    assert_eq!(i.context, "ctx");
}

fn wires(n: usize) -> Vec<String> {
    (0..n).map(|i| format!("q[{}]    \u{2502}", i)).collect()
}

#[test]
fn diagram_cnot_and_swap_segments() {
    let v = CircuitVisualizer::default();
    let mut lines = wires(4);
    v.add_cnot_to_diagram(&mut lines, &[0, 2]);
    assert_eq!(lines[0], "q[0]    \u{2502}\u{2500}\u{2500}\u{25cf}\u{2500}\u{2500}");
    assert_eq!(lines[1], "q[1]    \u{2502}\u{2500}\u{2500}\u{2502}\u{2500}\u{2500}");
    assert_eq!(lines[2], "q[2]    \u{2502}\u{2500}\u{2500}\u{2295}\u{2500}\u{2500}");
    assert_eq!(lines[3], "q[3]    \u{2502}\u{2500}\u{2500}\u{2500}\u{2500}\u{2500}");
    let before = lines.clone();
    v.add_swap_to_diagram(&mut lines, &[1]);
    assert_eq!(lines, before);
    v.add_swap_to_diagram(&mut lines, &[3, 1]);
    assert!(lines[1].ends_with("\u{2500}\u{2500}\u{00d7}\u{2500}\u{2500}"));
    assert!(lines[2].ends_with("\u{2500}\u{2500}\u{2502}\u{2500}\u{2500}"));
    assert!(lines[0].ends_with("\u{25cf}\u{2500}\u{2500}\u{2500}\u{2500}\u{2500}\u{2500}\u{2500}"));
}

#[test]
fn diagram_toffoli_controlled_and_measurement() {
    let v = CircuitVisualizer::default();
    let mut lines = wires(3);
    v.add_toffoli_to_diagram(&mut lines, &[2, 0, 1]);
    assert!(lines[2].ends_with("\u{25cf}\u{2500}\u{2500}"));
    assert!(lines[0].ends_with("\u{25cf}\u{2500}\u{2500}"));
    assert!(lines[1].ends_with("\u{2295}\u{2500}\u{2500}"));
    let mut lines = wires(2);
    v.add_controlled_gate_to_diagram(&mut lines, &[1, 0], "Z");
    assert!(lines[1].ends_with("\u{2502}\u{2500}\u{2500}\u{25cf}\u{2500}\u{2500}"));
    assert!(lines[0].ends_with("\u{2502}\u{2500}\u{2500}Z\u{2500}\u{2500}"));
    let mut lines = wires(2);
    v.add_measurement_to_diagram(&mut lines, &[1]);
    assert_eq!(lines[1], "q[1]    \u{2502}\u{2524}\u{1f4ca}\u{251c}");
    assert_eq!(lines[0], "q[0]    \u{2502}\u{2500}\u{2500}\u{2500}\u{2500}\u{2500}");
    let quiet = CircuitVisualizer::new(VisualizationConfig {
        show_measurements: false,
        show_parameters: true,
        show_qubit_labels: true,
        ascii_style: AsciiStyle::Simple,
        max_width: 10,
    });
    let mut lines = wires(2);
    quiet.add_measurement_to_diagram(&mut lines, &[0]);
    assert_eq!(lines[0], "q[0]    \u{2502}\u{2524} M \u{251c}");
    assert_eq!(lines[1], "q[1]    \u{2502}\u{2500}---\u{2500}");
    assert_eq!(quiet.horizontal_line(4), "----");
    assert_eq!(v.horizontal_line(2), "\u{2500}\u{2500}");
}

#[test]
fn diagram_single_gate_symbols() {
    let v = CircuitVisualizer::default();
    let mut lines = wires(2);
    v.add_single_gate_to_diagram(&mut lines, &[0], "H");
    assert_eq!(lines[0], "q[0]    \u{2502}\u{2524}  H   \u{251c}");
    assert_eq!(lines[1], "q[1]    \u{2502}\u{2500}\u{2500}\u{2500}\u{2500}\u{2500}\u{2500}\u{2500}\u{2500}");
    let mut lines = wires(1);
    v.add_single_gate_to_diagram(&mut lines, &[0], "RX(1.57)");
    assert_eq!(lines[0], "q[0]    \u{2502}\u{2524}RX(1.\u{2026}\u{251c}");
    let mut lines = wires(1);
    v.add_single_gate_to_diagram(&mut lines, &[0], "S\u{2020}");
    assert_eq!(lines[0], "q[0]    \u{2502}\u{2524}  S\u{2020}  \u{251c}");
}

#[test]
fn gate_qubit_indices_follow_the_gate_order() {
    let circuit = vec![QubitId::indexed("q", 0), QubitId::indexed("q", 1), QubitId::new("anc"), QubitId::indexed("q", 1)];
    let gate = vec![QubitId::new("anc"), QubitId::indexed("r", 0), QubitId::indexed("q", 1), QubitId::indexed("q", 0)];
    assert_eq!(get_gate_qubit_indices(&gate, &circuit), vec![2, 1, 0]);
    assert_eq!(get_gate_qubit_indices(&[], &circuit), Vec::<usize>::new());
}

#[test]
fn patterns_split_lowercase_and_pick_concepts() {
    let core = LanguageEvolutionCore::new();
    let p = core.analyze_patterns(&CreatorInteraction::new("Hello  quantum World of\u{3000}entanglement\tstuff ".to_string()));
    assert_eq!(p.raw_patterns, vec!["hello", "quantum", "world", "of", "entanglement", "stuff"]);
    assert_eq!(p.key_concepts, vec!["hello", "quantum", "world", "entanglement", "stuff"]);
    assert_eq!(p.depth, DepthTier::Moderate);
    let p = core.analyze_patterns(&CreatorInteraction::new("".to_string()));
    assert!(p.raw_patterns.is_empty());
    assert_eq!(p.depth, DepthTier::Shallow);
    let p = core.analyze_patterns(&CreatorInteraction::new("ÉTÉ abcd superposition entangled coherent measured qubits".to_string()));
    assert_eq!(p.key_concepts, vec!["été", "superposition", "entangled", "coherent", "measured", "qubits"]);
    assert_eq!(p.depth, DepthTier::Deep);
}

#[test]
fn provider_names() {
    assert_eq!(QuantumProvider::IBMQuantum.to_text(), "IBM Quantum");
    assert_eq!(QuantumProvider::Simulator.to_text(), "Local Simulator");
    assert_eq!(QuantumProvider::GoogleQuantumAI.to_text(), "Google Quantum AI");
}

#[test]
fn test_evolution_matrix() {
    let mut evo = EvolutionMatrix::new();
    let (generation, capability) = evo.evolve("quantum consciousness expansion");
    assert_eq!(generation, 1);
    assert_eq!(capability, "gen1: quantum consciousness expansion");
}

fn gates(names: &[&str]) -> Vec<String> {
    names.iter().map(|g| g.to_string()).collect()
}

#[test]
fn submissions_are_checked_in_order() {
    let dev = DeviceProfile { is_available: true, qubits: 5, gate_set: gates(&["h", "cx", "x"]) };
    assert_eq!(check_submission("ionq", Some(&dev), 5, &gates(&["h", "cx"])), Ok(()));
    assert_eq!(check_submission("ghost", None, 1, &gates(&[])), Err("Device 'ghost' not found".to_string()));
    let off = DeviceProfile { is_available: false, qubits: 5, gate_set: gates(&["h"]) };
    assert_eq!(check_submission("off", Some(&off), 1, &gates(&["h"])), Err("Device 'off' is not available".to_string()));
    assert_eq!(
        check_submission("small", Some(&dev), 12, &gates(&["h"])),
        Err("Circuit requires 12 qubits, but device only has 5".to_string())
    );
    assert_eq!(
        check_submission("ionq", Some(&dev), 2, &gates(&["h", "rz", "ry"])),
        Err("Gate 'rz' not supported on device 'ionq'".to_string())
    );
}

#[test]
fn only_queued_or_running_jobs_cancel() {
    let mut s = JobStatus::Queued;
    assert_eq!(cancel_job_status(&mut s), Ok(()));
    assert!(matches!(s, JobStatus::Cancelled));
    let mut s = JobStatus::Running;
    assert!(cancel_job_status(&mut s).is_ok());
    let mut s = JobStatus::Completed;
    assert_eq!(cancel_job_status(&mut s), Err("Job cannot be cancelled in current status".to_string()));
    assert!(matches!(s, JobStatus::Completed));
    let mut s = JobStatus::Cancelled;
    assert!(cancel_job_status(&mut s).is_err());
}

#[test]
fn only_the_simulator_takes_jobs_directly() {
    assert_eq!(submit_to_provider(QuantumProvider::Simulator), Ok(()));
    assert_eq!(
        submit_to_provider(QuantumProvider::AmazonBraket),
        Err("Amazon Braket integration requires AWS credentials".to_string())
    );
    assert_eq!(submit_to_provider(QuantumProvider::IonQ), Err("IonQ integration requires API credentials".to_string()));
}

#[test]
fn compiled_gates_need_circuit_qubits() {
    let circuit = vec![QubitId::indexed("q", 0), QubitId::indexed("q", 1)];
    let gate = vec![QubitId::indexed("q", 1), QubitId::indexed("q", 0)];
    assert_eq!(get_qubit_indices(&gate, &circuit).unwrap(), vec![1, 0]);
    let stray = vec![QubitId::indexed("q", 0), QubitId::new("anc"), QubitId::indexed("r", 2)];
    match get_qubit_indices(&stray, &circuit) {
        Err(CompilationError::InvalidQubit(t)) => assert_eq!(t, "anc"),
        other => panic!("unexpected {:?}", other),
    }
}

#[test]
fn hardware_targets_are_not_compiled_to() {
    assert!(check_target(CompilationTarget::OpenQASM2).is_ok());
    assert!(check_target(CompilationTarget::Simulator).is_ok());
    match check_target(CompilationTarget::IonQ) {
        Err(CompilationError::UnsupportedTarget(t)) => assert_eq!(t, "IonQ"),
        other => panic!("unexpected {:?}", other),
    }
}

#[test]
fn evolving_counts_distinct_concepts() {
    let mut core = LanguageEvolutionCore::new();
    assert_eq!(core.pattern_count(), 0);
    core.evolve_with(&CreatorInteraction::new("quantum quantum entanglement of states".to_string()));
    assert_eq!(core.pattern_count(), 3);
    core.evolve_with(&CreatorInteraction::new("QUANTUM gates and superposition".to_string()));
    assert_eq!(core.pattern_count(), 5);
    core.evolve_with(&CreatorInteraction::new("a b c".to_string()));
    assert_eq!(core.pattern_count(), 5);
}

#[test]
fn sentiment_counts_keywords_once_each() {
    assert_eq!(sentiment_counts("Great work, THANKS, great!"), (2, 0));
    assert_eq!(sentiment_counts("this is broken and wrong, no"), (0, 3));
    assert_eq!(sentiment_counts(""), (0, 0));
    // "know" holds "no"
    assert_eq!(sentiment_counts("I know"), (0, 1));
}

#[test]
fn mood_follows_the_sentiment_thresholds() {
    assert_eq!(mood_label(1, 0), "positive");
    assert_eq!(mood_label(0, 1), "tense");
    assert_eq!(mood_label(0, 0), "engaged");
    assert_eq!(mood_label(2, 1), "engaged");
    assert_eq!(mood_label(3, 0), "positive");
    // a sentiment of exactly 3/10 is not above it
    assert_eq!(mood_label(6, 3), "engaged");
}
