//! Targets, options and errors of circuit compilation, and the qubit indices a
//! compiled gate is written with.

use vstd::prelude::*;
use crate::circuit_builder::{qubit_text, QubitId};
use crate::circuit_visualization::{position_of, qubit_position};
use crate::text::{owned, push_str_chars, push_string_chars, string_from_chars};

verus! {

/// What a circuit is compiled to.
#[derive(Debug, PartialEq, Eq, Structural, Clone, Copy)]
pub enum CompilationTarget {
    OpenQASM2,
    OpenQASM3,
    Qiskit,
    Cirq,
    QSharp,
    IBM,
    IonQ,
    Rigetti,
    Simulator,
    JavaScript,
    AEONMI,
}

/// How a circuit is compiled.
#[derive(Debug)]
pub struct CompilationOptions {
    pub target: CompilationTarget,
    /// From 0 (none) to 3.
    pub optimization_level: u8,
    pub target_coupling: Option<Vec<(usize, usize)>>,
    pub basis_gates: Option<Vec<String>>,
    pub max_qubits: Option<usize>,
    pub include_measurements: bool,
    pub preserve_layout: bool,
    pub error_mitigation: bool,
}

impl Default for CompilationOptions {
    /// OpenQASM 2 at optimization level 1, with measurements, without constraints.
    fn default() -> (r: CompilationOptions)
        ensures
            r == (CompilationOptions {
                target: CompilationTarget::OpenQASM2,
                optimization_level: 1,
                target_coupling: None,
                basis_gates: None,
                max_qubits: None,
                include_measurements: true,
                preserve_layout: false,
                error_mitigation: false,
            }),
    {
        CompilationOptions {
            target: CompilationTarget::OpenQASM2,
            optimization_level: 1,
            target_coupling: None,
            basis_gates: None,
            max_qubits: None,
            include_measurements: true,
            preserve_layout: false,
            error_mitigation: false,
        }
    }
}

/// Why a circuit could not be compiled.
#[derive(Debug)]
pub enum CompilationError {
    UnsupportedTarget(String),
    UnsupportedGate(String),
    InvalidQubit(String),
    OptimizationError(String),
    HardwareConstraintViolation(String),
}

/// The message of a compilation error, as `Display` writes it.
pub open spec fn compilation_error_text(e: CompilationError) -> Seq<char> {
    match e {
        CompilationError::UnsupportedTarget(t) => "Unsupported compilation target: "@ + t@,
        CompilationError::UnsupportedGate(g) => "Unsupported gate type: "@ + g@,
        CompilationError::InvalidQubit(q) => "Invalid qubit: "@ + q@,
        CompilationError::OptimizationError(m) => "Optimization error: "@ + m@,
        CompilationError::HardwareConstraintViolation(m) => "Hardware constraint violation: "@ + m@,
    }
}

impl CompilationError {
    /// The message of the error (what `Display` writes).
    pub fn to_text(&self) -> (r: String)
        ensures
            r@ == compilation_error_text(*self),
    {
        let mut out: Vec<char> = Vec::new();
        match self {
            CompilationError::UnsupportedTarget(t) => {
                push_str_chars(&mut out, "Unsupported compilation target: ");
                push_string_chars(&mut out, t);
            },
            CompilationError::UnsupportedGate(g) => {
                push_str_chars(&mut out, "Unsupported gate type: ");
                push_string_chars(&mut out, g);
            },
            CompilationError::InvalidQubit(q) => {
                push_str_chars(&mut out, "Invalid qubit: ");
                push_string_chars(&mut out, q);
            },
            CompilationError::OptimizationError(m) => {
                push_str_chars(&mut out, "Optimization error: ");
                push_string_chars(&mut out, m);
            },
            CompilationError::HardwareConstraintViolation(m) => {
                push_str_chars(&mut out, "Hardware constraint violation: ");
                push_string_chars(&mut out, m);
            },
        }
        assert(out@ =~= compilation_error_text(*self));
        string_from_chars(out.as_slice())
    }
}

/// The places of a gate's qubits among the circuit's qubits, in gate order; the
/// first qubit the circuit lacks is an invalid-qubit error naming it.
pub fn get_qubit_indices(gate_qubits: &[QubitId], circuit_qubits: &[QubitId]) -> (r: Result<Vec<usize>, CompilationError>)
    ensures
        r is Ok <==> forall|i: int| 0 <= i < gate_qubits@.len() ==> qubit_position(circuit_qubits@, #[trigger] gate_qubits@[i]) is Some,
        r matches Ok(v) ==> v@.len() == gate_qubits@.len() && forall|i: int|
            0 <= i < v@.len() ==> qubit_position(circuit_qubits@, gate_qubits@[i]) == Some(#[trigger] v@[i] as int),
        r matches Err(e) ==> exists|k: int|
            0 <= k < gate_qubits@.len() && qubit_position(circuit_qubits@, #[trigger] gate_qubits@[k]) is None && (forall|l: int|
                0 <= l < k ==> qubit_position(circuit_qubits@, gate_qubits@[l]) is Some) && (e matches CompilationError::InvalidQubit(t)
                && t@ == qubit_text(gate_qubits@[k])),
{
    let mut out: Vec<usize> = Vec::new();
    let mut k: usize = 0;
    while k < gate_qubits.len()
        invariant
            k <= gate_qubits@.len(),
            out@.len() == k,
            forall|i: int| 0 <= i < k ==> qubit_position(circuit_qubits@, gate_qubits@[i]) == Some(#[trigger] out@[i] as int),
        decreases gate_qubits@.len() - k,
    {
        match position_of(circuit_qubits, &gate_qubits[k]) {
            Some(p) => {
                out.push(p);
            },
            None => {
                let t = gate_qubits[k].to_text();
                proof {
                    assert forall|l: int| 0 <= l < k implies qubit_position(circuit_qubits@, gate_qubits@[l]) is Some by {
                        assert(qubit_position(circuit_qubits@, gate_qubits@[l]) == Some(out@[l] as int));
                    }
                }
                return Err(CompilationError::InvalidQubit(t));
            },
        }
        k += 1;
    }
    proof {
        assert forall|i: int| 0 <= i < gate_qubits@.len() implies qubit_position(circuit_qubits@, #[trigger] gate_qubits@[i]) is Some by {
            assert(qubit_position(circuit_qubits@, gate_qubits@[i]) == Some(out@[i] as int));
        }
    }
    Ok(out)
}

/// Whether circuits are compiled to a target: hardware backends are not, and are
/// named by their variant in the error.
pub open spec fn target_refusal(t: CompilationTarget) -> Option<Seq<char>> {
    match t {
        CompilationTarget::IBM => Some("IBM"@),
        CompilationTarget::IonQ => Some("IonQ"@),
        CompilationTarget::Rigetti => Some("Rigetti"@),
        _ => None,
    }
}

/// Checks that circuits can be compiled to the target.
pub fn check_target(target: CompilationTarget) -> (r: Result<(), CompilationError>)
    ensures
        match target_refusal(target) {
            Some(name) => r matches Err(e) && e matches CompilationError::UnsupportedTarget(t) && t@ == name,
            None => r is Ok,
        },
{
    match target {
        CompilationTarget::IBM => Err(CompilationError::UnsupportedTarget(owned("IBM"))),
        CompilationTarget::IonQ => Err(CompilationError::UnsupportedTarget(owned("IonQ"))),
        CompilationTarget::Rigetti => Err(CompilationError::UnsupportedTarget(owned("Rigetti"))),
        _ => Ok(()),
    }
}

} // verus!
