//! Configuration, metadata and constructors of the quantum execution backends.

use vstd::prelude::*;
use crate::text::{decimal_text, owned, push_decimal, push_str_chars, push_string_chars, string_from_chars};

verus! {

/// Settings of a quantum bridge.
#[derive(Debug)]
pub struct QuantumBridgeConfig {
    /// Whether circuits are optimized before they run.
    pub optimize_circuits: bool,
    /// The largest circuit, in qubits, that is simulated locally.
    pub max_local_qubits: u32,
    /// How many shots a measurement takes.
    pub measurement_shots: u32,
    /// The timeout of an operation, in seconds.
    pub operation_timeout: u32,
}

impl Default for QuantumBridgeConfig {
    /// Optimization on, 16 local qubits, 1024 shots, a 60 second timeout.
    fn default() -> (r: QuantumBridgeConfig)
        ensures
            r == (QuantumBridgeConfig {
                optimize_circuits: true,
                max_local_qubits: 16,
                measurement_shots: 1024,
                operation_timeout: 60,
            }),
    {
        QuantumBridgeConfig { optimize_circuits: true, max_local_qubits: 16, measurement_shots: 1024, operation_timeout: 60 }
    }
}

/// What is known of an execution.
#[derive(Debug)]
pub struct QuantumExecutionMetadata {
    pub backend_name: String,
    pub execution_time: std::time::Duration,
    pub shots: u32,
    pub circuit_depth: u32,
    pub gate_count: u32,
}

/// What a backend offers.
#[derive(Debug)]
pub struct BackendInfo {
    pub name: String,
    pub backend_type: BackendType,
    pub max_qubits: u32,
    pub supported_gates: Vec<String>,
    pub connectivity: Option<Vec<(u32, u32)>>,
    pub basis_gates: Vec<String>,
    pub version: String,
}

/// The kind of a backend.
#[derive(Debug, PartialEq, Eq, Structural, Clone, Copy)]
pub enum BackendType {
    Simulator,
    Hardware,
    Cloud,
}

/// The queue of a hardware backend.
#[derive(Debug)]
pub struct QueueStatus {
    pub position: u32,
    pub estimated_wait_time: std::time::Duration,
    pub queue_length: u32,
}

/// Why an execution failed.
#[derive(Debug)]
pub enum QuantumError {
    BackendUnavailable(String),
    /// The qubits a circuit requests, and the most the backend supports.
    CircuitTooLarge(u32, u32),
    InvalidGate(String),
    ExecutionTimeout,
    HardwareError(String),
    SimulationError(String),
    ConfigurationError(String),
}

/// The message of an error, as `Display` writes it.
pub open spec fn quantum_error_text(e: QuantumError) -> Seq<char> {
    match e {
        QuantumError::BackendUnavailable(n) => "Quantum backend '"@ + n@ + "' is unavailable"@,
        QuantumError::CircuitTooLarge(req, max) => "Circuit requires "@ + decimal_text(req as nat)
            + " qubits but backend supports only "@ + decimal_text(max as nat),
        QuantumError::InvalidGate(g) => "Invalid quantum gate: "@ + g@,
        QuantumError::ExecutionTimeout => "Quantum execution timed out"@,
        QuantumError::HardwareError(m) => "Quantum hardware error: "@ + m@,
        QuantumError::SimulationError(m) => "Quantum simulation error: "@ + m@,
        QuantumError::ConfigurationError(m) => "Quantum configuration error: "@ + m@,
    }
}

impl QuantumError {
    /// The message of the error (what `Display` writes).
    pub fn to_text(&self) -> (r: String)
        ensures
            r@ == quantum_error_text(*self),
    {
        let mut out: Vec<char> = Vec::new();
        match self {
            QuantumError::BackendUnavailable(n) => {
                push_str_chars(&mut out, "Quantum backend '");
                push_string_chars(&mut out, n);
                push_str_chars(&mut out, "' is unavailable");
            },
            QuantumError::CircuitTooLarge(req, max) => {
                push_str_chars(&mut out, "Circuit requires ");
                push_decimal(*req as u64, &mut out);
                push_str_chars(&mut out, " qubits but backend supports only ");
                push_decimal(*max as u64, &mut out);
            },
            QuantumError::InvalidGate(g) => {
                push_str_chars(&mut out, "Invalid quantum gate: ");
                push_string_chars(&mut out, g);
            },
            QuantumError::ExecutionTimeout => {
                push_str_chars(&mut out, "Quantum execution timed out");
            },
            QuantumError::HardwareError(m) => {
                push_str_chars(&mut out, "Quantum hardware error: ");
                push_string_chars(&mut out, m);
            },
            QuantumError::SimulationError(m) => {
                push_str_chars(&mut out, "Quantum simulation error: ");
                push_string_chars(&mut out, m);
            },
            QuantumError::ConfigurationError(m) => {
                push_str_chars(&mut out, "Quantum configuration error: ");
                push_string_chars(&mut out, m);
            },
        }
        assert(out@ =~= quantum_error_text(*self));
        string_from_chars(out.as_slice())
    }
}

/// The built-in state-vector simulator.
#[derive(Debug)]
pub struct LocalSimulator {
    max_qubits: u32,
    precision: u32,
}

impl LocalSimulator {
    pub fn new(max_qubits: u32, precision: u32) -> (r: LocalSimulator)
        ensures
            r.max_qubits() == max_qubits,
            r.precision() == precision,
    {
        LocalSimulator { max_qubits, precision }
    }

    /// The largest circuit it simulates.
    pub closed spec fn max_qubits(&self) -> u32 {
        self.max_qubits
    }

    /// The precision it was made with.
    pub closed spec fn precision(&self) -> u32 {
        self.precision
    }
}

/// A backend that runs circuits through a Python interpreter with Qiskit.
#[derive(Debug)]
pub struct QiskitBackend {
    backend_name: String,
    api_token: Option<String>,
    python_path: String,
    qiskit_script_path: String,
}

/// The Python commands tried, in order, when looking for Qiskit.
pub open spec fn python_commands() -> Seq<Seq<char>> {
    seq!["python3"@, "python"@, "py"@]
}

/// The first Python command whose Qiskit probe succeeded (`probes[i]` tells whether
/// the `i`-th of `python3`, `python`, `py` could import Qiskit); when none could,
/// a configuration error "Qiskit not found".
pub fn first_python_with_qiskit(probes: [bool; 3]) -> (r: Result<String, QuantumError>)
    ensures
        match r {
            Ok(cmd) => exists|i: int|
                0 <= i < 3 && probes@[i] && (forall|j: int| 0 <= j < i ==> !probes@[j]) && cmd@
                    == python_commands()[i],
            Err(e) => (forall|i: int| 0 <= i < 3 ==> !probes@[i]) && (e matches QuantumError::ConfigurationError(m)
                && m@ == "Qiskit not found"@),
        },
{
    if probes[0] {
        assert(python_commands()[0] == "python3"@);
        Ok(owned("python3"))
    } else if probes[1] {
        assert(python_commands()[1] == "python"@);
        Ok(owned("python"))
    } else if probes[2] {
        assert(python_commands()[2] == "py"@);
        Ok(owned("py"))
    } else {
        Err(QuantumError::ConfigurationError(owned("Qiskit not found")))
    }
}

impl QiskitBackend {
    /// A Qiskit backend, from the Python command found for it and the path of the
    /// script written for it; the first of these two steps that failed fails it.
    pub fn new(
        backend_name: String,
        api_token: Option<String>,
        python_path: Result<String, QuantumError>,
        script_path: Result<String, QuantumError>,
    ) -> (r: Result<QiskitBackend, QuantumError>)
        ensures
            match python_path {
                Err(e) => r == Err::<QiskitBackend, QuantumError>(e),
                Ok(p) => match script_path {
                    Err(e) => r == Err::<QiskitBackend, QuantumError>(e),
                    Ok(s) => r matches Ok(b) && b.backend_name() == backend_name && b.api_token() == api_token
                        && b.python_path() == p && b.script_path() == s,
                },
            },
    {
        let python = match python_path {
            Ok(p) => p,
            Err(e) => {
                return Err(e);
            },
        };
        let script = match script_path {
            Ok(s) => s,
            Err(e) => {
                return Err(e);
            },
        };
        Ok(QiskitBackend { backend_name, api_token, python_path: python, qiskit_script_path: script })
    }

    pub closed spec fn backend_name(&self) -> String {
        self.backend_name
    }

    pub closed spec fn api_token(&self) -> Option<String> {
        self.api_token
    }

    pub closed spec fn python_path(&self) -> String {
        self.python_path
    }

    pub closed spec fn script_path(&self) -> String {
        self.qiskit_script_path
    }
}

/// A backend on IBM Quantum hardware.
#[derive(Debug)]
pub struct IBMQuantumBackend {
    backend_name: String,
    api_token: String,
    hub: Option<String>,
    group: Option<String>,
    project: Option<String>,
}

impl IBMQuantumBackend {
    /// An IBM Quantum backend; making one always succeeds.
    pub fn new(
        backend_name: String,
        api_token: String,
        hub: Option<String>,
        group: Option<String>,
        project: Option<String>,
    ) -> (r: Result<IBMQuantumBackend, QuantumError>)
        ensures
            r matches Ok(b) && b.backend_name() == backend_name && b.api_token() == api_token && b.hub() == hub
                && b.group() == group && b.project() == project,
    {
        Ok(IBMQuantumBackend { backend_name, api_token, hub, group, project })
    }

    pub closed spec fn backend_name(&self) -> String {
        self.backend_name
    }

    pub closed spec fn api_token(&self) -> String {
        self.api_token
    }

    pub closed spec fn hub(&self) -> Option<String> {
        self.hub
    }

    pub closed spec fn group(&self) -> Option<String> {
        self.group
    }

    pub closed spec fn project(&self) -> Option<String> {
        self.project
    }
}

} // verus!
