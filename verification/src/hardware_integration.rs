//! Providers of quantum hardware, the states of jobs sent to them, and the checks
//! a job passes before it is sent.

use vstd::prelude::*;
use crate::text::{decimal_text, owned, push_decimal, push_str_chars, same_text, string_from_chars};

verus! {

/// A provider of quantum hardware.
#[derive(Debug, PartialEq, Eq, Structural, Clone, Copy, Hash)]
pub enum QuantumProvider {
    IBMQuantum,
    IonQ,
    Rigetti,
    GoogleQuantumAI,
    AmazonBraket,
    AzureQuantum,
    /// Local simulation.
    Simulator,
}

/// The name a provider is shown by.
pub open spec fn provider_name(p: QuantumProvider) -> Seq<char> {
    match p {
        QuantumProvider::IBMQuantum => "IBM Quantum"@,
        QuantumProvider::IonQ => "IonQ"@,
        QuantumProvider::Rigetti => "Rigetti"@,
        QuantumProvider::GoogleQuantumAI => "Google Quantum AI"@,
        QuantumProvider::AmazonBraket => "Amazon Braket"@,
        QuantumProvider::AzureQuantum => "Azure Quantum"@,
        QuantumProvider::Simulator => "Local Simulator"@,
    }
}

impl QuantumProvider {
    /// The name the provider is shown by (what `Display` writes).
    pub fn to_text(&self) -> (r: String)
        ensures
            r@ == provider_name(*self),
    {
        match self {
            QuantumProvider::IBMQuantum => owned("IBM Quantum"),
            QuantumProvider::IonQ => owned("IonQ"),
            QuantumProvider::Rigetti => owned("Rigetti"),
            QuantumProvider::GoogleQuantumAI => owned("Google Quantum AI"),
            QuantumProvider::AmazonBraket => owned("Amazon Braket"),
            QuantumProvider::AzureQuantum => owned("Azure Quantum"),
            QuantumProvider::Simulator => owned("Local Simulator"),
        }
    }
}

/// The state of a submitted job.
#[derive(Debug, Clone)]
pub enum JobStatus {
    Queued,
    Running,
    Completed,
    Failed(String),
    Cancelled,
}

/// A job that is queued or running is cancelled; a job in any other state cannot be.
pub fn cancel_job_status(status: &mut JobStatus) -> (r: Result<(), String>)
    ensures
        match *old(status) {
            JobStatus::Queued | JobStatus::Running => r is Ok && *final(status) == JobStatus::Cancelled,
            _ => r matches Err(m) && m@ == "Job cannot be cancelled in current status"@ && *final(status) == *old(status),
        },
{
    match status {
        JobStatus::Queued | JobStatus::Running => {
            *status = JobStatus::Cancelled;
            Ok(())
        },
        _ => Err(owned("Job cannot be cancelled in current status")),
    }
}

/// Why a job cannot be sent to a provider: no provider integration is set up but
/// the local simulator, and each names the credentials it lacks.
pub open spec fn provider_refusal(p: QuantumProvider) -> Option<Seq<char>> {
    match p {
        QuantumProvider::IBMQuantum => Some("IBM Quantum integration requires API credentials"@),
        QuantumProvider::IonQ => Some("IonQ integration requires API credentials"@),
        QuantumProvider::Rigetti => Some("Rigetti integration requires API credentials"@),
        QuantumProvider::GoogleQuantumAI => Some("Google Quantum AI integration requires API credentials"@),
        QuantumProvider::AmazonBraket => Some("Amazon Braket integration requires AWS credentials"@),
        QuantumProvider::AzureQuantum => Some("Azure Quantum integration requires Azure credentials"@),
        QuantumProvider::Simulator => None,
    }
}

/// Sends a job to a provider: only the local simulator takes it.
pub fn submit_to_provider(provider: QuantumProvider) -> (r: Result<(), String>)
    ensures
        match provider_refusal(provider) {
            Some(m) => r matches Err(e) && e@ == m,
            None => r is Ok,
        },
{
    match provider {
        QuantumProvider::IBMQuantum => Err(owned("IBM Quantum integration requires API credentials")),
        QuantumProvider::IonQ => Err(owned("IonQ integration requires API credentials")),
        QuantumProvider::Rigetti => Err(owned("Rigetti integration requires API credentials")),
        QuantumProvider::GoogleQuantumAI => Err(owned("Google Quantum AI integration requires API credentials")),
        QuantumProvider::AmazonBraket => Err(owned("Amazon Braket integration requires AWS credentials")),
        QuantumProvider::AzureQuantum => Err(owned("Azure Quantum integration requires Azure credentials")),
        QuantumProvider::Simulator => Ok(()),
    }
}

/// What a submission is checked against: whether the device takes jobs, how many
/// qubits it has and the gates it runs.
#[derive(Debug)]
pub struct DeviceProfile {
    pub is_available: bool,
    pub qubits: usize,
    pub gate_set: Vec<String>,
}

/// The texts of a list of strings.
pub open spec fn gate_names(v: Seq<String>) -> Seq<Seq<char>> {
    v.map_values(|s: String| s@)
}

/// The error a submission of a circuit on `circuit_qubits` qubits with the given
/// gates to the named device is refused with, checked in this order: the device
/// is unknown, it is not available, the circuit is too wide for it, or the first
/// gate it does not run.
pub open spec fn submission_refusal(
    device_name: Seq<char>,
    device: Option<(bool, usize, Seq<Seq<char>>)>,
    circuit_qubits: usize,
    gates: Seq<Seq<char>>,
    message: Seq<char>,
) -> bool {
    match device {
        None => message == "Device '"@ + device_name + "' not found"@,
        Some((available, qubits, gate_set)) => if !available {
            message == "Device '"@ + device_name + "' is not available"@
        } else if circuit_qubits > qubits {
            message == "Circuit requires "@ + decimal_text(circuit_qubits as nat) + " qubits, but device only has "@
                + decimal_text(qubits as nat)
        } else {
            exists|k: int|
                0 <= k < gates.len() && !gate_set.contains(#[trigger] gates[k]) && (forall|l: int|
                    0 <= l < k ==> gate_set.contains(gates[l])) && message == "Gate '"@ + gates[k]
                    + "' not supported on device '"@ + device_name + "'"@
        },
    }
}

/// The device fits the circuit: it is known and available, has enough qubits and
/// runs every gate.
pub open spec fn submission_ok(
    device: Option<(bool, usize, Seq<Seq<char>>)>,
    circuit_qubits: usize,
    gates: Seq<Seq<char>>,
) -> bool {
    match device {
        None => false,
        Some((available, qubits, gate_set)) => available && circuit_qubits <= qubits && forall|k: int|
            0 <= k < gates.len() ==> gate_set.contains(#[trigger] gates[k]),
    }
}

/// The plain values of a device profile.
pub open spec fn profile_view(d: Option<&DeviceProfile>) -> Option<(bool, usize, Seq<Seq<char>>)> {
    match d {
        Some(p) => Some((p.is_available, p.qubits, gate_names(p.gate_set@))),
        None => None,
    }
}

fn contains_name(v: &Vec<String>, t: &str) -> (r: bool)
    ensures
        r == gate_names(v@).contains(t@),
{
    let mut i: usize = 0;
    while i < v.len()
        invariant
            i <= v@.len(),
            forall|j: int| 0 <= j < i ==> v@[j]@ != t@,
        decreases v@.len() - i,
    {
        if same_text(v[i].as_str(), t) {
            assert(gate_names(v@)[i as int] == t@);
            return true;
        }
        i += 1;
    }
    proof {
        if gate_names(v@).contains(t@) {
            let j = choose|j: int| 0 <= j < gate_names(v@).len() && gate_names(v@)[j] == t@;
            assert(v@[j]@ == t@);
        }
    }
    false
}

fn text_of(parts: &Vec<char>) -> (r: String)
    ensures
        r@ == parts@,
{
    string_from_chars(parts.as_slice())
}

/// Checks a job before it is sent: the device must be known and available, have
/// the circuit's qubits, and run each of its gates.
pub fn check_submission(device_name: &str, device: Option<&DeviceProfile>, circuit_qubits: usize, gate_types: &Vec<String>) -> (r: Result<(), String>)
    ensures
        r is Ok <==> submission_ok(profile_view(device), circuit_qubits, gate_names(gate_types@)),
        r matches Err(m) ==> submission_refusal(
            device_name@,
            profile_view(device),
            circuit_qubits,
            gate_names(gate_types@),
            m@,
        ),
{
    let d = match device {
        None => {
            let mut out: Vec<char> = Vec::new();
            push_str_chars(&mut out, "Device '");
            push_str_chars(&mut out, device_name);
            push_str_chars(&mut out, "' not found");
            return Err(text_of(&out));
        },
        Some(d) => d,
    };
    if !d.is_available {
        let mut out: Vec<char> = Vec::new();
        push_str_chars(&mut out, "Device '");
        push_str_chars(&mut out, device_name);
        push_str_chars(&mut out, "' is not available");
        return Err(text_of(&out));
    }
    if circuit_qubits > d.qubits {
        let mut out: Vec<char> = Vec::new();
        push_str_chars(&mut out, "Circuit requires ");
        push_decimal(circuit_qubits as u64, &mut out);
        push_str_chars(&mut out, " qubits, but device only has ");
        push_decimal(d.qubits as u64, &mut out);
        return Err(text_of(&out));
    }
    let ghost gates = gate_names(gate_types@);
    let ghost set = gate_names(d.gate_set@);
    let mut k: usize = 0;
    while k < gate_types.len()
        invariant
            k <= gate_types@.len(),
            gates == gate_names(gate_types@),
            set == gate_names(d.gate_set@),
            profile_view(device) == Some((d.is_available, d.qubits, set)),
            d.is_available,
            circuit_qubits <= d.qubits,
            forall|l: int| 0 <= l < k ==> set.contains(#[trigger] gates[l]),
        decreases gate_types@.len() - k,
    {
        if !contains_name(&d.gate_set, gate_types[k].as_str()) {
            let mut out: Vec<char> = Vec::new();
            push_str_chars(&mut out, "Gate '");
            push_str_chars(&mut out, gate_types[k].as_str());
            push_str_chars(&mut out, "' not supported on device '");
            push_str_chars(&mut out, device_name);
            push_str_chars(&mut out, "'");
            proof {
                assert(gates[k as int] == gate_types@[k as int]@);
                assert(!submission_ok(profile_view(device), circuit_qubits, gates));
            }
            return Err(text_of(&out));
        }
        assert(gates[k as int] == gate_types@[k as int]@);
        k += 1;
    }
    Ok(())
}

/// A gate as devices take it: its name, the indices of its qubits, and its
/// parameters (the bit patterns of their double-precision values).
#[derive(Debug, Clone)]
pub struct QuantumGate {
    pub gate_type: String,
    pub qubits: Vec<usize>,
    pub parameters: Vec<u64>,
}

/// A circuit as devices take it: gates in order, how many qubits, and the qubits
/// measured (each once, in the order first measured).
#[derive(Debug, Clone)]
pub struct QuantumCircuit {
    pub gates: Vec<QuantumGate>,
    pub qubits: usize,
    pub measurements: Vec<usize>,
}

/// `g` is a gate named `name` on `qubits` with `parameters`.
pub open spec fn hw_gate_is(g: QuantumGate, name: Seq<char>, qubits: Seq<usize>, parameters: Seq<u64>) -> bool {
    g.gate_type@ == name && g.qubits@ == qubits && g.parameters@ == parameters
}

/// `b` is `a` with one more gate, the last, named `name` on `qubits` with `parameters`.
pub open spec fn hw_gate_added(a: QuantumCircuit, b: QuantumCircuit, name: Seq<char>, qubits: Seq<usize>, parameters: Seq<u64>) -> bool {
    &&& b.qubits == a.qubits
    &&& b.measurements == a.measurements
    &&& b.gates@.len() == a.gates@.len() + 1
    &&& b.gates@.take(a.gates@.len() as int) == a.gates@
    &&& hw_gate_is(b.gates@.last(), name, qubits, parameters)
}

impl QuantumCircuit {
    /// A circuit on `qubits` qubits with no gates and nothing measured.
    pub fn new(qubits: usize) -> (r: QuantumCircuit)
        ensures
            r.qubits == qubits,
            r.gates@.len() == 0,
            r.measurements@.len() == 0,
    {
        QuantumCircuit { gates: Vec::new(), qubits, measurements: Vec::new() }
    }

    /// Adds a named gate on some qubits with some parameters.
    pub fn add_gate(&mut self, gate_type: String, qubits: Vec<usize>, parameters: Vec<u64>)
        ensures
            final(self).qubits == old(self).qubits,
            final(self).measurements == old(self).measurements,
            final(self).gates@ == old(self).gates@.push(QuantumGate { gate_type, qubits, parameters }),
    {
        self.gates.push(QuantumGate { gate_type, qubits, parameters });
    }

    /// Measures a qubit, unless it is measured already.
    pub fn add_measurement(&mut self, qubit: usize)
        ensures
            final(self).qubits == old(self).qubits,
            final(self).gates == old(self).gates,
            final(self).measurements@ == (if old(self).measurements@.contains(qubit) {
                old(self).measurements@
            } else {
                old(self).measurements@.push(qubit)
            }),
    {
        let mut i: usize = 0;
        while i < self.measurements.len()
            invariant
                i <= self.measurements@.len(),
                forall|j: int| 0 <= j < i ==> self.measurements@[j] != qubit,
            decreases self.measurements@.len() - i,
        {
            if self.measurements[i] == qubit {
                return;
            }
            i += 1;
        }
        self.measurements.push(qubit);
    }

    fn named(&mut self, name: &str, qubits: Vec<usize>, parameters: Vec<u64>)
        ensures
            hw_gate_added(*old(self), *final(self), name@, qubits@, parameters@),
    {
        let ghost (q0, p0) = (qubits, parameters);
        self.add_gate(owned(name), qubits, parameters);
        assert(self.gates@.take(old(self).gates@.len() as int) =~= old(self).gates@);
    }

    /// A Hadamard gate on a qubit.
    pub fn h(&mut self, qubit: usize)
        ensures
            hw_gate_added(*old(self), *final(self), "h"@, seq![qubit], Seq::empty()),
    {
        let mut qs: Vec<usize> = Vec::new();
        qs.push(qubit);
        self.named("h", qs, Vec::new());
        assert(self.gates@.last().qubits@ =~= seq![qubit]);
    }

    /// A Pauli X gate on a qubit.
    pub fn x(&mut self, qubit: usize)
        ensures
            hw_gate_added(*old(self), *final(self), "x"@, seq![qubit], Seq::empty()),
    {
        let mut qs: Vec<usize> = Vec::new();
        qs.push(qubit);
        self.named("x", qs, Vec::new());
        assert(self.gates@.last().qubits@ =~= seq![qubit]);
    }

    /// A Pauli Y gate on a qubit.
    pub fn y(&mut self, qubit: usize)
        ensures
            hw_gate_added(*old(self), *final(self), "y"@, seq![qubit], Seq::empty()),
    {
        let mut qs: Vec<usize> = Vec::new();
        qs.push(qubit);
        self.named("y", qs, Vec::new());
        assert(self.gates@.last().qubits@ =~= seq![qubit]);
    }

    /// A Pauli Z gate on a qubit.
    pub fn z(&mut self, qubit: usize)
        ensures
            hw_gate_added(*old(self), *final(self), "z"@, seq![qubit], Seq::empty()),
    {
        let mut qs: Vec<usize> = Vec::new();
        qs.push(qubit);
        self.named("z", qs, Vec::new());
        assert(self.gates@.last().qubits@ =~= seq![qubit]);
    }

    /// A controlled X gate.
    pub fn cx(&mut self, control: usize, target: usize)
        ensures
            hw_gate_added(*old(self), *final(self), "cx"@, seq![control, target], Seq::empty()),
    {
        let mut qs: Vec<usize> = Vec::new();
        qs.push(control);
        qs.push(target);
        self.named("cx", qs, Vec::new());
        assert(self.gates@.last().qubits@ =~= seq![control, target]);
    }

    /// A rotation about Z by an angle (its bit pattern).
    pub fn rz(&mut self, qubit: usize, angle: u64)
        ensures
            hw_gate_added(*old(self), *final(self), "rz"@, seq![qubit], seq![angle]),
    {
        let mut qs: Vec<usize> = Vec::new();
        qs.push(qubit);
        let mut ps: Vec<u64> = Vec::new();
        ps.push(angle);
        self.named("rz", qs, ps);
        assert(self.gates@.last().qubits@ =~= seq![qubit]);
        assert(self.gates@.last().parameters@ =~= seq![angle]);
    }

    /// Measures every qubit not measured yet, in order.
    pub fn measure_all(&mut self)
        ensures
            final(self).qubits == old(self).qubits,
            final(self).gates == old(self).gates,
            final(self).measurements@.take(old(self).measurements@.len() as int) == old(self).measurements@,
            forall|q: usize| #[trigger] final(self).measurements@.contains(q) <==> (old(self).measurements@.contains(q) || q
                < old(self).qubits),
            old(self).measurements@.no_duplicates() ==> final(self).measurements@.no_duplicates(),
    {
        let n = self.qubits;
        let mut i: usize = 0;
        while i < n
            invariant
                n == old(self).qubits,
                i <= n,
                self.qubits == old(self).qubits,
                self.gates == old(self).gates,
                self.measurements@.take(old(self).measurements@.len() as int) == old(self).measurements@,
                self.measurements@.len() >= old(self).measurements@.len(),
                forall|q: usize| #[trigger] self.measurements@.contains(q) <==> (old(self).measurements@.contains(q) || q < i),
                old(self).measurements@.no_duplicates() ==> self.measurements@.no_duplicates(),
            decreases n - i,
        {
            let ghost before = self.measurements@;
            self.add_measurement(i);
            proof {
                if !before.contains(i) {
                    assert(self.measurements@ == before.push(i));
                    assert(self.measurements@.take(old(self).measurements@.len() as int) =~= before.take(
                        old(self).measurements@.len() as int,
                    ));
                    assert forall|q: usize| #[trigger] self.measurements@.contains(q) <==> (before.contains(q) || q == i) by {
                        if self.measurements@.contains(q) && q != i {
                            let j = choose|j: int| 0 <= j < self.measurements@.len() && self.measurements@[j] == q;
                            assert(before[j] == q);
                        }
                        if before.contains(q) {
                            let j = choose|j: int| 0 <= j < before.len() && before[j] == q;
                            assert(self.measurements@[j] == q);
                        }
                        if q == i {
                            assert(self.measurements@[before.len() as int] == q);
                        }
                    }
                }
            }
            i += 1;
        }
    }
}

} // verus!
