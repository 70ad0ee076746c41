//! Runtime circuits: a register of qubits and gate instructions applied to it
//! in order, with a compact text diagram.

use vstd::prelude::*;
use crate::module_system::{join, join_text, texts};
use crate::quantum_operations::{op_name, op_target, QuantumOperation};
use crate::text::{concat, decimal_text, owned, push_decimal, push_str_chars, string_from_chars};

verus! {

/// A sequence of gate instructions over a fixed register, with an optional label.
#[derive(Debug, Clone)]
pub struct QuantumCircuit {
    pub num_qubits: usize,
    pub operations: Vec<QuantumOperation>,
    pub label: Option<String>,
}

/// The start of a qubit's line: `q`, its index left-aligned in two columns, a
/// space and a wire.
pub open spec fn wire_label(i: nat) -> Seq<char> {
    let d = decimal_text(i);
    "q"@ + d + Seq::new((if d.len() < 2 { 2 - d.len() } else { 0 }) as nat, |_k: int| ' ') + " \u{2500}"@
}

/// What an operation adds to the line of qubit `i`: a CNOT draws its control and
/// target and a wire elsewhere; any other gate draws its name on its target and a
/// wire elsewhere.
pub open spec fn op_segment(op: QuantumOperation, i: int) -> Seq<char> {
    match op {
        QuantumOperation::CNOT { control, target } => if i == control {
            "\u{25cf}\u{2500}"@
        } else if i == target {
            "\u{2295}\u{2500}"@
        } else {
            "\u{2500}\u{2500}"@
        },
        _ => if i == op_target(op) {
            "["@ + op_name(op) + "]\u{2500}"@
        } else {
            "\u{2500}\u{2500}\u{2500}\u{2500}"@
        },
    }
}

/// The line of qubit `i` after the operations.
pub open spec fn wire_text(ops: Seq<QuantumOperation>, i: int) -> Seq<char>
    decreases ops.len(),
{
    if ops.len() == 0 {
        wire_label(i as nat)
    } else {
        wire_text(ops.drop_last(), i) + op_segment(ops.last(), i)
    }
}

/// The diagram of `n` qubits under the operations: their lines, one per row.
pub open spec fn diagram_text(n: nat, ops: Seq<QuantumOperation>) -> Seq<char> {
    join_text(Seq::new(n, |i: int| wire_text(ops, i)), "\n"@)
}

fn op_segment_exec(op: &QuantumOperation, i: usize) -> (r: String)
    ensures
        r@ == op_segment(*op, i as int),
{
    match op {
        QuantumOperation::CNOT { control, target } => {
            if i == *control {
                owned("\u{25cf}\u{2500}")
            } else if i == *target {
                owned("\u{2295}\u{2500}")
            } else {
                owned("\u{2500}\u{2500}")
            }
        },
        _ => {
            if i == op.target_qubit() {
                let a = concat("[", op.name());
                concat(a.as_str(), "]\u{2500}")
            } else {
                owned("\u{2500}\u{2500}\u{2500}\u{2500}")
            }
        },
    }
}

fn wire_label_exec(i: usize) -> (r: String)
    ensures
        r@ == wire_label(i as nat),
{
    let mut out: Vec<char> = Vec::new();
    push_str_chars(&mut out, "q");
    let ghost head = out@;
    let mut digits: Vec<char> = Vec::new();
    push_decimal(i as u64, &mut digits);
    assert(digits@ =~= decimal_text(i as nat));
    let n = digits.len();
    out.append(&mut digits);
    let ghost with_digits = out@;
    let pad: usize = if n < 2 { 2 - n } else { 0 };
    let mut k: usize = 0;
    while k < pad
        invariant
            k <= pad,
            out@ == with_digits + Seq::new(k as nat, |_j: int| ' '),
        decreases pad - k,
    {
        out.push(' ');
        k += 1;
        assert(out@ =~= with_digits + Seq::new(k as nat, |_j: int| ' '));
    }
    push_str_chars(&mut out, " \u{2500}");
    assert(out@ =~= wire_label(i as nat));
    string_from_chars(out.as_slice())
}

impl QuantumCircuit {
    /// An empty circuit over `num_qubits` qubits.
    pub fn new(num_qubits: usize) -> (r: QuantumCircuit)
        ensures
            r.num_qubits == num_qubits,
            r.operations@.len() == 0,
            r.label is None,
    {
        QuantumCircuit { num_qubits, operations: Vec::new(), label: None }
    }

    /// An empty labelled circuit over `num_qubits` qubits.
    pub fn with_label(num_qubits: usize, label: String) -> (r: QuantumCircuit)
        ensures
            r.num_qubits == num_qubits,
            r.operations@.len() == 0,
            r.label == Some(label),
    {
        QuantumCircuit { num_qubits, operations: Vec::new(), label: Some(label) }
    }

    /// Appends an operation.
    pub fn add_operation(&mut self, op: QuantumOperation)
        ensures
            final(self).operations@ == old(self).operations@.push(op),
            final(self).num_qubits == old(self).num_qubits,
            final(self).label == old(self).label,
    {
        self.operations.push(op);
    }

    /// The number of operations.
    pub fn depth(&self) -> (r: usize)
        ensures
            r == self.operations@.len(),
    {
        self.operations.len()
    }

    /// Whether there are no operations.
    pub fn is_empty(&self) -> (r: bool)
        ensures
            r == (self.operations@.len() == 0),
    {
        self.operations.len() == 0
    }

    /// Appends a Hadamard on every qubit, in order.
    pub fn apply_hadamard_all(&mut self)
        ensures
            final(self).operations@ == old(self).operations@ + Seq::new(
                old(self).num_qubits as nat,
                |i: int| QuantumOperation::Hadamard { target: i as usize },
            ),
            final(self).num_qubits == old(self).num_qubits,
            final(self).label == old(self).label,
    {
        let n = self.num_qubits;
        let mut i: usize = 0;
        while i < n
            invariant
                n == old(self).num_qubits,
                self.num_qubits == n,
                self.label == old(self).label,
                i <= n,
                self.operations@ == old(self).operations@ + Seq::new(i as nat, |j: int| QuantumOperation::Hadamard { target: j as usize }),
            decreases n - i,
        {
            self.add_operation(QuantumOperation::Hadamard { target: i });
            i += 1;
            assert(self.operations@ =~= old(self).operations@ + Seq::new(
                i as nat,
                |j: int| QuantumOperation::Hadamard { target: j as usize },
            ));
        }
    }

    /// Appends a CNOT from each qubit to the next, in order.
    pub fn apply_entangle_chain(&mut self)
        ensures
            final(self).operations@ == old(self).operations@ + Seq::new(
                (if old(self).num_qubits == 0 { 0 } else { old(self).num_qubits - 1 }) as nat,
                |i: int| QuantumOperation::CNOT { control: i as usize, target: (i + 1) as usize },
            ),
            final(self).num_qubits == old(self).num_qubits,
            final(self).label == old(self).label,
    {
        let n: usize = if self.num_qubits == 0 { 0 } else { self.num_qubits - 1 };
        let mut i: usize = 0;
        while i < n
            invariant
                n == (if old(self).num_qubits == 0 { 0 } else { old(self).num_qubits - 1 }),
                self.num_qubits == old(self).num_qubits,
                self.label == old(self).label,
                i <= n,
                self.operations@ == old(self).operations@ + Seq::new(
                    i as nat,
                    |j: int| QuantumOperation::CNOT { control: j as usize, target: (j + 1) as usize },
                ),
            decreases n - i,
        {
            self.add_operation(QuantumOperation::CNOT { control: i, target: i + 1 });
            i += 1;
            assert(self.operations@ =~= old(self).operations@ + Seq::new(
                i as nat,
                |j: int| QuantumOperation::CNOT { control: j as usize, target: (j + 1) as usize },
            ));
        }
    }

    /// A compact diagram: one line per qubit with a mark per operation.
    pub fn ascii_diagram(&self) -> (r: String)
        ensures
            r@ == diagram_text(self.num_qubits as nat, self.operations@),
    {
        let n = self.num_qubits;
        let ops = &self.operations;
        let mut lines: Vec<String> = Vec::new();
        let mut i: usize = 0;
        while i < n
            invariant
                i <= n,
                lines@.len() == i,
                forall|j: int| 0 <= j < i ==> #[trigger] lines@[j]@ == wire_label(j as nat),
            decreases n - i,
        {
            lines.push(wire_label_exec(i));
            i += 1;
        }
        let mut k: usize = 0;
        while k < ops.len()
            invariant
                k <= ops@.len(),
                lines@.len() == n,
                forall|j: int| 0 <= j < n ==> #[trigger] lines@[j]@ == wire_text(ops@.take(k as int), j),
            decreases ops@.len() - k,
        {
            proof {
                assert(ops@.take(k as int + 1).drop_last() =~= ops@.take(k as int));
            }
            let mut next: Vec<String> = Vec::new();
            let mut j: usize = 0;
            while j < n
                invariant
                    j <= n,
                    k < ops@.len(),
                    lines@.len() == n,
                    next@.len() == j,
                    forall|l: int| 0 <= l < n ==> #[trigger] lines@[l]@ == wire_text(ops@.take(k as int), l),
                    forall|l: int| 0 <= l < j ==> #[trigger] next@[l]@ == wire_text(ops@.take(k as int + 1), l),
                    ops@.take(k as int + 1).drop_last() == ops@.take(k as int),
                decreases n - j,
            {
                let seg = op_segment_exec(&ops[k], j);
                next.push(concat(lines[j].as_str(), seg.as_str()));
                proof {
                    assert(ops@.take(k as int + 1).last() == ops@[k as int]);
                }
                j += 1;
            }
            lines = next;
            k += 1;
        }
        proof {
            assert(ops@.take(ops@.len() as int) =~= ops@);
            assert(texts(lines@) =~= Seq::new(n as nat, |i: int| wire_text(ops@, i)));
        }
        join(&lines, "\n")
    }

    /// `QuantumCircuit { qubits: n, depth: d }` (what `Display` writes).
    pub fn to_text(&self) -> (r: String)
        ensures
            r@ == "QuantumCircuit { qubits: "@ + decimal_text(self.num_qubits as nat) + ", depth: "@ + decimal_text(
                self.operations@.len(),
            ) + " }"@,
    {
        let mut out: Vec<char> = Vec::new();
        push_str_chars(&mut out, "QuantumCircuit { qubits: ");
        push_decimal(self.num_qubits as u64, &mut out);
        push_str_chars(&mut out, ", depth: ");
        push_decimal(self.operations.len() as u64, &mut out);
        push_str_chars(&mut out, " }");
        string_from_chars(out.as_slice())
    }
}

} // verus!
