//! Circuits built gate by gate: qubit identifiers, gates, and the builder that
//! collects them.

use vstd::prelude::*;
use crate::circuit_visualization::{get_gate_qubit_indices, position_of, qubit_position, qubit_positions};
use crate::hardware_integration::{QuantumCircuit as HwCircuit, QuantumGate as HwGate};
use crate::text::{decimal_text, owned, push_decimal, push_str_chars, push_string_chars, same_text, string_from_chars};

verus! {

/// A qubit: a register name, and an index into the register when it has one.
#[derive(Debug, Clone, PartialEq, Eq, Hash)]
pub struct QubitId {
    pub name: String,
    pub index: Option<usize>,
}

/// How a qubit is written: `name[index]`, or the bare name.
pub open spec fn qubit_text(q: QubitId) -> Seq<char> {
    match q.index {
        Some(i) => q.name@ + "["@ + decimal_text(i as nat) + "]"@,
        None => q.name@,
    }
}

impl QubitId {
    /// A qubit named by its register alone.
    pub fn new(name: &str) -> (r: QubitId)
        ensures
            r.name@ == name@,
            r.index is None,
    {
        QubitId { name: owned(name), index: None }
    }

    /// A qubit at an index of a register.
    pub fn indexed(name: &str, index: usize) -> (r: QubitId)
        ensures
            r.name@ == name@,
            r.index == Some(index),
    {
        QubitId { name: owned(name), index: Some(index) }
    }

    /// How the qubit is written (what `Display` writes).
    pub fn to_text(&self) -> (r: String)
        ensures
            r@ == qubit_text(*self),
    {
        let mut out: Vec<char> = Vec::new();
        push_string_chars(&mut out, &self.name);
        match self.index {
            Some(i) => {
                push_str_chars(&mut out, "[");
                push_decimal(i as u64, &mut out);
                push_str_chars(&mut out, "]");
            },
            None => {},
        }
        assert(out@ =~= qubit_text(*self));
        string_from_chars(out.as_slice())
    }
}

/// A copy of a qubit identifier.
pub(crate) fn copy_of(q: &QubitId) -> (r: QubitId)
    ensures
        r == *q,
{
    QubitId { name: q.name.clone(), index: q.index }
}

/// The gates a circuit can hold. An angle is carried as the bit pattern of its
/// double-precision value (`f64::to_bits`); the builder keeps angles and hands
/// them on without reading them.
#[derive(Debug)]
pub enum QuantumGateType {
    Hadamard,
    PauliX,
    PauliY,
    PauliZ,
    /// A phase gate by an angle.
    Phase(u64),
    RotationX(u64),
    RotationY(u64),
    RotationZ(u64),
    S,
    T,
    SDagger,
    TDagger,
    CNOT,
    CZ,
    CY,
    SWAP,
    Toffoli,
    Fredkin,
    Measure,
    /// A named gate with its parameters.
    Custom(String, Vec<u64>),
}

/// A gate on some qubits, with the classical bits it writes and free metadata
/// (keys with their values, each key once).
#[derive(Debug)]
pub struct QuantumGate {
    pub gate_type: QuantumGateType,
    pub qubits: Vec<QubitId>,
    pub classical_bits: Vec<String>,
    pub metadata: Vec<(String, String)>,
}

/// The keys of some entries.
pub open spec fn entry_keys<V>(entries: Seq<(String, V)>) -> Seq<Seq<char>> {
    entries.map_values(|e: (String, V)| e.0@)
}

/// The first place of a key among some keys.
pub open spec fn key_position(keys: Seq<Seq<char>>, k: Seq<char>) -> Option<int>
    decreases keys.len(),
{
    if keys.len() == 0 {
        None
    } else {
        match key_position(keys.drop_last(), k) {
            Some(i) => Some(i),
            None => if keys.last() == k {
                Some(keys.len() - 1)
            } else {
                None
            },
        }
    }
}

/// Some entries with a key set to a value: the key's first entry replaced, or a
/// new entry last.
pub open spec fn set_entry<V>(entries: Seq<(String, V)>, key: String, value: V) -> Seq<(String, V)> {
    match key_position(entry_keys(entries), key@) {
        Some(i) => entries.update(i, (key, value)),
        None => entries.push((key, value)),
    }
}

fn set_entry_exec<V>(entries: &mut Vec<(String, V)>, key: String, value: V)
    ensures
        final(entries)@ == set_entry(old(entries)@, key, value),
{
    let ghost keys = entry_keys(entries@);
    let mut i: usize = 0;
    while i < entries.len()
        invariant
            entries@ == old(entries)@,
            keys == entry_keys(entries@),
            i <= entries@.len(),
            key_position(keys.take(i as int), key@) is None,
        decreases entries@.len() - i,
    {
        assert(keys.take(i as int + 1).drop_last() =~= keys.take(i as int));
        if same_text(entries[i].0.as_str(), key.as_str()) {
            proof {
                assert(keys[i as int] == key@);
                assert(keys.take(i as int + 1).last() == key@);
                assert(key_position(keys.take(i as int + 1), key@) == Some(i as int));
                lemma_key_position_prefix(keys, key@, i as int + 1);
            }
            entries.set(i, (key, value));
            return;
        }
        i += 1;
    }
    proof {
        assert(keys.take(i as int) =~= keys);
    }
    entries.push((key, value));
}

proof fn lemma_key_position_prefix(keys: Seq<Seq<char>>, k: Seq<char>, n: int)
    requires
        0 <= n <= keys.len(),
        key_position(keys.take(n), k) is Some,
    ensures
        key_position(keys, k) == key_position(keys.take(n), k),
    decreases keys.len() - n,
{
    if n < keys.len() {
        assert(keys.take(n + 1).drop_last() =~= keys.take(n));
        lemma_key_position_prefix(keys, k, n + 1);
    } else {
        assert(keys.take(n) =~= keys);
    }
}

impl QuantumGate {
    /// A gate of a kind on some qubits, writing no classical bits, without metadata.
    pub fn new(gate_type: QuantumGateType, qubits: Vec<QubitId>) -> (r: QuantumGate)
        ensures
            r.gate_type == gate_type,
            r.qubits == qubits,
            r.classical_bits@.len() == 0,
            r.metadata@.len() == 0,
    {
        QuantumGate { gate_type, qubits, classical_bits: Vec::new(), metadata: Vec::new() }
    }

    /// The same gate writing the given classical bits.
    pub fn with_classical_bits(self, bits: Vec<String>) -> (r: QuantumGate)
        ensures
            r.gate_type == self.gate_type,
            r.qubits == self.qubits,
            r.classical_bits == bits,
            r.metadata == self.metadata,
    {
        let mut g = self;
        g.classical_bits = bits;
        g
    }

    /// The same gate with a metadata key set to a value.
    pub fn with_metadata(self, key: &str, value: &str) -> (r: QuantumGate)
        ensures
            r.gate_type == self.gate_type,
            r.qubits == self.qubits,
            r.classical_bits == self.classical_bits,
            exists|k: String, v: String|
                k@ == key@ && v@ == value@ && r.metadata@ == #[trigger] set_entry(self.metadata@, k, v),
    {
        let mut g = self;
        let k = owned(key);
        let v = owned(value);
        let ghost (k0, v0) = (k, v);
        set_entry_exec(&mut g.metadata, k, v);
        assert(g.metadata@ == set_entry(self.metadata@, k0, v0));
        g
    }
}

/// A circuit under construction: its qubits, classical registers, gates in order,
/// parameters (names with the bit patterns of their values, each name once),
/// metadata, and how hard it is to be optimized (0 to 3).
#[derive(Debug)]
pub struct QuantumCircuitBuilder {
    pub name: String,
    pub qubits: Vec<QubitId>,
    pub classical_registers: Vec<String>,
    pub gates: Vec<QuantumGate>,
    pub parameters: Vec<(String, u64)>,
    pub metadata: Vec<(String, String)>,
    pub optimization_level: u8,
}

/// `g` is a gate of kind `kind` on `qubits`, writing the classical bits `bits`,
/// without metadata.
pub open spec fn is_gate(g: QuantumGate, kind: QuantumGateType, qubits: Seq<QubitId>, bits: Seq<Seq<char>>) -> bool {
    &&& g.gate_type == kind
    &&& g.qubits@ == qubits
    &&& g.classical_bits@.map_values(|s: String| s@) == bits
    &&& g.metadata@.len() == 0
}

/// `b` is `a` with its gates alone changed.
pub open spec fn gates_only_changed(a: QuantumCircuitBuilder, b: QuantumCircuitBuilder) -> bool {
    &&& b.name == a.name
    &&& b.qubits == a.qubits
    &&& b.classical_registers == a.classical_registers
    &&& b.parameters == a.parameters
    &&& b.metadata == a.metadata
    &&& b.optimization_level == a.optimization_level
}

/// `b` is `a` with one more gate, the last, of kind `kind` on `qubits` writing `bits`.
pub open spec fn gate_added(
    a: QuantumCircuitBuilder,
    b: QuantumCircuitBuilder,
    kind: QuantumGateType,
    qubits: Seq<QubitId>,
    bits: Seq<Seq<char>>,
) -> bool {
    &&& gates_only_changed(a, b)
    &&& b.gates@.len() == a.gates@.len() + 1
    &&& b.gates@.take(a.gates@.len() as int) == a.gates@
    &&& is_gate(b.gates@.last(), kind, qubits, bits)
}

/// The name of the `i`-th bit of a register.
pub open spec fn register_bit(name: Seq<char>, i: nat) -> Seq<char> {
    name + "["@ + decimal_text(i) + "]"@
}

/// The hardware name of a gate.
pub open spec fn gate_name(t: QuantumGateType) -> Seq<char> {
    match t {
        QuantumGateType::Hadamard => "h"@,
        QuantumGateType::PauliX => "x"@,
        QuantumGateType::PauliY => "y"@,
        QuantumGateType::PauliZ => "z"@,
        QuantumGateType::Phase(_) => "p"@,
        QuantumGateType::RotationX(_) => "rx"@,
        QuantumGateType::RotationY(_) => "ry"@,
        QuantumGateType::RotationZ(_) => "rz"@,
        QuantumGateType::S => "s"@,
        QuantumGateType::T => "t"@,
        QuantumGateType::SDagger => "sdg"@,
        QuantumGateType::TDagger => "tdg"@,
        QuantumGateType::CNOT => "cx"@,
        QuantumGateType::CZ => "cz"@,
        QuantumGateType::CY => "cy"@,
        QuantumGateType::SWAP => "swap"@,
        QuantumGateType::Toffoli => "ccx"@,
        QuantumGateType::Fredkin => "cswap"@,
        QuantumGateType::Measure => "measure"@,
        QuantumGateType::Custom(name, _) => name@,
    }
}

/// The angles a gate carries (as bit patterns).
pub open spec fn gate_params(t: QuantumGateType) -> Seq<u64> {
    match t {
        QuantumGateType::Phase(a) => seq![a],
        QuantumGateType::RotationX(a) => seq![a],
        QuantumGateType::RotationY(a) => seq![a],
        QuantumGateType::RotationZ(a) => seq![a],
        QuantumGateType::Custom(_, params) => params@,
        _ => Seq::empty(),
    }
}

/// `h` is `g`, a gate of a circuit with qubits `circuit`, in the form devices take.
pub open spec fn hardware_gate_of(g: QuantumGate, circuit: Seq<QubitId>, h: HwGate) -> bool {
    &&& h.gate_type@ == gate_name(g.gate_type)
    &&& h.qubits@.map_values(|u: usize| u as int) == qubit_positions(g.qubits@, circuit)
    &&& h.parameters@ == gate_params(g.gate_type)
}

impl QuantumCircuitBuilder {
    /// An empty circuit of the given name, optimized at level 1.
    pub fn new(name: &str) -> (r: QuantumCircuitBuilder)
        ensures
            r.name@ == name@,
            r.qubits@.len() == 0,
            r.classical_registers@.len() == 0,
            r.gates@.len() == 0,
            r.parameters@.len() == 0,
            r.metadata@.len() == 0,
            r.optimization_level == 1,
    {
        QuantumCircuitBuilder {
            name: owned(name),
            qubits: Vec::new(),
            classical_registers: Vec::new(),
            gates: Vec::new(),
            parameters: Vec::new(),
            metadata: Vec::new(),
            optimization_level: 1,
        }
    }

    /// Adds `count` qubits of register `q`, numbered on from the qubits there are,
    /// and returns them.
    pub fn add_qubits(&mut self, count: usize) -> (r: Vec<QubitId>)
        requires
            old(self).qubits@.len() + count <= usize::MAX,
        ensures
            final(self).qubits@ == old(self).qubits@ + r@,
            r@.len() == count,
            forall|j: int|
                0 <= j < count ==> (#[trigger] r@[j]).name@ == "q"@ && r@[j].index == Some(
                    (old(self).qubits@.len() + j) as usize,
                ),
            final(self).name == old(self).name,
            final(self).classical_registers == old(self).classical_registers,
            final(self).gates == old(self).gates,
            final(self).parameters == old(self).parameters,
            final(self).metadata == old(self).metadata,
            final(self).optimization_level == old(self).optimization_level,
    {
        let start = self.qubits.len();
        let mut added: Vec<QubitId> = Vec::new();
        let mut i: usize = 0;
        while i < count
            invariant
                start == old(self).qubits@.len(),
                start + count <= usize::MAX,
                i <= count,
                self.qubits@ == old(self).qubits@ + added@,
                added@.len() == i,
                forall|j: int| 0 <= j < i ==> (#[trigger] added@[j]).name@ == "q"@ && added@[j].index == Some((start + j) as usize),
                self.name == old(self).name,
                self.classical_registers == old(self).classical_registers,
                self.gates == old(self).gates,
                self.parameters == old(self).parameters,
                self.metadata == old(self).metadata,
                self.optimization_level == old(self).optimization_level,
            decreases count - i,
        {
            let q = QubitId::indexed("q", start + i);
            self.qubits.push(copy_of(&q));
            added.push(q);
            assert(self.qubits@ =~= old(self).qubits@ + added@);
            i += 1;
        }
        added
    }

    /// Adds a qubit known by its name alone, and returns it.
    pub fn add_named_qubit(&mut self, name: &str) -> (r: QubitId)
        ensures
            final(self).qubits@ == old(self).qubits@.push(r),
            r.name@ == name@,
            r.index is None,
            final(self).name == old(self).name,
            final(self).classical_registers == old(self).classical_registers,
            final(self).gates == old(self).gates,
            final(self).parameters == old(self).parameters,
            final(self).metadata == old(self).metadata,
            final(self).optimization_level == old(self).optimization_level,
    {
        let q = QubitId::new(name);
        self.qubits.push(copy_of(&q));
        q
    }

    /// Adds the bits `name[0]` to `name[size - 1]` to the classical registers.
    pub fn add_classical_register(&mut self, name: &str, size: usize)
        ensures
            final(self).classical_registers@.map_values(|s: String| s@) == old(self).classical_registers@.map_values(
                |s: String| s@,
            ) + Seq::new(size as nat, |i: int| register_bit(name@, i as nat)),
            final(self).name == old(self).name,
            final(self).qubits == old(self).qubits,
            final(self).gates == old(self).gates,
            final(self).parameters == old(self).parameters,
            final(self).metadata == old(self).metadata,
            final(self).optimization_level == old(self).optimization_level,
    {
        let ghost before = old(self).classical_registers@.map_values(|s: String| s@);
        let mut i: usize = 0;
        while i < size
            invariant
                i <= size,
                self.classical_registers@.map_values(|s: String| s@) == before + Seq::new(i as nat, |k: int| register_bit(name@, k as nat)),
                before == old(self).classical_registers@.map_values(|s: String| s@),
                self.name == old(self).name,
                self.qubits == old(self).qubits,
                self.gates == old(self).gates,
                self.parameters == old(self).parameters,
                self.metadata == old(self).metadata,
                self.optimization_level == old(self).optimization_level,
            decreases size - i,
        {
            let q = QubitId::indexed(name, i);
            let bit = q.to_text();
            assert(bit@ == register_bit(name@, i as nat));
            let ghost prev = self.classical_registers@;
            self.classical_registers.push(bit);
            assert(self.classical_registers@.map_values(|s: String| s@) =~= prev.map_values(|s: String| s@).push(
                register_bit(name@, i as nat),
            ));
            assert(self.classical_registers@.map_values(|s: String| s@) =~= before + Seq::new(
                (i + 1) as nat,
                |k: int| register_bit(name@, k as nat),
            ));
            i += 1;
        }
    }

    /// Adds a gate after the others.
    pub fn add_gate(&mut self, gate: QuantumGate) -> (r: &mut Self)
        ensures
            r.gates@ == old(self).gates@.push(gate),
            gates_only_changed(*old(self), *r),
            *final(self) == *final(r),
    {
        self.gates.push(gate);
        self
    }

    fn one(&mut self, kind: QuantumGateType, qubit: &QubitId) -> (r: &mut Self)
        ensures
            gate_added(*old(self), *r, kind, seq![*qubit], Seq::empty()),
            *final(self) == *final(r),
    {
        let mut qs: Vec<QubitId> = Vec::new();
        qs.push(copy_of(qubit));
        let g = QuantumGate::new(kind, qs);
        assert(g.qubits@ =~= seq![*qubit]);
        assert(g.classical_bits@.map_values(|s: String| s@) =~= Seq::<Seq<char>>::empty());
        self.gates.push(g);
        assert(self.gates@.take(old(self).gates@.len() as int) =~= old(self).gates@);
        self
    }

    /// A Hadamard gate on a qubit.
    pub fn h(&mut self, qubit: &QubitId) -> (r: &mut Self)
        ensures
            gate_added(*old(self), *r, QuantumGateType::Hadamard, seq![*qubit], Seq::empty()),
            *final(self) == *final(r),
    {
        self.one(QuantumGateType::Hadamard, qubit)
    }

    /// A Pauli X gate on a qubit.
    pub fn x(&mut self, qubit: &QubitId) -> (r: &mut Self)
        ensures
            gate_added(*old(self), *r, QuantumGateType::PauliX, seq![*qubit], Seq::empty()),
            *final(self) == *final(r),
    {
        self.one(QuantumGateType::PauliX, qubit)
    }

    /// A Pauli Y gate on a qubit.
    pub fn y(&mut self, qubit: &QubitId) -> (r: &mut Self)
        ensures
            gate_added(*old(self), *r, QuantumGateType::PauliY, seq![*qubit], Seq::empty()),
            *final(self) == *final(r),
    {
        self.one(QuantumGateType::PauliY, qubit)
    }

    /// A Pauli Z gate on a qubit.
    pub fn z(&mut self, qubit: &QubitId) -> (r: &mut Self)
        ensures
            gate_added(*old(self), *r, QuantumGateType::PauliZ, seq![*qubit], Seq::empty()),
            *final(self) == *final(r),
    {
        self.one(QuantumGateType::PauliZ, qubit)
    }

    /// A phase gate by an angle (its bit pattern) on a qubit.
    pub fn phase(&mut self, qubit: &QubitId, angle: u64) -> (r: &mut Self)
        ensures
            gate_added(*old(self), *r, QuantumGateType::Phase(angle), seq![*qubit], Seq::empty()),
            *final(self) == *final(r),
    {
        self.one(QuantumGateType::Phase(angle), qubit)
    }

    /// A rotation about X by an angle (its bit pattern) on a qubit.
    pub fn rx(&mut self, qubit: &QubitId, angle: u64) -> (r: &mut Self)
        ensures
            gate_added(*old(self), *r, QuantumGateType::RotationX(angle), seq![*qubit], Seq::empty()),
            *final(self) == *final(r),
    {
        self.one(QuantumGateType::RotationX(angle), qubit)
    }

    /// A rotation about Y by an angle (its bit pattern) on a qubit.
    pub fn ry(&mut self, qubit: &QubitId, angle: u64) -> (r: &mut Self)
        ensures
            gate_added(*old(self), *r, QuantumGateType::RotationY(angle), seq![*qubit], Seq::empty()),
            *final(self) == *final(r),
    {
        self.one(QuantumGateType::RotationY(angle), qubit)
    }

    /// A rotation about Z by an angle (its bit pattern) on a qubit.
    pub fn rz(&mut self, qubit: &QubitId, angle: u64) -> (r: &mut Self)
        ensures
            gate_added(*old(self), *r, QuantumGateType::RotationZ(angle), seq![*qubit], Seq::empty()),
            *final(self) == *final(r),
    {
        self.one(QuantumGateType::RotationZ(angle), qubit)
    }

    /// An S gate on a qubit.
    pub fn s(&mut self, qubit: &QubitId) -> (r: &mut Self)
        ensures
            gate_added(*old(self), *r, QuantumGateType::S, seq![*qubit], Seq::empty()),
            *final(self) == *final(r),
    {
        self.one(QuantumGateType::S, qubit)
    }

    /// A T gate on a qubit.
    pub fn t(&mut self, qubit: &QubitId) -> (r: &mut Self)
        ensures
            gate_added(*old(self), *r, QuantumGateType::T, seq![*qubit], Seq::empty()),
            *final(self) == *final(r),
    {
        self.one(QuantumGateType::T, qubit)
    }

    fn two(&mut self, kind: QuantumGateType, a: &QubitId, b: &QubitId) -> (r: &mut Self)
        ensures
            gate_added(*old(self), *r, kind, seq![*a, *b], Seq::empty()),
            *final(self) == *final(r),
    {
        let g = QuantumGate::new(kind, vec![copy_of(a), copy_of(b)]);
        assert(g.classical_bits@.map_values(|s: String| s@) =~= Seq::<Seq<char>>::empty());
        self.gates.push(g);
        assert(self.gates@.take(old(self).gates@.len() as int) =~= old(self).gates@);
        self
    }

    /// A controlled X gate.
    pub fn cnot(&mut self, control: &QubitId, target: &QubitId) -> (r: &mut Self)
        ensures
            gate_added(*old(self), *r, QuantumGateType::CNOT, seq![*control, *target], Seq::empty()),
            *final(self) == *final(r),
    {
        self.two(QuantumGateType::CNOT, control, target)
    }

    /// A controlled Z gate.
    pub fn cz(&mut self, control: &QubitId, target: &QubitId) -> (r: &mut Self)
        ensures
            gate_added(*old(self), *r, QuantumGateType::CZ, seq![*control, *target], Seq::empty()),
            *final(self) == *final(r),
    {
        self.two(QuantumGateType::CZ, control, target)
    }

    /// A swap of two qubits.
    pub fn swap(&mut self, qubit1: &QubitId, qubit2: &QubitId) -> (r: &mut Self)
        ensures
            gate_added(*old(self), *r, QuantumGateType::SWAP, seq![*qubit1, *qubit2], Seq::empty()),
            *final(self) == *final(r),
    {
        self.two(QuantumGateType::SWAP, qubit1, qubit2)
    }

    /// A doubly controlled X gate.
    pub fn toffoli(&mut self, control1: &QubitId, control2: &QubitId, target: &QubitId) -> (r: &mut Self)
        ensures
            gate_added(*old(self), *r, QuantumGateType::Toffoli, seq![*control1, *control2, *target], Seq::empty()),
            *final(self) == *final(r),
    {
        let g = QuantumGate::new(QuantumGateType::Toffoli, vec![copy_of(control1), copy_of(control2), copy_of(target)]);
        assert(g.classical_bits@.map_values(|s: String| s@) =~= Seq::<Seq<char>>::empty());
        self.gates.push(g);
        assert(self.gates@.take(old(self).gates@.len() as int) =~= old(self).gates@);
        self
    }

    /// A measurement of a qubit into a classical bit.
    pub fn measure(&mut self, qubit: &QubitId, classical_bit: &str) -> (r: &mut Self)
        ensures
            gate_added(*old(self), *r, QuantumGateType::Measure, seq![*qubit], seq![classical_bit@]),
            *final(self) == *final(r),
    {
        let mut qs: Vec<QubitId> = Vec::new();
        qs.push(copy_of(qubit));
        let mut bits: Vec<String> = Vec::new();
        bits.push(owned(classical_bit));
        let g = QuantumGate::new(QuantumGateType::Measure, qs).with_classical_bits(bits);
        assert(g.qubits@ =~= seq![*qubit]);
        assert(g.classical_bits@.map_values(|s: String| s@) =~= seq![classical_bit@]);
        self.gates.push(g);
        assert(self.gates@.take(old(self).gates@.len() as int) =~= old(self).gates@);
        self
    }

    /// Measures every qubit, the `i`-th into the bit `c[i]`.
    pub fn measure_all(&mut self) -> (r: &mut Self)
        ensures
            gates_only_changed(*old(self), *r),
            r.gates@.len() == old(self).gates@.len() + old(self).qubits@.len(),
            r.gates@.take(old(self).gates@.len() as int) == old(self).gates@,
            forall|i: int|
                0 <= i < old(self).qubits@.len() ==> is_gate(
                    #[trigger] r.gates@[old(self).gates@.len() + i],
                    QuantumGateType::Measure,
                    seq![old(self).qubits@[i]],
                    seq![register_bit("c"@, i as nat)],
                ),
            *final(self) == *final(r),
    {
        let n = self.qubits.len();
        let ghost base = old(self).gates@.len();
        let mut i: usize = 0;
        while i < n
            invariant
                n == old(self).qubits@.len(),
                base == old(self).gates@.len(),
                i <= n,
                gates_only_changed(*old(self), *self),
                self.gates@.len() == base + i,
                self.gates@.take(base as int) == old(self).gates@,
                forall|k: int|
                    0 <= k < i ==> is_gate(
                        #[trigger] self.gates@[base + k],
                        QuantumGateType::Measure,
                        seq![old(self).qubits@[k]],
                        seq![register_bit("c"@, k as nat)],
                    ),
            decreases n - i,
        {
            let q = copy_of(&self.qubits[i]);
            let bit = QubitId::indexed("c", i).to_text();
            let ghost prev = self.gates@;
            self.measure(&q, bit.as_str());
            proof {
                assert(self.gates@.take(prev.len() as int) == prev);
                assert forall|k: int| 0 <= k < i + 1 implies is_gate(
                    #[trigger] self.gates@[base + k],
                    QuantumGateType::Measure,
                    seq![old(self).qubits@[k]],
                    seq![register_bit("c"@, k as nat)],
                ) by {
                    if k < i {
                        assert(self.gates@[base + k] == prev[base + k]);
                    }
                }
                assert(self.gates@.take(base as int) =~= old(self).gates@) by {
                    assert forall|k: int| 0 <= k < base implies self.gates@[k] == old(self).gates@[k] by {
                        assert(self.gates@[k] == prev[k]);
                    }
                }
            }
            i += 1;
        }
        self
    }

    /// Sets a circuit parameter (the bit pattern of its value).
    pub fn set_parameter(&mut self, name: &str, value: u64) -> (r: &mut Self)
        ensures
            exists|k: String| k@ == name@ && r.parameters@ == #[trigger] set_entry(old(self).parameters@, k, value),
            r.name == old(self).name,
            r.qubits == old(self).qubits,
            r.classical_registers == old(self).classical_registers,
            r.gates == old(self).gates,
            r.metadata == old(self).metadata,
            r.optimization_level == old(self).optimization_level,
            *final(self) == *final(r),
    {
        let k = owned(name);
        let ghost k0 = k;
        set_entry_exec(&mut self.parameters, k, value);
        assert(self.parameters@ == set_entry(old(self).parameters@, k0, value));
        self
    }

    /// Sets how hard the circuit is optimized, at most 3.
    pub fn set_optimization_level(&mut self, level: u8) -> (r: &mut Self)
        ensures
            r.optimization_level == (if level < 3 { level } else { 3 }),
            r.name == old(self).name,
            r.qubits == old(self).qubits,
            r.classical_registers == old(self).classical_registers,
            r.gates == old(self).gates,
            r.parameters == old(self).parameters,
            r.metadata == old(self).metadata,
            *final(self) == *final(r),
    {
        self.optimization_level = if level < 3 {
            level
        } else {
            3
        };
        self
    }

    /// The depth of the circuit, counted as one layer per gate.
    pub fn depth(&self) -> (r: usize)
        ensures
            r == self.gates@.len(),
    {
        self.gates.len()
    }

    /// The number of gates.
    pub fn gate_count(&self) -> (r: usize)
        ensures
            r == self.gates@.len(),
    {
        self.gates.len()
    }

    /// The number of qubits.
    pub fn qubit_count(&self) -> (r: usize)
        ensures
            r == self.qubits@.len(),
    {
        self.qubits.len()
    }

    /// The hardware name of a gate.
    pub fn gate_type_to_string(&self, gate_type: &QuantumGateType) -> (r: String)
        ensures
            r@ == gate_name(*gate_type),
    {
        match gate_type {
            QuantumGateType::Hadamard => owned("h"),
            QuantumGateType::PauliX => owned("x"),
            QuantumGateType::PauliY => owned("y"),
            QuantumGateType::PauliZ => owned("z"),
            QuantumGateType::Phase(_) => owned("p"),
            QuantumGateType::RotationX(_) => owned("rx"),
            QuantumGateType::RotationY(_) => owned("ry"),
            QuantumGateType::RotationZ(_) => owned("rz"),
            QuantumGateType::S => owned("s"),
            QuantumGateType::T => owned("t"),
            QuantumGateType::SDagger => owned("sdg"),
            QuantumGateType::TDagger => owned("tdg"),
            QuantumGateType::CNOT => owned("cx"),
            QuantumGateType::CZ => owned("cz"),
            QuantumGateType::CY => owned("cy"),
            QuantumGateType::SWAP => owned("swap"),
            QuantumGateType::Toffoli => owned("ccx"),
            QuantumGateType::Fredkin => owned("cswap"),
            QuantumGateType::Measure => owned("measure"),
            QuantumGateType::Custom(name, _) => name.clone(),
        }
    }

    /// The angles a gate carries, as bit patterns.
    pub fn extract_gate_parameters(&self, gate_type: &QuantumGateType) -> (r: Vec<u64>)
        ensures
            r@ == gate_params(*gate_type),
    {
        match gate_type {
            QuantumGateType::Phase(a) => vec![*a],
            QuantumGateType::RotationX(a) => vec![*a],
            QuantumGateType::RotationY(a) => vec![*a],
            QuantumGateType::RotationZ(a) => vec![*a],
            QuantumGateType::Custom(_, params) => {
                let mut out: Vec<u64> = Vec::new();
                let mut i: usize = 0;
                while i < params.len()
                    invariant
                        i <= params@.len(),
                        out@ == params@.take(i as int),
                    decreases params@.len() - i,
                {
                    out.push(params[i]);
                    i += 1;
                    assert(out@ =~= params@.take(i as int));
                }
                assert(params@.take(i as int) =~= params@);
                out
            },
            _ => Vec::new(),
        }
    }

    /// A gate in the form devices take: its hardware name, the places of its
    /// qubits among the circuit's (those it has), and its angles.
    fn convert_gate_to_hardware(&self, gate: &QuantumGate) -> (r: HwGate)
        ensures
            hardware_gate_of(*gate, self.qubits@, r),
    {
        let gate_type = self.gate_type_to_string(&gate.gate_type);
        let qubits = get_gate_qubit_indices(gate.qubits.as_slice(), self.qubits.as_slice());
        let parameters = self.extract_gate_parameters(&gate.gate_type);
        let r = HwGate { gate_type, qubits, parameters };
        assert(r.qubits@.map_values(|u: usize| u as int) =~= qubit_positions(gate.qubits@, self.qubits@));
        r
    }

    /// The circuit in the form devices take: its gates converted in order, its
    /// number of qubits, and nothing measured yet.
    pub fn to_hardware_circuit(&self) -> (r: HwCircuit)
        ensures
            r.qubits == self.qubits@.len(),
            r.measurements@.len() == 0,
            r.gates@.len() == self.gates@.len(),
            forall|i: int| 0 <= i < self.gates@.len() ==> hardware_gate_of(self.gates@[i], self.qubits@, #[trigger] r.gates@[i]),
    {
        let mut gates: Vec<HwGate> = Vec::new();
        let mut i: usize = 0;
        while i < self.gates.len()
            invariant
                i <= self.gates@.len(),
                gates@.len() == i,
                forall|k: int| 0 <= k < i ==> hardware_gate_of(self.gates@[k], self.qubits@, #[trigger] gates@[k]),
            decreases self.gates@.len() - i,
        {
            let g = self.convert_gate_to_hardware(&self.gates[i]);
            gates.push(g);
            i += 1;
        }
        HwCircuit { gates, qubits: self.qubits.len(), measurements: Vec::new() }
    }

    /// The first place of a qubit among the circuit's qubits.
    pub fn get_qubit_index(&self, qubit_id: &QubitId) -> (r: Option<usize>)
        ensures
            match r {
                Some(i) => qubit_position(self.qubits@, *qubit_id) == Some(i as int),
                None => qubit_position(self.qubits@, *qubit_id) is None,
            },
    {
        position_of(self.qubits.as_slice(), qubit_id)
    }
}

} // verus!
