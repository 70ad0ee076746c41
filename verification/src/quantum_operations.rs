//! Gate instructions of runtime circuits.

use vstd::prelude::*;

verus! {

/// A gate instruction. Rotation and phase angles are carried as the bits of the
/// IEEE-754 double they were given in (`f64::to_bits`); nothing here reads them.
#[derive(Debug, Clone, PartialEq, Eq, Structural)]
pub enum QuantumOperation {
    /// Rotation of the target about the Y axis.
    RotationY { target: usize, angle: u64 },
    /// Rotation of the target about the X axis.
    RotationX { target: usize, angle: u64 },
    /// Rotation of the target about the Z axis.
    RotationZ { target: usize, angle: u64 },
    Hadamard { target: usize },
    PauliX { target: usize },
    PauliZ { target: usize },
    /// Flips the target when the control is 1.
    CNOT { control: usize, target: usize },
    /// Flips the target when both controls are 1.
    Toffoli { control_a: usize, control_b: usize, target: usize },
    /// A phase on the 1 component of the target.
    Phase { target: usize, angle: u64 },
    /// Measures the target.
    Measure { target: usize },
}

/// The qubit an operation acts on (for controlled gates, the target).
pub open spec fn op_target(op: QuantumOperation) -> usize {
    match op {
        QuantumOperation::RotationY { target, .. } => target,
        QuantumOperation::RotationX { target, .. } => target,
        QuantumOperation::RotationZ { target, .. } => target,
        QuantumOperation::Hadamard { target } => target,
        QuantumOperation::PauliX { target } => target,
        QuantumOperation::PauliZ { target } => target,
        QuantumOperation::CNOT { target, .. } => target,
        QuantumOperation::Toffoli { target, .. } => target,
        QuantumOperation::Phase { target, .. } => target,
        QuantumOperation::Measure { target } => target,
    }
}

/// The short name of an operation.
pub open spec fn op_name(op: QuantumOperation) -> Seq<char> {
    match op {
        QuantumOperation::RotationY { .. } => "Ry"@,
        QuantumOperation::RotationX { .. } => "Rx"@,
        QuantumOperation::RotationZ { .. } => "Rz"@,
        QuantumOperation::Hadamard { .. } => "H"@,
        QuantumOperation::PauliX { .. } => "X"@,
        QuantumOperation::PauliZ { .. } => "Z"@,
        QuantumOperation::CNOT { .. } => "CNOT"@,
        QuantumOperation::Toffoli { .. } => "Toffoli"@,
        QuantumOperation::Phase { .. } => "P"@,
        QuantumOperation::Measure { .. } => "M"@,
    }
}

impl QuantumOperation {
    /// The qubit the operation acts on (for controlled gates, the target).
    pub fn target_qubit(&self) -> (r: usize)
        ensures
            r == op_target(*self),
    {
        match self {
            QuantumOperation::RotationY { target, .. } => *target,
            QuantumOperation::RotationX { target, .. } => *target,
            QuantumOperation::RotationZ { target, .. } => *target,
            QuantumOperation::Hadamard { target } => *target,
            QuantumOperation::PauliX { target } => *target,
            QuantumOperation::PauliZ { target } => *target,
            QuantumOperation::CNOT { target, .. } => *target,
            QuantumOperation::Toffoli { target, .. } => *target,
            QuantumOperation::Phase { target, .. } => *target,
            QuantumOperation::Measure { target } => *target,
        }
    }

    /// The short name of the operation, for diagrams and diagnostics.
    pub fn name(&self) -> (r: &'static str)
        ensures
            r@ == op_name(*self),
    {
        match self {
            QuantumOperation::RotationY { .. } => "Ry",
            QuantumOperation::RotationX { .. } => "Rx",
            QuantumOperation::RotationZ { .. } => "Rz",
            QuantumOperation::Hadamard { .. } => "H",
            QuantumOperation::PauliX { .. } => "X",
            QuantumOperation::PauliZ { .. } => "Z",
            QuantumOperation::CNOT { .. } => "CNOT",
            QuantumOperation::Toffoli { .. } => "Toffoli",
            QuantumOperation::Phase { .. } => "P",
            QuantumOperation::Measure { .. } => "M",
        }
    }
}

} // verus!
