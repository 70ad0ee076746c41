//! Gates applied to quantum states.

use vstd::prelude::*;

verus! {

/// Applies gates to simulator states.
pub struct QuantumGates;

} // verus!
