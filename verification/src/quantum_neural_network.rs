//! Entanglement layouts of quantum networks, and quantum key distribution.

use vstd::prelude::*;

verus! {

/// Which qubits of a layer are entangled.
#[derive(Debug, PartialEq)]
pub enum EntanglementStrategy {
    AllToAll,
    NearestNeighbor,
    /// Explicit pairs of qubits.
    Custom(Vec<(usize, usize)>),
}

/// Algorithms built on small quantum circuits.
pub struct SpecializedAlgorithms;

/// `rand::random::<bool>()`: one bit from the thread's random generator, as 0 or 1;
/// nothing else is promised of it.
#[verifier::external_body]
pub(crate) fn random_bit() -> (r: u8)
    ensures
        r <= 1,
{
    rand::random::<bool>() as u8
}

impl SpecializedAlgorithms {
    /// Quantum key distribution: `n` random bits, each 0 or 1, as measuring qubits in
    /// uniform superposition gives them.
    pub fn qkd(n: usize) -> (r: Vec<u8>)
        ensures
            r@.len() == n,
            forall|i: int| 0 <= i < n ==> #[trigger] r@[i] <= 1,
    {
        let mut key: Vec<u8> = Vec::new();
        let mut i: usize = 0;
        while i < n
            invariant
                i <= n,
                key@.len() == i,
                forall|j: int| 0 <= j < i ==> #[trigger] key@[j] <= 1,
            decreases n - i,
        {
            let bit = random_bit();
            key.push(bit);
            i += 1;
        }
        key
    }
}

} // verus!
