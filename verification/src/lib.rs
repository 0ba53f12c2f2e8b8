//! Execution layer of a layer-2 rollup: an account ledger driven by an
//! ordered stream of sequenced blocks, a chain of state commitments, and
//! batch correctness proofs submitted to a settlement layer.

pub mod bn254;
pub mod commitment;
pub mod error;
pub mod executor;
pub mod prover;
pub mod seed;
pub mod settlement;
pub mod state;
pub mod transaction;

use vstd::prelude::*;

verus! {

/// Identifies the rollup's namespace within the shared sequenced blocks.
#[derive(Clone, Copy, Debug, PartialEq, Eq, Structural)]
pub struct RollupVM(pub u64);

impl RollupVM {
    /// The virtual machine executing the given namespace.
    pub fn new(namespace: u64) -> (r: Self)
        ensures
            r.0 == namespace,
    {
        RollupVM(namespace)
    }
}

} // verus!
