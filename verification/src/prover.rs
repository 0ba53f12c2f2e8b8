//! Single-block proofs and their aggregation into one batch proof.
//!
//! The proofs here are lightweight chain-of-commitment placeholders: a
//! single-block proof spans one old-to-new commitment transition, and a
//! batch proof collapses a contiguous, chained run of them into one span
//! that the settlement layer can verify in a single step.

use vstd::prelude::*;
use crate::commitment::{BlockHash, Commitment};

verus! {

/// An error that occurs while generating proofs.
#[derive(Clone, Copy, Debug, PartialEq, Eq, Structural)]
pub enum ProofError {
    /// Adjacent proofs do not chain at `position`: that proof ends in
    /// `new_state` but the next one starts in `old_state`.
    OutOfOrder { position: usize, new_state: Commitment, old_state: Commitment },
}

/// A mock proof that `new_state` is the valid successor of `old_state` when
/// the block's namespace transactions are applied.
#[derive(Clone, Copy, Debug, PartialEq, Eq, Structural)]
pub struct Proof {
    pub block: BlockHash,
    pub old_state: Commitment,
    pub new_state: Commitment,
}

impl Proof {
    /// Build the proof for one executed block. The namespace-inclusion proof
    /// must have been verified against the block header first; without that
    /// the block's transaction set cannot be trusted and no proof exists.
    pub fn generate(
        block: BlockHash,
        old_state: Commitment,
        new_state: Commitment,
        inclusion_verified: bool,
    ) -> (r: Option<Proof>)
        ensures
            r == if inclusion_verified {
                Some(Proof { block, old_state, new_state })
            } else {
                None::<Proof>
            },
    {
        if inclusion_verified {
            Some(Proof { block, old_state, new_state })
        } else {
            None
        }
    }
}

/// Each proof in the run starts in the state the previous one ended in.
pub open spec fn spec_chained(s: Seq<Proof>) -> bool {
    forall|i: int| #![trigger s[i]] 0 <= i < s.len() - 1 ==> s[i].new_state == s[i + 1].old_state
}

/// `i` is the first position where the run fails to chain.
pub open spec fn spec_out_of_order_at(s: Seq<Proof>, i: int) -> bool {
    &&& 0 <= i < s.len() - 1
    &&& s[i].new_state != s[i + 1].old_state
    &&& forall|k: int| #![trigger s[k]] 0 <= k < i ==> s[k].new_state == s[k + 1].old_state
}

/// A mock proof aggregating a batch of proofs for a contiguous range of
/// blocks. It is consumed by submission to the settlement layer and not
/// persisted: the settlement layer's accepted commitment is the durable
/// checkpoint.
#[derive(Clone, Copy, Debug, PartialEq, Eq, Structural)]
pub struct BatchProof {
    pub first_block: BlockHash,
    pub last_block: BlockHash,
    pub old_state: Commitment,
    pub new_state: Commitment,
}

impl BatchProof {
    /// Aggregate a proof for each block of a consecutive chain, in order.
    /// Succeeds exactly when every adjacent pair chains, collapsing the run
    /// to its endpoints; otherwise reports the first violation.
    pub fn generate(proofs: &[Proof]) -> (r: Result<BatchProof, ProofError>)
        requires
            proofs@.len() >= 1,
        ensures
            match r {
                Ok(b) => spec_chained(proofs@) && b == BatchProof {
                    first_block: proofs@[0].block,
                    last_block: proofs@.last().block,
                    old_state: proofs@[0].old_state,
                    new_state: proofs@.last().new_state,
                },
                Err(e) => !spec_chained(proofs@) && (e matches ProofError::OutOfOrder {
                    position,
                    new_state,
                    old_state,
                } && spec_out_of_order_at(proofs@, position as int) && new_state == proofs@[
                    position as int
                ].new_state && old_state == proofs@[position as int + 1].old_state),
            },
    {
        let n = proofs.len();
        let mut i: usize = 0;
        while i < n - 1
            invariant
                n == proofs@.len(),
                n >= 1,
                i <= n - 1,
                forall|k: int| #![trigger proofs@[k]] 0 <= k < i ==> proofs@[k].new_state
                    == proofs@[k + 1].old_state,
            decreases n - 1 - i,
        {
            let here = proofs[i].new_state;
            let next = proofs[i + 1].old_state;
            if here != next {
                return Err(
                    ProofError::OutOfOrder { position: i, new_state: here, old_state: next },
                );
            }
            i += 1;
        }
        Ok(
            BatchProof {
                first_block: proofs[0].block,
                last_block: proofs[n - 1].block,
                old_state: proofs[0].old_state,
                new_state: proofs[n - 1].new_state,
            },
        )
    }
}

} // verus!
