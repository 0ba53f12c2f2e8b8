//! A verified model of the settlement-layer rollup contract.
//!
//! The on-chain contract holds the last accepted state commitment and the
//! number of verified blocks, accepts batch proofs through `verify_blocks`,
//! and emits a state-update event for each accepted batch. Modelling it
//! here lets the executor's submissions be checked against the exact
//! acceptance rule the settlement layer applies.

use vstd::prelude::*;
use crate::commitment::Commitment;
use crate::prover::BatchProof;
use crate::transaction::Address;

verus! {

/// Revert: the submitted proof does not end in the commitment the caller
/// claims as the next state.
#[derive(Clone, Copy, Debug, PartialEq, Eq, Structural)]
pub struct InvalidProof;

/// Revert: a batch must cover at least one block.
#[derive(Clone, Copy, Debug, PartialEq, Eq, Structural)]
pub struct NoBlocks;

/// Revert: the claimed blocks run past what the light client has finalized.
#[derive(Clone, Copy, Debug, PartialEq, Eq, Structural)]
pub struct NotYetSequenced {
    pub num_verified_blocks: u64,
    pub count: u64,
    pub block_height: u64,
}

/// Every way a settlement call can fail: one of the contract's typed
/// reverts, or an unrecognized revert carried as its raw string.
#[derive(Clone, Debug)]
pub enum ExampleRollupErrors {
    InvalidProof(InvalidProof),
    NoBlocks(NoBlocks),
    NotYetSequenced(NotYetSequenced),
    RevertString(String),
}

/// The state-update event the contract emits for each accepted batch.
#[derive(Clone, Copy, Debug, PartialEq, Eq, Structural)]
pub struct StateUpdateFilter {
    pub block_height: u64,
    pub state_commitment: Commitment,
}

/// The call data of the contract's read of its light-client address.
#[derive(Clone, Copy, Debug, PartialEq, Eq, Structural)]
pub struct LightClientCall;

/// The call data of the read of the verified-block count.
#[derive(Clone, Copy, Debug, PartialEq, Eq, Structural)]
pub struct NumVerifiedBlocksCall;

/// The call data of the read of the accepted state commitment.
#[derive(Clone, Copy, Debug, PartialEq, Eq, Structural)]
pub struct StateCommitmentCall;

/// The call data of a batch submission.
#[derive(Clone, Copy, Debug, PartialEq, Eq, Structural)]
pub struct VerifyBlocksCall {
    pub count: u64,
    pub next_state_commitment: Commitment,
    pub proof: BatchProof,
}

/// Container for every call the contract accepts.
#[derive(Clone, Copy, Debug, PartialEq, Eq, Structural)]
pub enum ExampleRollupCalls {
    LightClient(LightClientCall),
    NumVerifiedBlocks(NumVerifiedBlocksCall),
    StateCommitment(StateCommitmentCall),
    VerifyBlocks(VerifyBlocksCall),
}

/// The return value of the light-client read.
#[derive(Clone, Copy, Debug, PartialEq, Eq, Structural)]
pub struct LightClientReturn(pub Address);

/// The return value of the verified-block-count read.
#[derive(Clone, Copy, Debug, PartialEq, Eq, Structural)]
pub struct NumVerifiedBlocksReturn(pub u64);

/// The return value of the state-commitment read.
#[derive(Clone, Copy, Debug, PartialEq, Eq, Structural)]
pub struct StateCommitmentReturn(pub Commitment);

/// The settlement contract's state: the light client it trusts for
/// finality, the last accepted commitment, how many blocks it has verified,
/// and the events it has emitted.
pub struct ExampleRollup {
    light_client: Address,
    state_commitment: Commitment,
    num_verified_blocks: u64,
    events: Vec<StateUpdateFilter>,
}

impl ExampleRollup {
    /// The address of the light client the contract reads finality from.
    pub closed spec fn spec_light_client(self) -> Address {
        self.light_client
    }

    /// The last accepted state commitment: the durable checkpoint.
    pub closed spec fn spec_state_commitment(self) -> Commitment {
        self.state_commitment
    }

    /// How many blocks the contract has verified so far.
    pub closed spec fn spec_num_verified_blocks(self) -> u64 {
        self.num_verified_blocks
    }

    /// Every state-update event emitted so far, in order.
    pub closed spec fn spec_events(self) -> Seq<StateUpdateFilter> {
        self.events@
    }

    /// Deploy the contract over a light client, anchored at the genesis
    /// commitment, with no blocks verified and no events yet.
    pub fn new(light_client: Address, initial_state: Commitment) -> (r: Self)
        ensures
            r.spec_light_client() == light_client,
            r.spec_state_commitment() == initial_state,
            r.spec_num_verified_blocks() == 0,
            r.spec_events() == Seq::<StateUpdateFilter>::empty(),
    {
        ExampleRollup {
            light_client,
            state_commitment: initial_state,
            num_verified_blocks: 0,
            events: Vec::new(),
        }
    }

    /// Read the light-client address.
    pub fn light_client(&self) -> (r: Address)
        ensures
            r == self.spec_light_client(),
    {
        self.light_client
    }

    /// Read the verified-block count.
    pub fn num_verified_blocks(&self) -> (r: u64)
        ensures
            r == self.spec_num_verified_blocks(),
    {
        self.num_verified_blocks
    }

    /// Read the last accepted state commitment.
    pub fn state_commitment(&self) -> (r: Commitment)
        ensures
            r == self.spec_state_commitment(),
    {
        self.state_commitment
    }

    /// Submit a batch proof for `count` blocks, against the block height
    /// the light client has finalized. Rejected with `NoBlocks` when the
    /// batch is empty, `InvalidProof` when the claimed next commitment is
    /// not the proof's end state, and `NotYetSequenced` when the count runs
    /// past finality; a rejection changes nothing. On acceptance the
    /// verified-block count grows by `count`, the claimed commitment
    /// becomes the accepted state, and a state update is emitted.
    pub fn verify_blocks(
        &mut self,
        count: u64,
        next_state_commitment: Commitment,
        proof: &BatchProof,
        finalized_block_height: u64,
    ) -> (r: Result<(), ExampleRollupErrors>)
        ensures
            final(self).spec_light_client() == old(self).spec_light_client(),
            match r {
                Err(e) => {
                    &&& final(self).spec_state_commitment() == old(self).spec_state_commitment()
                    &&& final(self).spec_num_verified_blocks() == old(
                        self,
                    ).spec_num_verified_blocks()
                    &&& final(self).spec_events() == old(self).spec_events()
                    &&& if count == 0 {
                        e matches ExampleRollupErrors::NoBlocks(NoBlocks)
                    } else if next_state_commitment != proof.new_state {
                        e matches ExampleRollupErrors::InvalidProof(InvalidProof)
                    } else {
                        &&& old(self).spec_num_verified_blocks() + count > finalized_block_height
                        &&& e matches ExampleRollupErrors::NotYetSequenced(n) && n
                            == (NotYetSequenced {
                            num_verified_blocks: old(self).spec_num_verified_blocks(),
                            count,
                            block_height: finalized_block_height,
                        })
                    }
                },
                Ok(()) => {
                    &&& count >= 1
                    &&& next_state_commitment == proof.new_state
                    &&& old(self).spec_num_verified_blocks() + count <= finalized_block_height
                    &&& final(self).spec_num_verified_blocks() == old(
                        self,
                    ).spec_num_verified_blocks() + count
                    &&& final(self).spec_state_commitment() == next_state_commitment
                    &&& final(self).spec_events() == old(self).spec_events().push(
                        StateUpdateFilter {
                            block_height: final(self).spec_num_verified_blocks(),
                            state_commitment: next_state_commitment,
                        },
                    )
                },
            },
    {
        if count == 0 {
            return Err(ExampleRollupErrors::NoBlocks(NoBlocks));
        }
        if next_state_commitment != proof.new_state {
            return Err(ExampleRollupErrors::InvalidProof(InvalidProof));
        }
        let beyond_finality = if count > finalized_block_height {
            true
        } else {
            self.num_verified_blocks > finalized_block_height - count
        };
        if beyond_finality {
            return Err(
                ExampleRollupErrors::NotYetSequenced(
                    NotYetSequenced {
                        num_verified_blocks: self.num_verified_blocks,
                        count,
                        block_height: finalized_block_height,
                    },
                ),
            );
        }
        self.num_verified_blocks = self.num_verified_blocks + count;
        self.state_commitment = next_state_commitment;
        self.events.push(
            StateUpdateFilter {
                block_height: self.num_verified_blocks,
                state_commitment: next_state_commitment,
            },
        );
        Ok(())
    }

    /// The state-update events emitted so far, oldest first.
    pub fn state_update_filter(&self) -> (r: Vec<StateUpdateFilter>)
        ensures
            r@ == self.spec_events(),
    {
        let mut out: Vec<StateUpdateFilter> = Vec::new();
        let mut i: usize = 0;
        while i < self.events.len()
            invariant
                i <= self.events@.len(),
                out@ == self.events@.take(i as int),
            decreases self.events@.len() - i,
        {
            out.push(self.events[i]);
            proof {
                assert(out@ =~= self.events@.take(i as int + 1));
            }
            i += 1;
        }
        proof {
            assert(self.events@.take(self.events@.len() as int) =~= self.events@);
        }
        out
    }

    /// All events of the contract; the state update is its only event.
    pub fn events(&self) -> (r: Vec<StateUpdateFilter>)
        ensures
            r@ == self.spec_events(),
    {
        self.state_update_filter()
    }
}

} // verus!
