//! The executor control loop as an explicit state machine.
//!
//! The executor owns the ledger and drives it from outside events: a new
//! block-range notification from the settlement layer, fetched headers,
//! fetched per-block namespace data, and submission outcomes. Each call to
//! [`Executor::on_event`] consumes one event, advances the machine, and
//! answers with the single outside action the caller must perform next.
//! All decisions are made here; the caller only performs the returned
//! action and hands back what came of it.

use vstd::prelude::*;
use crate::commitment::{BlockHash, Commitment};
use crate::prover::{spec_chained, BatchProof, Proof};
use crate::state::{spec_apply_payloads, spec_state_eq, State};

verus! {

/// Where the executor stands in its cycle. There is no terminal state other
/// than [`ExecutorPhase::Halted`], which is reached only on a
/// consensus-safety violation.
pub enum ExecutorPhase {
    /// Waiting for the next new-range notification.
    WaitingForEvent,
    /// Pulling `remaining` more consecutive headers; `heights` holds the
    /// heights fetched so far, in order.
    FetchingHeaders { remaining: u64, heights: Vec<u64> },
    /// Executing the fetched blocks one by one; `next` indexes the block
    /// whose data is being fetched.
    ApplyingBlocks { heights: Vec<u64>, next: usize },
    /// Submitting the aggregate proof, retrying until it is accepted or
    /// rejected as stale.
    SubmittingProof { count: u64, commitment: Commitment, proof: BatchProof },
    /// A fatal error: continuing would mean executing unverified data.
    Halted,
}

/// What a per-block namespace query came to.
pub enum BlockFetchResult {
    /// The namespace-inclusion proof was present and verified against the
    /// header; these are exactly the namespace's payloads for the block.
    Verified { block_hash: BlockHash, payloads: Vec<Vec<u8>> },
    /// The query failed or returned no proof: the block is treated as
    /// holding no transactions for this namespace and skipped. A transient
    /// query failure is indistinguishable from a genuinely empty block
    /// here; a caller that can tell them apart should retry the query
    /// before reporting the block missing.
    Missing,
    /// The inclusion proof failed to verify: fatal, the block's contents
    /// cannot be trusted.
    VerificationFailed,
}

/// How the settlement layer answered a submission.
pub enum SubmitOutcome {
    /// The batch was accepted; its commitment is now the durable checkpoint.
    Accepted,
    /// A transient failure: the identical submission is retried after a
    /// backoff.
    TransientFailure,
    /// The contract rejected a stale submission after a competing one
    /// succeeded; the batch is abandoned.
    StaleRejected,
}

/// One event handed to the executor.
pub enum ExecutorEvent {
    /// The settlement layer announced `count` newly sequenced blocks.
    NewRange { count: u64 },
    /// One header arrived: its height, the block hash re-derived from the
    /// header, and the hash the on-chain registry holds for it.
    HeaderFetched { height: u64, derived_hash: BlockHash, registry_hash: BlockHash },
    /// The header stream ended or failed mid-fetch: fatal, the stream is
    /// expected to be gap-free and ordered.
    HeaderStreamFailed,
    /// The namespace data for the block currently being applied.
    BlockFetched { result: BlockFetchResult },
    /// The outcome of the submission currently in flight.
    SubmissionResult { outcome: SubmitOutcome },
}

/// The single outside action the caller must perform next.
#[derive(Clone, Copy, Debug, PartialEq, Eq, Structural)]
pub enum ExecutorAction {
    /// Wait for the next new-range notification.
    AwaitEvent,
    /// Pull the next header from the header stream.
    FetchHeader,
    /// Fetch the namespace proof and block data for this height.
    FetchBlock { height: u64 },
    /// Submit the batch proof to the settlement layer.
    SubmitBatch { count: u64, commitment: Commitment, proof: BatchProof },
    /// Wait out the backoff interval, then submit the same batch again.
    RetryAfterBackoff { count: u64, commitment: Commitment, proof: BatchProof },
    /// Stop: a consensus-safety violation was detected.
    Halt,
}

/// The executor: the sole writer of its ledger, processing blocks strictly
/// in sequence because each block's proof starts in the commitment the
/// previous one ended in.
pub struct Executor {
    pub ledger: State,
    phase: ExecutorPhase,
    proofs: Vec<Proof>,
}

/// Two phases agree, comparing held sequences by their contents.
pub open spec fn spec_phase_eq(a: ExecutorPhase, b: ExecutorPhase) -> bool {
    match (a, b) {
        (ExecutorPhase::WaitingForEvent, ExecutorPhase::WaitingForEvent) => true,
        (
            ExecutorPhase::FetchingHeaders { remaining: r1, heights: h1 },
            ExecutorPhase::FetchingHeaders { remaining: r2, heights: h2 },
        ) => r1 == r2 && h1@ == h2@,
        (
            ExecutorPhase::ApplyingBlocks { heights: h1, next: n1 },
            ExecutorPhase::ApplyingBlocks { heights: h2, next: n2 },
        ) => h1@ == h2@ && n1 == n2,
        (
            ExecutorPhase::SubmittingProof { count: c1, commitment: m1, proof: p1 },
            ExecutorPhase::SubmittingProof { count: c2, commitment: m2, proof: p2 },
        ) => c1 == c2 && m1 == m2 && p1 == p2,
        (ExecutorPhase::Halted, ExecutorPhase::Halted) => true,
        _ => false,
    }
}

impl Executor {
    /// The ledger the executor owns.
    pub closed spec fn spec_ledger(self) -> State {
        self.ledger
    }

    /// The current phase.
    pub closed spec fn spec_phase(self) -> ExecutorPhase {
        self.phase
    }

    /// The single-block proofs collected for the batch in flight.
    pub closed spec fn spec_proofs(self) -> Seq<Proof> {
        self.proofs@
    }

    /// The executor's invariant. The collected proofs always chain, and the
    /// last one ends in the ledger's current commitment, so aggregation can
    /// never fail; a batch being submitted spans exactly the collected run
    /// and ends in the ledger's commitment.
    pub open spec fn inv(self) -> bool {
        &&& self.spec_ledger().wf()
        &&& spec_chained(self.spec_proofs())
        &&& self.spec_proofs().len() > 0 ==> self.spec_proofs().last().new_state
            == self.spec_ledger().spec_commit()
        &&& match self.spec_phase() {
            ExecutorPhase::WaitingForEvent => self.spec_proofs().len() == 0,
            ExecutorPhase::FetchingHeaders { remaining, heights } => self.spec_proofs().len() == 0
                && remaining >= 1,
            ExecutorPhase::ApplyingBlocks { heights, next } => next < heights@.len(),
            ExecutorPhase::SubmittingProof { count, commitment, proof } => {
                &&& self.spec_proofs().len() >= 1
                &&& proof.first_block == self.spec_proofs()[0].block
                &&& proof.last_block == self.spec_proofs().last().block
                &&& proof.old_state == self.spec_proofs()[0].old_state
                &&& proof.new_state == self.spec_proofs().last().new_state
                &&& commitment == proof.new_state
                &&& proof.new_state == self.spec_ledger().spec_commit()
                &&& count >= 1
            },
            ExecutorPhase::Halted => true,
        }
    }

    /// Start the executor over a ledger, waiting for the first event.
    pub fn new(ledger: State) -> (r: Executor)
        requires
            ledger.wf(),
        ensures
            r.inv(),
            r.spec_phase() is WaitingForEvent,
            spec_state_eq(r.spec_ledger(), ledger),
    {
        Executor { ledger, phase: ExecutorPhase::WaitingForEvent, proofs: Vec::new() }
    }

    /// Feed one event to the machine; it advances and answers with the one
    /// action to perform next. The exact transition is
    /// [`spec_transition`]; an event that does not belong to the current
    /// phase is ignored.
    pub fn on_event(&mut self, event: ExecutorEvent) -> (action: ExecutorAction)
        requires
            old(self).inv(),
        ensures
            final(self).inv(),
            spec_transition(*old(self), event, *final(self), action),
    {
        let mut ph = ExecutorPhase::Halted;
        core::mem::swap(&mut ph, &mut self.phase);
        match (ph, event) {
            (ExecutorPhase::WaitingForEvent, ExecutorEvent::NewRange { count }) => {
                if count == 0 {
                    self.phase = ExecutorPhase::WaitingForEvent;
                    ExecutorAction::AwaitEvent
                } else {
                    self.phase = ExecutorPhase::FetchingHeaders {
                        remaining: count,
                        heights: Vec::new(),
                    };
                    ExecutorAction::FetchHeader
                }
            },
            (
                ExecutorPhase::FetchingHeaders { remaining, heights },
                ExecutorEvent::HeaderFetched { height, derived_hash, registry_hash },
            ) => {
                if derived_hash != registry_hash {
                    self.phase = ExecutorPhase::Halted;
                    ExecutorAction::Halt
                } else {
                    let mut heights = heights;
                    heights.push(height);
                    if remaining == 1 {
                        let first = heights[0];
                        self.phase = ExecutorPhase::ApplyingBlocks { heights, next: 0 };
                        ExecutorAction::FetchBlock { height: first }
                    } else {
                        self.phase = ExecutorPhase::FetchingHeaders {
                            remaining: remaining - 1,
                            heights,
                        };
                        ExecutorAction::FetchHeader
                    }
                }
            },
            (ExecutorPhase::FetchingHeaders { .. }, ExecutorEvent::HeaderStreamFailed) => {
                self.phase = ExecutorPhase::Halted;
                ExecutorAction::Halt
            },
            (
                ExecutorPhase::ApplyingBlocks { heights, next },
                ExecutorEvent::BlockFetched { result },
            ) => {
                match result {
                    BlockFetchResult::VerificationFailed => {
                        self.phase = ExecutorPhase::Halted;
                        ExecutorAction::Halt
                    },
                    BlockFetchResult::Missing => self.advance(heights, next),
                    BlockFetchResult::Verified { block_hash, payloads } => {
                        let ghost pre_proofs = self.proofs@;
                        let ghost pre_commit = self.ledger.spec_commit();
                        let proof_opt = self.ledger.execute_block(&payloads, block_hash, true);
                        match proof_opt {
                            Some(p) => {
                                self.proofs.push(p);
                                proof {
                                    let s2 = self.proofs@;
                                    assert forall|i: int| 0 <= i < s2.len() - 1 implies (
                                    #[trigger] s2[i]).new_state == s2[i + 1].old_state by {
                                        if i < s2.len() - 2 {
                                            assert(s2[i] == pre_proofs[i]);
                                            assert(s2[i + 1] == pre_proofs[i + 1]);
                                        } else {
                                            assert(s2[i] == pre_proofs.last());
                                            assert(s2[i + 1] == p);
                                        }
                                    }
                                }
                                self.advance(heights, next)
                            },
                            None => {
                                // Unreachable: the inclusion proof was verified.
                                self.phase = ExecutorPhase::Halted;
                                ExecutorAction::Halt
                            },
                        }
                    },
                }
            },
            (
                ExecutorPhase::SubmittingProof { count, commitment, proof },
                ExecutorEvent::SubmissionResult { outcome },
            ) => {
                match outcome {
                    SubmitOutcome::Accepted => {
                        self.proofs.clear();
                        self.phase = ExecutorPhase::WaitingForEvent;
                        ExecutorAction::AwaitEvent
                    },
                    SubmitOutcome::StaleRejected => {
                        self.proofs.clear();
                        self.phase = ExecutorPhase::WaitingForEvent;
                        ExecutorAction::AwaitEvent
                    },
                    SubmitOutcome::TransientFailure => {
                        self.phase = ExecutorPhase::SubmittingProof { count, commitment, proof };
                        ExecutorAction::RetryAfterBackoff { count, commitment, proof }
                    },
                }
            },
            (other, _) => {
                self.phase = other;
                ExecutorAction::AwaitEvent
            },
        }
    }

    /// Move past the block just handled: fetch the next block's data, or,
    /// at the end of the range, aggregate and submit what was collected,
    /// or return to waiting when every block was skipped.
    fn advance(&mut self, heights: Vec<u64>, next: usize) -> (action: ExecutorAction)
        requires
            old(self).inv(),
            next < heights@.len(),
        ensures
            final(self).inv(),
            spec_state_eq(final(self).spec_ledger(), old(self).spec_ledger()),
            final(self).spec_proofs() == old(self).spec_proofs(),
            spec_advanced(heights@, next as int, *final(self), action),
    {
        let n = heights.len();
        if next < n - 1 {
            let following = heights[next + 1];
            self.phase = ExecutorPhase::ApplyingBlocks { heights, next: next + 1 };
            ExecutorAction::FetchBlock { height: following }
        } else if self.proofs.len() == 0 {
            self.phase = ExecutorPhase::WaitingForEvent;
            ExecutorAction::AwaitEvent
        } else {
            match BatchProof::generate(self.proofs.as_slice()) {
                Ok(batch) => {
                    let commitment = self.ledger.commit();
                    let count = heights.len() as u64;
                    self.phase = ExecutorPhase::SubmittingProof {
                        count,
                        commitment,
                        proof: batch,
                    };
                    ExecutorAction::SubmitBatch { count, commitment, proof: batch }
                },
                Err(_) => {
                    // Unreachable: the collected proofs always chain.
                    proof {
                        assert(false);
                    }
                    self.phase = ExecutorPhase::Halted;
                    ExecutorAction::Halt
                },
            }
        }
    }
}

/// Whatever run of events led here, a batch the executor is submitting
/// spans the collected proofs and ends in its ledger's current commitment:
/// the settlement layer is only ever offered the commitment the ledger is
/// actually at.
pub proof fn lemma_submitted_batch_matches_ledger(e: Executor)
    requires
        e.inv(),
        e.spec_phase() matches ExecutorPhase::SubmittingProof { .. },
    ensures
        e.spec_phase() matches ExecutorPhase::SubmittingProof { count, commitment, proof } && proof.new_state
            == e.spec_ledger().spec_commit() && commitment == proof.new_state && proof.old_state
            == e.spec_proofs()[0].old_state,
{
}

/// Where the machine goes after finishing one block of the range it is
/// applying: on to the next block; back to waiting when the whole range
/// yielded no proofs; or into submission of the aggregated batch.
pub open spec fn spec_advanced(
    heights: Seq<u64>,
    next: int,
    post: Executor,
    action: ExecutorAction,
) -> bool {
    if next + 1 < heights.len() {
        &&& post.spec_phase() matches ExecutorPhase::ApplyingBlocks { heights: h2, next: n2 }
            && h2@ == heights && n2 == next + 1
        &&& action == ExecutorAction::FetchBlock { height: heights[next + 1] }
    } else if post.spec_proofs().len() == 0 {
        &&& post.spec_phase() is WaitingForEvent
        &&& action == ExecutorAction::AwaitEvent
    } else {
        &&& post.spec_phase() matches ExecutorPhase::SubmittingProof { count, commitment, proof }
            && count == heights.len() as u64 && commitment == post.spec_ledger().spec_commit() && proof
            == BatchProof {
            first_block: post.spec_proofs()[0].block,
            last_block: post.spec_proofs().last().block,
            old_state: post.spec_proofs()[0].old_state,
            new_state: post.spec_proofs().last().new_state,
        } && action == ExecutorAction::SubmitBatch { count, commitment, proof }
    }
}

/// The executor's exact transition relation: what one event does to the
/// phase, the ledger, the collected proofs, and which action is answered.
pub open spec fn spec_transition(
    pre: Executor,
    event: ExecutorEvent,
    post: Executor,
    action: ExecutorAction,
) -> bool {
    match (pre.spec_phase(), event) {
        (ExecutorPhase::WaitingForEvent, ExecutorEvent::NewRange { count }) => {
            &&& spec_state_eq(post.spec_ledger(), pre.spec_ledger())
            &&& post.spec_proofs() == pre.spec_proofs()
            &&& if count == 0 {
                post.spec_phase() is WaitingForEvent && action == ExecutorAction::AwaitEvent
            } else {
                post.spec_phase() matches ExecutorPhase::FetchingHeaders { remaining, heights }
                    && remaining == count && heights@ == Seq::<u64>::empty() && action
                    == ExecutorAction::FetchHeader
            }
        },
        (
            ExecutorPhase::FetchingHeaders { remaining, heights },
            ExecutorEvent::HeaderFetched { height, derived_hash, registry_hash },
        ) => {
            &&& spec_state_eq(post.spec_ledger(), pre.spec_ledger())
            &&& post.spec_proofs() == pre.spec_proofs()
            &&& if derived_hash != registry_hash {
                post.spec_phase() is Halted && action == ExecutorAction::Halt
            } else if remaining == 1 {
                post.spec_phase() matches ExecutorPhase::ApplyingBlocks { heights: h2, next }
                    && h2@ == heights@.push(height) && next == 0 && action
                    == ExecutorAction::FetchBlock { height: heights@.push(height)[0] }
            } else {
                post.spec_phase() matches ExecutorPhase::FetchingHeaders {
                    remaining: r2,
                    heights: h2,
                } && r2 == remaining - 1 && h2@ == heights@.push(height) && action
                    == ExecutorAction::FetchHeader
            }
        },
        (ExecutorPhase::FetchingHeaders { .. }, ExecutorEvent::HeaderStreamFailed) => {
            &&& spec_state_eq(post.spec_ledger(), pre.spec_ledger())
            &&& post.spec_proofs() == pre.spec_proofs()
            &&& post.spec_phase() is Halted
            &&& action == ExecutorAction::Halt
        },
        (
            ExecutorPhase::ApplyingBlocks { heights, next },
            ExecutorEvent::BlockFetched { result },
        ) => {
            match result {
                BlockFetchResult::VerificationFailed => {
                    &&& spec_state_eq(post.spec_ledger(), pre.spec_ledger())
                    &&& post.spec_proofs() == pre.spec_proofs()
                    &&& post.spec_phase() is Halted
                    &&& action == ExecutorAction::Halt
                },
                BlockFetchResult::Missing => {
                    &&& spec_state_eq(post.spec_ledger(), pre.spec_ledger())
                    &&& post.spec_proofs() == pre.spec_proofs()
                    &&& spec_advanced(heights@, next as int, post, action)
                },
                BlockFetchResult::Verified { block_hash, payloads } => {
                    &&& post.spec_ledger().spec_accounts() == spec_apply_payloads(
                        pre.spec_ledger().spec_accounts(),
                        payloads.deep_view(),
                    )
                    &&& post.spec_ledger().spec_block_hash() == Some(block_hash)
                    &&& post.spec_ledger().spec_prev_commitment() == Some(pre.spec_ledger().spec_commit())
                    &&& post.spec_ledger().spec_vm() == pre.spec_ledger().spec_vm()
                    &&& post.spec_proofs() == pre.spec_proofs().push(
                        Proof {
                            block: block_hash,
                            old_state: pre.spec_ledger().spec_commit(),
                            new_state: post.spec_ledger().spec_commit(),
                        },
                    )
                    &&& spec_advanced(heights@, next as int, post, action)
                },
            }
        },
        (
            ExecutorPhase::SubmittingProof { count, commitment, proof },
            ExecutorEvent::SubmissionResult { outcome },
        ) => {
            &&& spec_state_eq(post.spec_ledger(), pre.spec_ledger())
            &&& match outcome {
                SubmitOutcome::Accepted => {
                    &&& post.spec_proofs() == Seq::<Proof>::empty()
                    &&& post.spec_phase() is WaitingForEvent
                    &&& action == ExecutorAction::AwaitEvent
                },
                SubmitOutcome::StaleRejected => {
                    &&& post.spec_proofs() == Seq::<Proof>::empty()
                    &&& post.spec_phase() is WaitingForEvent
                    &&& action == ExecutorAction::AwaitEvent
                },
                SubmitOutcome::TransientFailure => {
                    &&& post.spec_proofs() == pre.spec_proofs()
                    &&& spec_phase_eq(
                        post.spec_phase(),
                        ExecutorPhase::SubmittingProof { count, commitment, proof },
                    )
                    &&& action == ExecutorAction::RetryAfterBackoff { count, commitment, proof }
                },
            }
        },
        _ => {
            &&& spec_state_eq(post.spec_ledger(), pre.spec_ledger())
            &&& post.spec_proofs() == pre.spec_proofs()
            &&& spec_phase_eq(post.spec_phase(), pre.spec_phase())
            &&& action == ExecutorAction::AwaitEvent
        },
    }
}

} // verus!
