use ethers_core::utils::hash_message;
use ethers_signers::{LocalWallet, Signer};
use example_l2::commitment::BlockHash;
use example_l2::executor::{
    BlockFetchResult, Executor, ExecutorAction, ExecutorEvent, SubmitOutcome,
};
use example_l2::settlement::ExampleRollup;
use example_l2::state::State;
use example_l2::transaction::{address_from_bytes, Address, SignedTransaction, Transaction};
use example_l2::RollupVM;
use rand::SeedableRng;
use rand_chacha::ChaChaRng;

fn to_address(h: ethers_core::types::H160) -> Address {
    address_from_bytes(&h.as_bytes().to_vec())
}

fn wallet(seed: u64) -> LocalWallet {
    LocalWallet::new(&mut ChaChaRng::seed_from_u64(seed))
}

fn signed_payload(amount: u64, destination: Address, nonce: u64, sender: &LocalWallet) -> Vec<u8> {
    let transaction = Transaction { amount, destination, nonce };
    let bytes = transaction.encode();
    let signature = sender.sign_hash(hash_message(&bytes)).unwrap().to_vec();
    SignedTransaction::new(transaction, signature).encode()
}

fn block(tag: u64) -> BlockHash {
    BlockHash { w0: tag, w1: tag, w2: tag, w3: tag }
}

fn header(height: u64) -> ExecutorEvent {
    ExecutorEvent::HeaderFetched {
        height,
        derived_hash: block(height),
        registry_hash: block(height),
    }
}

#[test]
fn batch_of_three_blocks_ends_in_ledger_commitment() {
    let alice = wallet(21);
    let bob = wallet(22);
    let alice_addr = to_address(alice.address());
    let bob_addr = to_address(bob.address());
    let ledger = State::from_initial_balances(vec![(alice_addr, 9999)], RollupVM::new(1));
    let genesis = ledger.commit();
    let light_client = Address { a0: 1, a1: 1, a2: 1 };
    let mut rollup = ExampleRollup::new(light_client, genesis);
    let mut executor = Executor::new(ledger);

    assert_eq!(
        executor.on_event(ExecutorEvent::NewRange { count: 3 }),
        ExecutorAction::FetchHeader
    );
    assert_eq!(executor.on_event(header(10)), ExecutorAction::FetchHeader);
    assert_eq!(executor.on_event(header(11)), ExecutorAction::FetchHeader);
    assert_eq!(
        executor.on_event(header(12)),
        ExecutorAction::FetchBlock { height: 10 }
    );

    // Only the second block carries a transaction for this namespace.
    let first = executor.on_event(ExecutorEvent::BlockFetched {
        result: BlockFetchResult::Verified { block_hash: block(10), payloads: vec![] },
    });
    assert_eq!(first, ExecutorAction::FetchBlock { height: 11 });
    let transfer = signed_payload(100, bob_addr, 1, &alice);
    let second = executor.on_event(ExecutorEvent::BlockFetched {
        result: BlockFetchResult::Verified { block_hash: block(11), payloads: vec![transfer] },
    });
    assert_eq!(second, ExecutorAction::FetchBlock { height: 12 });
    let third = executor.on_event(ExecutorEvent::BlockFetched {
        result: BlockFetchResult::Verified { block_hash: block(12), payloads: vec![] },
    });

    assert_eq!(executor.ledger.get_balance(&alice_addr), 9899);
    assert_eq!(executor.ledger.get_balance(&bob_addr), 100);

    let (count, commitment, proof) = match third {
        ExecutorAction::SubmitBatch { count, commitment, proof } => (count, commitment, proof),
        other => panic!("expected a submission, got {:?}", other),
    };
    assert_eq!(count, 3);
    // The aggregate proof ends in the ledger's commitment after block 3.
    assert_eq!(proof.new_state, executor.ledger.commit());
    assert_eq!(commitment, proof.new_state);
    assert_eq!(proof.old_state, genesis);
    assert_eq!(proof.first_block, block(10));
    assert_eq!(proof.last_block, block(12));

    // The settlement contract accepts the batch and checkpoints it.
    rollup
        .verify_blocks(count, commitment, &proof, 3)
        .expect("the batch is accepted");
    assert_eq!(rollup.state_commitment(), commitment);
    assert_eq!(rollup.num_verified_blocks(), 3);
    let events = rollup.events();
    assert_eq!(events.len(), 1);
    assert_eq!(events[0].block_height, 3);
    assert_eq!(events[0].state_commitment, commitment);

    assert_eq!(
        executor.on_event(ExecutorEvent::SubmissionResult { outcome: SubmitOutcome::Accepted }),
        ExecutorAction::AwaitEvent
    );
}

#[test]
fn skipped_blocks_leave_nothing_to_submit() {
    let alice = wallet(23);
    let alice_addr = to_address(alice.address());
    let ledger = State::from_initial_balances(vec![(alice_addr, 50)], RollupVM::new(1));
    let before = ledger.commit();
    let mut executor = Executor::new(ledger);

    executor.on_event(ExecutorEvent::NewRange { count: 2 });
    executor.on_event(header(5));
    executor.on_event(header(6));
    let first = executor.on_event(ExecutorEvent::BlockFetched {
        result: BlockFetchResult::Missing,
    });
    assert_eq!(first, ExecutorAction::FetchBlock { height: 6 });
    let second = executor.on_event(ExecutorEvent::BlockFetched {
        result: BlockFetchResult::Missing,
    });
    assert_eq!(second, ExecutorAction::AwaitEvent);
    assert_eq!(executor.ledger.commit(), before);
}

#[test]
fn registry_mismatch_is_fatal() {
    let ledger = State::from_initial_balances(vec![], RollupVM::new(1));
    let mut executor = Executor::new(ledger);
    executor.on_event(ExecutorEvent::NewRange { count: 1 });
    let action = executor.on_event(ExecutorEvent::HeaderFetched {
        height: 4,
        derived_hash: block(4),
        registry_hash: block(99),
    });
    assert_eq!(action, ExecutorAction::Halt);
}

#[test]
fn failed_inclusion_verification_is_fatal() {
    let ledger = State::from_initial_balances(vec![], RollupVM::new(1));
    let mut executor = Executor::new(ledger);
    executor.on_event(ExecutorEvent::NewRange { count: 1 });
    executor.on_event(header(4));
    let action = executor.on_event(ExecutorEvent::BlockFetched {
        result: BlockFetchResult::VerificationFailed,
    });
    assert_eq!(action, ExecutorAction::Halt);
}

#[test]
fn header_stream_failure_is_fatal() {
    let ledger = State::from_initial_balances(vec![], RollupVM::new(1));
    let mut executor = Executor::new(ledger);
    executor.on_event(ExecutorEvent::NewRange { count: 2 });
    assert_eq!(
        executor.on_event(ExecutorEvent::HeaderStreamFailed),
        ExecutorAction::Halt
    );
}

#[test]
fn empty_range_returns_to_waiting() {
    let ledger = State::from_initial_balances(vec![], RollupVM::new(1));
    let mut executor = Executor::new(ledger);
    assert_eq!(
        executor.on_event(ExecutorEvent::NewRange { count: 0 }),
        ExecutorAction::AwaitEvent
    );
}

#[test]
fn transient_submission_failure_retries_identically() {
    let alice = wallet(24);
    let alice_addr = to_address(alice.address());
    let ledger = State::from_initial_balances(vec![(alice_addr, 10)], RollupVM::new(1));
    let mut executor = Executor::new(ledger);
    executor.on_event(ExecutorEvent::NewRange { count: 1 });
    executor.on_event(header(3));
    let submit = executor.on_event(ExecutorEvent::BlockFetched {
        result: BlockFetchResult::Verified { block_hash: block(3), payloads: vec![] },
    });
    let (count, commitment, proof) = match submit {
        ExecutorAction::SubmitBatch { count, commitment, proof } => (count, commitment, proof),
        other => panic!("expected a submission, got {:?}", other),
    };
    let retry = executor.on_event(ExecutorEvent::SubmissionResult {
        outcome: SubmitOutcome::TransientFailure,
    });
    assert_eq!(retry, ExecutorAction::RetryAfterBackoff { count, commitment, proof });
    // A stale rejection abandons the batch instead of looping forever.
    let after_stale = executor.on_event(ExecutorEvent::SubmissionResult {
        outcome: SubmitOutcome::StaleRejected,
    });
    assert_eq!(after_stale, ExecutorAction::AwaitEvent);
}
