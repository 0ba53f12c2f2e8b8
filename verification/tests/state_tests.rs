use ethers_core::utils::hash_message;
use ethers_signers::{LocalWallet, Signer};
use example_l2::error::RollupError;
use example_l2::state::State;
use example_l2::transaction::{address_from_bytes, Address, SignedTransaction, Transaction};
use example_l2::RollupVM;
use rand::SeedableRng;
use rand_chacha::ChaChaRng;

fn to_address(h: ethers_core::types::H160) -> Address {
    address_from_bytes(&h.as_bytes().to_vec())
}

fn wallet(seed: u64) -> LocalWallet {
    LocalWallet::new(&mut ChaChaRng::seed_from_u64(seed))
}

fn signed_payload(amount: u64, destination: Address, nonce: u64, sender: &LocalWallet) -> Vec<u8> {
    let transaction = Transaction { amount, destination, nonce };
    let bytes = transaction.encode();
    let signature = sender.sign_hash(hash_message(&bytes)).unwrap().to_vec();
    SignedTransaction::new(transaction, signature).encode()
}

#[test]
fn replay_is_rejected_with_invalid_nonce() {
    let alice = wallet(1);
    let bob = wallet(2);
    let alice_addr = to_address(alice.address());
    let bob_addr = to_address(bob.address());
    let mut state = State::from_initial_balances(vec![(alice_addr, 9999)], RollupVM::new(1));

    let payload = signed_payload(100, bob_addr, 1, &alice);
    state
        .apply_transaction(payload.as_slice())
        .expect("valid transfer applies");
    assert_eq!(state.get_balance(&alice_addr), 9899);
    assert_eq!(state.get_balance(&bob_addr), 100);

    let err = state
        .apply_transaction(payload.as_slice())
        .expect_err("replay must fail");
    assert_eq!(
        err,
        RollupError::InvalidNonce { address: alice_addr, expected: 2, actual: 1 }
    );
    assert_eq!(state.get_balance(&alice_addr), 9899);
    assert_eq!(state.get_balance(&bob_addr), 100);
}

#[test]
fn overspend_is_rejected_without_side_effects() {
    let alice = wallet(3);
    let bob = wallet(4);
    let alice_addr = to_address(alice.address());
    let bob_addr = to_address(bob.address());
    let mut state = State::from_initial_balances(vec![(alice_addr, 100)], RollupVM::new(1));

    let payload = signed_payload(150, bob_addr, 1, &alice);
    let err = state
        .apply_transaction(payload.as_slice())
        .expect_err("overspend must fail");
    assert_eq!(err, RollupError::InsufficientBalance { address: alice_addr });
    assert_eq!(state.get_balance(&alice_addr), 100);
    assert_eq!(state.get_balance(&bob_addr), 0);
    assert_eq!(state.get_nonce(&alice_addr), 0);
}

#[test]
fn unknown_sender_is_rejected() {
    let alice = wallet(5);
    let bob = wallet(6);
    let alice_addr = to_address(alice.address());
    let bob_addr = to_address(bob.address());
    let mut state = State::from_initial_balances(vec![(bob_addr, 100)], RollupVM::new(1));

    let payload = signed_payload(10, bob_addr, 1, &alice);
    let err = state.apply_transaction(payload.as_slice()).unwrap_err();
    assert_eq!(err, RollupError::InsufficientBalance { address: alice_addr });
}

#[test]
fn malformed_payload_is_rejected() {
    let alice = wallet(7);
    let alice_addr = to_address(alice.address());
    let mut state = State::from_initial_balances(vec![(alice_addr, 100)], RollupVM::new(1));

    let err = state.apply_transaction(&[1, 2, 3]).unwrap_err();
    assert_eq!(err, RollupError::InvalidTransaction);
    assert_eq!(state.get_balance(&alice_addr), 100);
}

#[test]
fn zeroed_signature_is_rejected() {
    let alice = wallet(8);
    let bob = wallet(9);
    let alice_addr = to_address(alice.address());
    let bob_addr = to_address(bob.address());
    let mut state = State::from_initial_balances(vec![(alice_addr, 100)], RollupVM::new(1));

    let transaction = Transaction { amount: 10, destination: bob_addr, nonce: 1 };
    let signed = SignedTransaction::new(transaction, vec![0u8; 65]);
    let err = state.apply_transaction(signed.encode().as_slice()).unwrap_err();
    assert_eq!(err, RollupError::SignatureError);
    assert_eq!(state.get_balance(&alice_addr), 100);
}

#[test]
fn unknown_accounts_default_to_zero() {
    let state = State::from_initial_balances(vec![], RollupVM::new(1));
    let nobody = Address { a0: 1, a1: 2, a2: 3 };
    assert_eq!(state.get_balance(&nobody), 0);
    assert_eq!(state.get_nonce(&nobody), 0);
}

#[test]
fn self_transfer_keeps_balance_and_advances_nonce() {
    let alice = wallet(10);
    let alice_addr = to_address(alice.address());
    let mut state = State::from_initial_balances(vec![(alice_addr, 500)], RollupVM::new(1));

    let payload = signed_payload(50, alice_addr, 1, &alice);
    state.apply_transaction(payload.as_slice()).expect("valid");
    assert_eq!(state.get_balance(&alice_addr), 500);
    assert_eq!(state.get_nonce(&alice_addr), 1);
}

#[test]
fn commitments_are_deterministic_across_replicas() {
    let alice = wallet(11);
    let bob = wallet(12);
    let carol = wallet(13);
    let alice_addr = to_address(alice.address());
    let bob_addr = to_address(bob.address());
    let carol_addr = to_address(carol.address());
    let seeds = vec![(alice_addr, 1000), (bob_addr, 1000)];

    let mut first = State::from_initial_balances(seeds.clone(), RollupVM::new(1));
    let mut second = State::from_initial_balances(seeds, RollupVM::new(1));
    assert_eq!(first.commit(), second.commit());

    let pay_a = signed_payload(10, carol_addr, 1, &alice);
    let pay_b = signed_payload(20, carol_addr, 1, &bob);
    first.apply_transaction(pay_a.as_slice()).expect("valid");
    first.apply_transaction(pay_b.as_slice()).expect("valid");
    second.apply_transaction(pay_a.as_slice()).expect("valid");
    second.apply_transaction(pay_b.as_slice()).expect("valid");
    assert_eq!(first.commit(), second.commit());
}

#[test]
fn commitment_depends_on_transaction_order() {
    let alice = wallet(14);
    let bob = wallet(15);
    let carol = wallet(16);
    let dave = wallet(17);
    let alice_addr = to_address(alice.address());
    let bob_addr = to_address(bob.address());
    let seeds = vec![(alice_addr, 1000), (bob_addr, 1000)];

    // Two independent transfers to different destinations, sequenced in
    // the two orders across two blocks. The final balances agree, but the
    // commitment chains pass through different intermediate states, so the
    // final commitments differ.
    let pay_a = signed_payload(10, to_address(carol.address()), 1, &alice);
    let pay_b = signed_payload(20, to_address(dave.address()), 1, &bob);
    let h1 = example_l2::commitment::BlockHash { w0: 5, w1: 5, w2: 5, w3: 5 };
    let h2 = example_l2::commitment::BlockHash { w0: 6, w1: 6, w2: 6, w3: 6 };

    let mut one = State::from_initial_balances(seeds.clone(), RollupVM::new(1));
    one.execute_block(&vec![pay_a.clone()], h1, true).expect("verified block");
    one.execute_block(&vec![pay_b.clone()], h2, true).expect("verified block");
    let mut other = State::from_initial_balances(seeds, RollupVM::new(1));
    other.execute_block(&vec![pay_b], h1, true).expect("verified block");
    other.execute_block(&vec![pay_a], h2, true).expect("verified block");
    assert_eq!(one.get_balance(&to_address(carol.address())), 10);
    assert_eq!(other.get_balance(&to_address(carol.address())), 10);
    assert_ne!(one.commit(), other.commit());
}

#[test]
fn namespace_distinguishes_commitments() {
    let state_one = State::from_initial_balances(vec![], RollupVM::new(1));
    let state_two = State::from_initial_balances(vec![], RollupVM::new(2));
    assert_ne!(state_one.commit(), state_two.commit());
}

#[test]
fn commitment_matches_keccak_of_canonical_preimage() {
    // The empty ledger of namespace 7 has the canonical preimage:
    // no block hash, no previous commitment, zero accounts, namespace 7.
    let state = State::from_initial_balances(vec![], RollupVM::new(7));
    let mut preimage: Vec<u8> = Vec::new();
    preimage.push(0);
    preimage.push(0);
    preimage.extend_from_slice(&0u64.to_le_bytes());
    preimage.extend_from_slice(&7u64.to_le_bytes());
    let digest = ethers_core::utils::keccak256(&preimage);
    let commitment = state.commit();
    assert_eq!(commitment.w0, u64::from_le_bytes(digest[0..8].try_into().unwrap()));
    assert_eq!(commitment.w1, u64::from_le_bytes(digest[8..16].try_into().unwrap()));
    assert_eq!(commitment.w2, u64::from_le_bytes(digest[16..24].try_into().unwrap()));
    assert_eq!(commitment.w3, u64::from_le_bytes(digest[24..32].try_into().unwrap()));
}

#[test]
fn spending_the_whole_balance_leaves_a_valid_empty_account() {
    let alice = wallet(18);
    let bob = wallet(19);
    let alice_addr = to_address(alice.address());
    let bob_addr = to_address(bob.address());
    let mut state = State::from_initial_balances(vec![(alice_addr, u64::MAX)], RollupVM::new(1));

    let payload = signed_payload(u64::MAX, bob_addr, 1, &alice);
    state.apply_transaction(payload.as_slice()).expect("valid");
    assert_eq!(state.get_balance(&alice_addr), 0);
    assert_eq!(state.get_balance(&bob_addr), u64::MAX);
    assert_eq!(state.get_nonce(&alice_addr), 1);
}

#[test]
fn first_transaction_must_carry_nonce_one() {
    let alice = wallet(20);
    let bob = wallet(25);
    let alice_addr = to_address(alice.address());
    let bob_addr = to_address(bob.address());
    let mut state = State::from_initial_balances(vec![(alice_addr, 100)], RollupVM::new(1));

    let payload = signed_payload(10, bob_addr, 5, &alice);
    let err = state.apply_transaction(payload.as_slice()).unwrap_err();
    assert_eq!(
        err,
        RollupError::InvalidNonce { address: alice_addr, expected: 1, actual: 5 }
    );
}

#[test]
fn later_seed_entries_replace_earlier_ones() {
    let addr = Address { a0: 9, a1: 9, a2: 9 };
    let state = State::from_initial_balances(vec![(addr, 5), (addr, 77)], RollupVM::new(1));
    assert_eq!(state.get_balance(&addr), 77);
}
