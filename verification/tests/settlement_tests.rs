use example_l2::bn254::{BN254, U256};
use example_l2::commitment::{BlockHash, Commitment};
use example_l2::prover::BatchProof;
use example_l2::seed::{SeedIdentity, INITIAL_BALANCE};
use example_l2::settlement::{ExampleRollup, ExampleRollupErrors};
use example_l2::transaction::Address;

fn commitment(tag: u64) -> Commitment {
    Commitment { w0: tag, w1: 0, w2: 0, w3: 0 }
}

fn block(tag: u64) -> BlockHash {
    BlockHash { w0: tag, w1: 0, w2: 0, w3: 0 }
}

fn batch(old: Commitment, new: Commitment) -> BatchProof {
    BatchProof { first_block: block(1), last_block: block(2), old_state: old, new_state: new }
}

fn fresh() -> ExampleRollup {
    ExampleRollup::new(Address { a0: 1, a1: 2, a2: 3 }, commitment(100))
}

#[test]
fn deployment_exposes_its_configuration() {
    let rollup = fresh();
    assert_eq!(rollup.light_client(), Address { a0: 1, a1: 2, a2: 3 });
    assert_eq!(rollup.state_commitment(), commitment(100));
    assert_eq!(rollup.num_verified_blocks(), 0);
    assert!(rollup.events().is_empty());
    assert!(rollup.state_update_filter().is_empty());
}

#[test]
fn empty_batch_is_rejected() {
    let mut rollup = fresh();
    let err = rollup
        .verify_blocks(0, commitment(101), &batch(commitment(100), commitment(101)), 10)
        .unwrap_err();
    assert!(matches!(err, ExampleRollupErrors::NoBlocks(_)));
    assert_eq!(rollup.state_commitment(), commitment(100));
    assert_eq!(rollup.num_verified_blocks(), 0);
}

#[test]
fn mismatched_commitment_is_rejected() {
    let mut rollup = fresh();
    let err = rollup
        .verify_blocks(2, commitment(999), &batch(commitment(100), commitment(101)), 10)
        .unwrap_err();
    assert!(matches!(err, ExampleRollupErrors::InvalidProof(_)));
    assert_eq!(rollup.state_commitment(), commitment(100));
}

#[test]
fn blocks_past_finality_are_rejected_with_progress() {
    let mut rollup = fresh();
    let err = rollup
        .verify_blocks(5, commitment(101), &batch(commitment(100), commitment(101)), 3)
        .unwrap_err();
    match err {
        ExampleRollupErrors::NotYetSequenced(n) => {
            assert_eq!(n.num_verified_blocks, 0);
            assert_eq!(n.count, 5);
            assert_eq!(n.block_height, 3);
        }
        other => panic!("expected NotYetSequenced, got {:?}", other),
    }
    assert_eq!(rollup.num_verified_blocks(), 0);
}

#[test]
fn accepted_batches_advance_the_checkpoint_and_emit() {
    let mut rollup = fresh();
    rollup
        .verify_blocks(2, commitment(101), &batch(commitment(100), commitment(101)), 10)
        .expect("accepted");
    rollup
        .verify_blocks(3, commitment(102), &batch(commitment(101), commitment(102)), 10)
        .expect("accepted");
    assert_eq!(rollup.num_verified_blocks(), 5);
    assert_eq!(rollup.state_commitment(), commitment(102));
    let events = rollup.events();
    assert_eq!(events.len(), 2);
    assert_eq!(events[0].block_height, 2);
    assert_eq!(events[0].state_commitment, commitment(101));
    assert_eq!(events[1].block_height, 5);
    assert_eq!(events[1].state_commitment, commitment(102));
}

#[test]
fn bn254_reports_the_curve_moduli() {
    let bn254 = BN254::new(Address { a0: 7, a1: 7, a2: 7 });
    assert_eq!(
        bn254.p_mod(),
        U256 {
            w0: 0x30644E72E131A029,
            w1: 0xB85045B68181585D,
            w2: 0x97816A916871CA8D,
            w3: 0x3C208C16D87CFD47,
        }
    );
    assert_eq!(
        bn254.r_mod(),
        U256 {
            w0: 0x30644E72E131A029,
            w1: 0xB85045B68181585D,
            w2: 0x2833E84879B97091,
            w3: 0x43E1F593F0000001,
        }
    );
}

#[test]
fn seed_identities_are_fixed() {
    assert_eq!(INITIAL_BALANCE, 9999);
    let all = SeedIdentity::all();
    assert_eq!(all.len(), 3);
    assert_eq!(all[0].index(), 0);
    assert_eq!(all[1].index(), 1);
    assert_eq!(all[2].index(), 2);
    assert!(matches!(all[0], SeedIdentity::Bob));
    assert!(matches!(all[1], SeedIdentity::Alice));
    assert!(matches!(all[2], SeedIdentity::Charlie));
}
