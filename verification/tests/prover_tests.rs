use example_l2::commitment::{BlockHash, Commitment};
use example_l2::prover::{BatchProof, Proof, ProofError};

fn commitment(tag: u64) -> Commitment {
    Commitment { w0: tag, w1: 0, w2: 0, w3: 0 }
}

fn block(tag: u64) -> BlockHash {
    BlockHash { w0: tag, w1: 0, w2: 0, w3: 0 }
}

#[test]
fn chained_batch_collapses_to_endpoints() {
    let a = commitment(1);
    let b = commitment(2);
    let c = commitment(3);
    let p0 = Proof::generate(block(10), a, b, true).unwrap();
    let p1 = Proof::generate(block(11), b, c, true).unwrap();
    let batch = BatchProof::generate(&[p0, p1]).expect("chained proofs aggregate");
    assert_eq!(batch.old_state, a);
    assert_eq!(batch.new_state, c);
    assert_eq!(batch.first_block, block(10));
    assert_eq!(batch.last_block, block(11));
}

#[test]
fn unchained_batch_reports_first_violation() {
    let a = commitment(1);
    let b = commitment(2);
    let c = commitment(3);
    let x = commitment(9);
    let p0 = Proof::generate(block(10), a, b, true).unwrap();
    let p1 = Proof::generate(block(11), x, c, true).unwrap();
    let err = BatchProof::generate(&[p0, p1]).expect_err("gap must be reported");
    assert_eq!(
        err,
        ProofError::OutOfOrder { position: 0, new_state: b, old_state: x }
    );
}

#[test]
fn violation_position_is_the_first_gap() {
    let p0 = Proof::generate(block(1), commitment(1), commitment(2), true).unwrap();
    let p1 = Proof::generate(block(2), commitment(2), commitment(3), true).unwrap();
    let p2 = Proof::generate(block(3), commitment(8), commitment(4), true).unwrap();
    let p3 = Proof::generate(block(4), commitment(9), commitment(5), true).unwrap();
    let err = BatchProof::generate(&[p0, p1, p2, p3]).unwrap_err();
    let ProofError::OutOfOrder { position, new_state, old_state } = err;
    assert_eq!(position, 1);
    assert_eq!(new_state, commitment(3));
    assert_eq!(old_state, commitment(8));
}

#[test]
fn single_proof_batch_spans_itself() {
    let p = Proof::generate(block(7), commitment(4), commitment(5), true).unwrap();
    let batch = BatchProof::generate(&[p]).unwrap();
    assert_eq!(batch.old_state, commitment(4));
    assert_eq!(batch.new_state, commitment(5));
    assert_eq!(batch.first_block, block(7));
    assert_eq!(batch.last_block, block(7));
}

#[test]
fn proof_requires_verified_inclusion() {
    assert!(Proof::generate(block(1), commitment(1), commitment(2), false).is_none());
    let p = Proof::generate(block(1), commitment(1), commitment(2), true).unwrap();
    assert_eq!(p.block, block(1));
    assert_eq!(p.old_state, commitment(1));
    assert_eq!(p.new_state, commitment(2));
}
