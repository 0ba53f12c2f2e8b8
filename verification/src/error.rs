//! Errors raised while validating a single transaction against the ledger.

use vstd::prelude::*;
use crate::transaction::Address;

verus! {

/// A transaction-scoped validation error. Each variant is recoverable: the
/// ledger rejects the transaction and is left exactly as it was.
#[derive(Clone, Copy, Debug, PartialEq, Eq, Structural)]
pub enum RollupError {
    /// The signature did not yield a signer for the transaction bytes.
    SignatureError,
    /// The sender has no account, or its balance cannot cover the transfer.
    InsufficientBalance { address: Address },
    /// The transaction's nonce is not the sender's next nonce.
    InvalidNonce { address: Address, expected: u64, actual: u64 },
    /// The payload is not a well-formed signed transaction.
    InvalidTransaction,
}

} // verus!
