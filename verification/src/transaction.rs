//! Transfer intents, their canonical byte encoding, and signer recovery.
//!
//! A transaction is signed over the canonical encoding of the unsigned
//! transaction only, never over the signature itself, so a signature cannot
//! be re-bound to other contents.

use vstd::prelude::*;
use vstd::bytes::*;
use vstd::slice::slice_subrange;
use crate::error::RollupError;

verus! {

/// A 160-bit account address, stored as plain little-endian words:
/// `a0` holds bytes 0..4 of the address, `a1` bytes 4..12, `a2` bytes 12..20.
#[derive(Clone, Copy, Debug, PartialEq, Eq, Structural, Hash)]
pub struct Address {
    pub a0: u32,
    pub a1: u64,
    pub a2: u64,
}

/// The fixed total order on addresses that keeps the ledger canonical.
pub open spec fn spec_address_lt(x: Address, y: Address) -> bool {
    ||| x.a0 < y.a0
    ||| (x.a0 == y.a0 && x.a1 < y.a1)
    ||| (x.a0 == y.a0 && x.a1 == y.a1 && x.a2 < y.a2)
}

/// Distinct addresses are ordered one way or the other.
pub proof fn lemma_address_order_total(x: Address, y: Address)
    ensures
        x == y || spec_address_lt(x, y) || spec_address_lt(y, x),
        !(spec_address_lt(x, y) && spec_address_lt(y, x)),
{
}

/// Compare two addresses in the canonical order.
pub fn address_lt(x: &Address, y: &Address) -> (r: bool)
    ensures
        r == spec_address_lt(*x, *y),
{
    if x.a0 != y.a0 {
        x.a0 < y.a0
    } else if x.a1 != y.a1 {
        x.a1 < y.a1
    } else {
        x.a2 < y.a2
    }
}

/// The 20-byte encoding of an address.
pub open spec fn spec_address_bytes(a: Address) -> Seq<u8> {
    spec_u32_to_le_bytes(a.a0) + spec_u64_to_le_bytes(a.a1) + spec_u64_to_le_bytes(a.a2)
}

/// The address read back from a 20-byte string.
pub open spec fn spec_address_from_bytes(b: Seq<u8>) -> Address
    recommends
        b.len() == 20,
{
    Address {
        a0: spec_u32_from_le_bytes(b.subrange(0, 4)),
        a1: spec_u64_from_le_bytes(b.subrange(4, 12)),
        a2: spec_u64_from_le_bytes(b.subrange(12, 20)),
    }
}

/// Read an address back from its 20-byte encoding.
pub fn address_from_bytes(b: &Vec<u8>) -> (r: Address)
    requires
        b@.len() == 20,
    ensures
        r == spec_address_from_bytes(b@),
{
    let a0 = u32_from_le_bytes(slice_subrange(b.as_slice(), 0, 4));
    let a1 = u64_from_le_bytes(slice_subrange(b.as_slice(), 4, 12));
    let a2 = u64_from_le_bytes(slice_subrange(b.as_slice(), 12, 20));
    Address { a0, a1, a2 }
}

/// Append the 20-byte encoding of an address.
pub fn push_address_bytes(out: &mut Vec<u8>, a: &Address)
    ensures
        final(out)@ == old(out)@ + spec_address_bytes(*a),
{
    let mut b0 = u32_to_le_bytes(a.a0);
    let mut b1 = u64_to_le_bytes(a.a1);
    let mut b2 = u64_to_le_bytes(a.a2);
    out.append(&mut b0);
    out.append(&mut b1);
    out.append(&mut b2);
}

/// Encoding an address and reading it back yields the address.
pub proof fn lemma_address_bytes_roundtrip(a: Address)
    ensures
        spec_address_bytes(a).len() == 20,
        spec_address_from_bytes(spec_address_bytes(a)) == a,
{
    lemma_auto_spec_u32_to_from_le_bytes();
    lemma_auto_spec_u64_to_from_le_bytes();
    let b = spec_address_bytes(a);
    assert(b.subrange(0, 4) =~= spec_u32_to_le_bytes(a.a0));
    assert(b.subrange(4, 12) =~= spec_u64_to_le_bytes(a.a1));
    assert(b.subrange(12, 20) =~= spec_u64_to_le_bytes(a.a2));
}

/// A transfer intent: move `amount` to `destination`, consuming the sender's
/// nonce `nonce`.
#[derive(Clone, Copy, Debug, PartialEq, Eq, Structural)]
pub struct Transaction {
    pub amount: u64,
    pub destination: Address,
    pub nonce: u64,
}

/// The 36-byte canonical encoding of an unsigned transaction:
/// amount, destination, nonce.
pub open spec fn spec_transaction_bytes(t: Transaction) -> Seq<u8> {
    spec_u64_to_le_bytes(t.amount) + spec_address_bytes(t.destination) + spec_u64_to_le_bytes(
        t.nonce,
    )
}

/// The transaction read back from the first 36 bytes of a payload.
pub open spec fn spec_transaction_from_bytes(b: Seq<u8>) -> Transaction
    recommends
        b.len() >= 36,
{
    Transaction {
        amount: spec_u64_from_le_bytes(b.subrange(0, 8)),
        destination: spec_address_from_bytes(b.subrange(8, 28)),
        nonce: spec_u64_from_le_bytes(b.subrange(28, 36)),
    }
}

impl Transaction {
    /// The canonical bytes that are signed: the unsigned transaction only.
    pub fn encode(&self) -> (r: Vec<u8>)
        ensures
            r@ == spec_transaction_bytes(*self),
            r@.len() == 36,
    {
        proof {
            lemma_auto_spec_u32_to_from_le_bytes();
            lemma_auto_spec_u64_to_from_le_bytes();
        }
        let mut out: Vec<u8> = Vec::new();
        let mut amount = u64_to_le_bytes(self.amount);
        out.append(&mut amount);
        push_address_bytes(&mut out, &self.destination);
        let mut nonce = u64_to_le_bytes(self.nonce);
        out.append(&mut nonce);
        out
    }
}

/// Encoding a transaction and reading it back yields the transaction.
pub proof fn lemma_transaction_bytes_roundtrip(t: Transaction)
    ensures
        spec_transaction_bytes(t).len() == 36,
        spec_transaction_from_bytes(spec_transaction_bytes(t)) == t,
{
    lemma_auto_spec_u64_to_from_le_bytes();
    lemma_address_bytes_roundtrip(t.destination);
    let b = spec_transaction_bytes(t);
    assert(b.subrange(0, 8) =~= spec_u64_to_le_bytes(t.amount));
    assert(b.subrange(8, 28) =~= spec_address_bytes(t.destination));
    assert(b.subrange(28, 36) =~= spec_u64_to_le_bytes(t.nonce));
}

/// A transaction together with the 65-byte recoverable signature over its
/// canonical encoding.
#[derive(Clone, Debug)]
pub struct SignedTransaction {
    pub transaction: Transaction,
    pub signature: Vec<u8>,
}

/// The length of a recoverable signature: `r`, `s`, and the recovery byte.
pub const SIGNATURE_LEN: usize = 65;

/// The length of an encoded signed transaction.
pub const SIGNED_TRANSACTION_LEN: usize = 101;

/// A payload decodes as a signed transaction exactly when it has the
/// fixed encoded length.
pub open spec fn spec_payload_well_formed(b: Seq<u8>) -> bool {
    b.len() == SIGNED_TRANSACTION_LEN
}

/// The signature carried in the last 65 bytes of a payload.
pub open spec fn spec_payload_signature(b: Seq<u8>) -> Seq<u8>
    recommends
        spec_payload_well_formed(b),
{
    b.subrange(36, 101)
}

/// The name the ECDSA recovery gives to a message and signature: the signer's
/// 20-byte address, or nothing when the signature does not verify. Its value
/// is fixed by the recovery algorithm alone.
pub uninterp spec fn recovered_signer(message: Seq<u8>, signature: Seq<u8>) -> Option<Seq<u8>>;

/// Relies on `ethers_core::types::Signature::recover`: recovers the address
/// that signed the message, a pure function of message and signature bytes;
/// an address is 20 bytes. The signature bytes are parsed by
/// `Signature::try_from`; bytes that are not a well-formed 65-byte
/// signature, like a signature that does not verify, recover nothing.
#[verifier::external_body]
fn recover_signer_bytes(message: &Vec<u8>, signature: &Vec<u8>) -> (r: Option<Vec<u8>>)
    ensures
        match r {
            Some(a) => recovered_signer(message@, signature@) == Some(a@) && a@.len() == 20,
            None => recovered_signer(message@, signature@) is None,
        },
{
    let sig = match ethers_core::types::Signature::try_from(signature.as_slice()) {
        Ok(s) => s,
        Err(_) => return None,
    };
    match sig.recover(message.as_slice()) {
        Ok(a) => Some(a.as_bytes().to_vec()),
        Err(_) => None,
    }
}

/// The signer an encoded transaction and signature recover to, as an address.
pub open spec fn spec_recover(t: Transaction, signature: Seq<u8>) -> Option<Address> {
    match recovered_signer(spec_transaction_bytes(t), signature) {
        Some(b) => Some(spec_address_from_bytes(b)),
        None => None,
    }
}

impl SignedTransaction {
    /// Bind a signature to a transaction. The signature must already be the
    /// 65-byte recoverable form.
    pub fn new(transaction: Transaction, signature: Vec<u8>) -> (r: Self)
        requires
            signature@.len() == SIGNATURE_LEN,
        ensures
            r.transaction == transaction,
            r.signature == signature,
    {
        SignedTransaction { transaction, signature }
    }

    /// The canonical encoding: the transaction bytes followed by the
    /// signature bytes.
    pub fn encode(&self) -> (r: Vec<u8>)
        ensures
            r@ == spec_transaction_bytes(self.transaction) + self.signature@,
    {
        let mut out = self.transaction.encode();
        out.extend_from_slice(self.signature.as_slice());
        out
    }

    /// Decode a raw payload. Only payloads of the exact encoded length are
    /// accepted; everything else is rejected.
    pub fn decode(bytes: &[u8]) -> (r: Option<Self>)
        ensures
            match r {
                Some(st) => spec_payload_well_formed(bytes@) && st.transaction
                    == spec_transaction_from_bytes(bytes@) && st.signature@
                    == spec_payload_signature(bytes@),
                None => !spec_payload_well_formed(bytes@),
            },
    {
        if bytes.len() != SIGNED_TRANSACTION_LEN {
            return None;
        }
        let amount = u64_from_le_bytes(slice_subrange(bytes, 0, 8));
        let mut addr_bytes: Vec<u8> = Vec::new();
        addr_bytes.extend_from_slice(slice_subrange(bytes, 8, 28));
        let destination = address_from_bytes(&addr_bytes);
        let nonce = u64_from_le_bytes(slice_subrange(bytes, 28, 36));
        let mut signature: Vec<u8> = Vec::new();
        signature.extend_from_slice(slice_subrange(bytes, 36, 101));
        proof {
            assert(addr_bytes@ =~= bytes@.subrange(8, 28));
            assert(signature@ =~= bytes@.subrange(36, 101));
        }
        Some(
            SignedTransaction {
                transaction: Transaction { amount, destination, nonce },
                signature,
            },
        )
    }

    /// Recover the address that signed this transaction's canonical bytes.
    pub fn recover(&self) -> (r: Result<Address, RollupError>)
        ensures
            match r {
                Ok(a) => spec_recover(self.transaction, self.signature@) == Some(a),
                Err(e) => spec_recover(self.transaction, self.signature@) is None && e
                    == RollupError::SignatureError,
            },
    {
        let message = self.transaction.encode();
        match recover_signer_bytes(&message, &self.signature) {
            Some(b) => Ok(address_from_bytes(&b)),
            None => Err(RollupError::SignatureError),
        }
    }
}

/// Encoding a signed transaction and decoding the bytes yields the same
/// transaction and signature.
pub proof fn lemma_signed_transaction_roundtrip(t: Transaction, signature: Seq<u8>)
    requires
        signature.len() == SIGNATURE_LEN,
    ensures
        ({
            let b = spec_transaction_bytes(t) + signature;
            &&& spec_payload_well_formed(b)
            &&& spec_transaction_from_bytes(b) == t
            &&& spec_payload_signature(b) == signature
        }),
{
    lemma_transaction_bytes_roundtrip(t);
    let tb = spec_transaction_bytes(t);
    let b = tb + signature;
    assert(b.subrange(0, 8) =~= tb.subrange(0, 8));
    assert(b.subrange(8, 28) =~= tb.subrange(8, 28));
    assert(b.subrange(28, 36) =~= tb.subrange(28, 36));
    assert(b.subrange(36, 101) =~= signature);
}

} // verus!
