//! State commitments and block hashes as plain 256-bit values, and the
//! Keccak-256 digest that produces them.

use vstd::prelude::*;
use vstd::bytes::*;
use vstd::slice::slice_subrange;

verus! {

/// A deterministic 256-bit digest of ledger state, stored as four
/// little-endian 64-bit words (`w0` holds bytes 0..8 of the digest).
#[derive(Clone, Copy, Debug, PartialEq, Eq, Structural)]
pub struct Commitment {
    pub w0: u64,
    pub w1: u64,
    pub w2: u64,
    pub w3: u64,
}

/// The hash of a sequenced consensus block, stored like a [`Commitment`].
#[derive(Clone, Copy, Debug, PartialEq, Eq, Structural)]
pub struct BlockHash {
    pub w0: u64,
    pub w1: u64,
    pub w2: u64,
    pub w3: u64,
}

/// The Keccak-256 digest of a byte string. Its value is fixed by the hash
/// function; nothing more is assumed of it than its length.
pub uninterp spec fn keccak(bytes: Seq<u8>) -> Seq<u8>;

/// Relies on `ethers_core::utils::keccak256`: the Keccak-256 digest, a pure
/// function of the input bytes, always 32 bytes long.
#[verifier::external_body]
fn keccak_digest(bytes: &Vec<u8>) -> (r: Vec<u8>)
    ensures
        r@ == keccak(bytes@),
        r@.len() == 32,
{
    ethers_core::utils::keccak256(bytes.as_slice()).to_vec()
}

/// The 32-byte little-endian encoding of a commitment.
pub open spec fn spec_commitment_bytes(c: Commitment) -> Seq<u8> {
    spec_u64_to_le_bytes(c.w0) + spec_u64_to_le_bytes(c.w1) + spec_u64_to_le_bytes(c.w2)
        + spec_u64_to_le_bytes(c.w3)
}

/// The commitment read back from a 32-byte string.
pub open spec fn spec_commitment_from_bytes(b: Seq<u8>) -> Commitment
    recommends
        b.len() == 32,
{
    Commitment {
        w0: spec_u64_from_le_bytes(b.subrange(0, 8)),
        w1: spec_u64_from_le_bytes(b.subrange(8, 16)),
        w2: spec_u64_from_le_bytes(b.subrange(16, 24)),
        w3: spec_u64_from_le_bytes(b.subrange(24, 32)),
    }
}

/// The 32-byte little-endian encoding of a block hash.
pub open spec fn spec_block_hash_bytes(h: BlockHash) -> Seq<u8> {
    spec_u64_to_le_bytes(h.w0) + spec_u64_to_le_bytes(h.w1) + spec_u64_to_le_bytes(h.w2)
        + spec_u64_to_le_bytes(h.w3)
}

/// The commitment whose preimage is the given byte string.
pub open spec fn spec_digest(preimage: Seq<u8>) -> Commitment {
    spec_commitment_from_bytes(keccak(preimage))
}

/// Digest a byte string into a commitment.
pub fn digest(preimage: &Vec<u8>) -> (r: Commitment)
    ensures
        r == spec_digest(preimage@),
{
    let d = keccak_digest(preimage);
    commitment_from_bytes(&d)
}

/// Read a commitment back from its 32-byte encoding.
pub fn commitment_from_bytes(b: &Vec<u8>) -> (r: Commitment)
    requires
        b@.len() == 32,
    ensures
        r == spec_commitment_from_bytes(b@),
{
    let w0 = u64_from_le_bytes(slice_subrange(b.as_slice(), 0, 8));
    let w1 = u64_from_le_bytes(slice_subrange(b.as_slice(), 8, 16));
    let w2 = u64_from_le_bytes(slice_subrange(b.as_slice(), 16, 24));
    let w3 = u64_from_le_bytes(slice_subrange(b.as_slice(), 24, 32));
    Commitment { w0, w1, w2, w3 }
}

/// Append the 32-byte encoding of a commitment.
pub fn push_commitment_bytes(out: &mut Vec<u8>, c: &Commitment)
    ensures
        final(out)@ == old(out)@ + spec_commitment_bytes(*c),
{
    let mut b0 = u64_to_le_bytes(c.w0);
    let mut b1 = u64_to_le_bytes(c.w1);
    let mut b2 = u64_to_le_bytes(c.w2);
    let mut b3 = u64_to_le_bytes(c.w3);
    out.append(&mut b0);
    out.append(&mut b1);
    out.append(&mut b2);
    out.append(&mut b3);
}

/// Append the 32-byte encoding of a block hash.
pub fn push_block_hash_bytes(out: &mut Vec<u8>, h: &BlockHash)
    ensures
        final(out)@ == old(out)@ + spec_block_hash_bytes(*h),
{
    let mut b0 = u64_to_le_bytes(h.w0);
    let mut b1 = u64_to_le_bytes(h.w1);
    let mut b2 = u64_to_le_bytes(h.w2);
    let mut b3 = u64_to_le_bytes(h.w3);
    out.append(&mut b0);
    out.append(&mut b1);
    out.append(&mut b2);
    out.append(&mut b3);
}

} // verus!
