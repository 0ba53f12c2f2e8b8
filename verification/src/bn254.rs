//! The on-chain BN254 support library: the curve's two field moduli, which
//! the settlement side exposes as contract constants. They are modelled as
//! plain 256-bit words so commitments and proofs can be checked against the
//! values the chain would report.

use vstd::prelude::*;
use crate::transaction::Address;

verus! {

/// A 256-bit word as four 64-bit limbs, most significant first.
#[derive(Clone, Copy, Debug, PartialEq, Eq, Structural)]
pub struct U256 {
    pub w0: u64,
    pub w1: u64,
    pub w2: u64,
    pub w3: u64,
}

/// The BN254 base field modulus.
pub open spec fn spec_bn254_p() -> U256 {
    U256 { w0: 0x30644E72E131A029, w1: 0xB85045B68181585D, w2: 0x97816A916871CA8D, w3: 0x3C208C16D87CFD47 }
}

/// The BN254 scalar field modulus.
pub open spec fn spec_bn254_r() -> U256 {
    U256 { w0: 0x30644E72E131A029, w1: 0xB85045B68181585D, w2: 0x2833E84879B97091, w3: 0x43E1F593F0000001 }
}

/// The call data of the base-field-modulus read.
#[derive(Clone, Copy, Debug, PartialEq, Eq, Structural)]
pub struct PModCall;

/// The call data of the scalar-field-modulus read.
#[derive(Clone, Copy, Debug, PartialEq, Eq, Structural)]
pub struct RModCall;

/// Container for every call the library contract accepts.
#[derive(Clone, Copy, Debug, PartialEq, Eq, Structural)]
pub enum BN254Calls {
    PMod(PModCall),
    RMod(RModCall),
}

/// The return value of the base-field-modulus read.
#[derive(Clone, Copy, Debug, PartialEq, Eq, Structural)]
pub struct PModReturn(pub U256);

/// The return value of the scalar-field-modulus read.
#[derive(Clone, Copy, Debug, PartialEq, Eq, Structural)]
pub struct RModReturn(pub U256);

/// The deployed BN254 library contract, at its on-chain address.
pub struct BN254 {
    address: Address,
}

impl BN254 {
    /// Where the library contract is deployed.
    pub closed spec fn spec_address(self) -> Address {
        self.address
    }

    /// Bind to the library contract at `address`.
    pub fn new(address: Address) -> (r: Self)
        ensures
            r.spec_address() == address,
    {
        BN254 { address }
    }

    /// The base field modulus the contract reports.
    pub fn p_mod(&self) -> (r: U256)
        ensures
            r == spec_bn254_p(),
    {
        U256 {
            w0: 0x30644E72E131A029,
            w1: 0xB85045B68181585D,
            w2: 0x97816A916871CA8D,
            w3: 0x3C208C16D87CFD47,
        }
    }

    /// The scalar field modulus the contract reports.
    pub fn r_mod(&self) -> (r: U256)
        ensures
            r == spec_bn254_r(),
    {
        U256 {
            w0: 0x30644E72E131A029,
            w1: 0xB85045B68181585D,
            w2: 0x2833E84879B97091,
            w3: 0x43E1F593F0000001,
        }
    }
}

} // verus!
