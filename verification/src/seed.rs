//! The well-known identities a demo deployment seeds the ledger with.

use vstd::prelude::*;

verus! {

/// The balance every seeded identity starts with.
pub const INITIAL_BALANCE: u64 = 9999;

/// The identities seeded at genesis. Each derives its keys from its fixed
/// seed index, so every replica seeds the same addresses.
#[derive(Clone, Copy, Debug, PartialEq, Eq, Structural)]
pub enum SeedIdentity {
    Bob,
    Alice,
    Charlie,
}

/// The fixed seed index of an identity.
pub open spec fn spec_seed_index(id: SeedIdentity) -> u64 {
    match id {
        SeedIdentity::Bob => 0,
        SeedIdentity::Alice => 1,
        SeedIdentity::Charlie => 2,
    }
}

impl SeedIdentity {
    /// The fixed index this identity derives its keys from.
    pub fn index(&self) -> (r: u64)
        ensures
            r == spec_seed_index(*self),
    {
        match self {
            SeedIdentity::Bob => 0,
            SeedIdentity::Alice => 1,
            SeedIdentity::Charlie => 2,
        }
    }

    /// Every identity, in seed order.
    pub fn all() -> (r: Vec<SeedIdentity>)
        ensures
            r@ == seq![SeedIdentity::Bob, SeedIdentity::Alice, SeedIdentity::Charlie],
    {
        let mut out: Vec<SeedIdentity> = Vec::new();
        out.push(SeedIdentity::Bob);
        out.push(SeedIdentity::Alice);
        out.push(SeedIdentity::Charlie);
        proof {
            assert(out@ =~= seq![SeedIdentity::Bob, SeedIdentity::Alice, SeedIdentity::Charlie]);
        }
        out
    }
}

} // verus!
