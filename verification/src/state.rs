//! The account ledger: balances and nonces keyed by address, kept in a
//! canonical sorted order so that its commitment is a pure function of the
//! logical state, plus the hash-chain links to the previous commitment and
//! the last consensus block.

use vstd::prelude::*;
use vstd::bytes::{spec_u64_to_le_bytes, u64_to_le_bytes};
use crate::commitment::{
    digest, push_block_hash_bytes, push_commitment_bytes, spec_block_hash_bytes,
    spec_commitment_bytes, spec_digest, BlockHash, Commitment,
};
use crate::error::RollupError;
use crate::prover::Proof;
use crate::transaction::{
    address_lt, lemma_address_order_total, push_address_bytes, spec_address_bytes,
    spec_address_lt, spec_payload_signature, spec_payload_well_formed, spec_recover,
    spec_transaction_from_bytes, Address, SignedTransaction,
};
use crate::RollupVM;

verus! {

pub type Amount = u64;

pub type Nonce = u64;

/// One account: its spendable balance and the nonce of the last transaction
/// it sent. Accounts are created lazily on first credit and never deleted.
#[derive(Clone, Copy, Debug, PartialEq, Eq, Structural)]
pub struct Account {
    pub balance: Amount,
    pub nonce: Nonce,
}

/// The entries are strictly ascending in the canonical address order, so
/// every address occurs at most once and the sequence is canonical.
pub open spec fn spec_sorted(s: Seq<(Address, Account)>) -> bool
    decreases s.len(),
{
    s.len() <= 1 || (spec_address_lt(s[0].0, s[1].0) && spec_sorted(s.drop_first()))
}

/// The account stored for an address, if any.
pub open spec fn spec_find(s: Seq<(Address, Account)>, a: Address) -> Option<Account>
    decreases s.len(),
{
    if s.len() == 0 {
        None
    } else if s[0].0 == a {
        Some(s[0].1)
    } else {
        spec_find(s.drop_first(), a)
    }
}

/// The balance of an address; unknown addresses hold zero.
pub open spec fn spec_balance_of(s: Seq<(Address, Account)>, a: Address) -> u64 {
    match spec_find(s, a) {
        Some(acc) => acc.balance,
        None => 0,
    }
}

/// The nonce of an address; unknown addresses are at zero.
pub open spec fn spec_nonce_of(s: Seq<(Address, Account)>, a: Address) -> u64 {
    match spec_find(s, a) {
        Some(acc) => acc.nonce,
        None => 0,
    }
}

/// The sum of all balances.
pub open spec fn spec_total(s: Seq<(Address, Account)>) -> int
    decreases s.len(),
{
    if s.len() == 0 {
        0
    } else {
        s[0].1.balance + spec_total(s.drop_first())
    }
}

/// The sequence after storing `acc` under `a`: the entry for `a` is replaced
/// if present, inserted at its ordered position otherwise.
pub open spec fn spec_set_account(
    s: Seq<(Address, Account)>,
    a: Address,
    acc: Account,
) -> Seq<(Address, Account)>
    decreases s.len(),
{
    if s.len() == 0 {
        seq![(a, acc)]
    } else if spec_address_lt(a, s[0].0) {
        seq![(a, acc)] + s
    } else if s[0].0 == a {
        seq![(a, acc)] + s.drop_first()
    } else {
        seq![s[0]] + spec_set_account(s.drop_first(), a, acc)
    }
}

/// Storing an account changes exactly the entry under its address.
pub proof fn lemma_set_find(s: Seq<(Address, Account)>, a: Address, acc: Account, b: Address)
    ensures
        spec_find(spec_set_account(s, a, acc), b) == if b == a {
            Some(acc)
        } else {
            spec_find(s, b)
        },
    decreases s.len(),
{
    let r = spec_set_account(s, a, acc);
    if s.len() == 0 {
        assert(r == seq![(a, acc)]);
        assert(r.drop_first() =~= Seq::<(Address, Account)>::empty());
    } else if spec_address_lt(a, s[0].0) {
        assert(r.drop_first() =~= s);
    } else if s[0].0 == a {
        assert(r.drop_first() =~= s.drop_first());
        if b != a {
            lemma_address_order_total(a, s[0].0);
        }
    } else {
        lemma_set_find(s.drop_first(), a, acc, b);
        assert(r.drop_first() =~= spec_set_account(s.drop_first(), a, acc));
        assert(r[0] == s[0]);
    }
}

/// Storing an account adjusts the total by the difference at its address.
pub proof fn lemma_set_total(s: Seq<(Address, Account)>, a: Address, acc: Account)
    requires
        spec_sorted(s),
    ensures
        spec_total(spec_set_account(s, a, acc)) == spec_total(s) + acc.balance - spec_balance_of(
            s,
            a,
        ),
    decreases s.len(),
{
    let r = spec_set_account(s, a, acc);
    if s.len() == 0 {
        assert(r.drop_first() =~= Seq::<(Address, Account)>::empty());
        assert(spec_total(r.drop_first()) == 0);
        assert(spec_find(s, a) is None);
    } else if spec_address_lt(a, s[0].0) {
        assert(r.drop_first() =~= s);
        lemma_find_lt_head_none(s, a);
    } else if s[0].0 == a {
        assert(r.drop_first() =~= s.drop_first());
    } else {
        lemma_set_total(s.drop_first(), a, acc);
        assert(r.drop_first() =~= spec_set_account(s.drop_first(), a, acc));
        assert(r[0] == s[0]);
    }
}

/// In a sorted sequence an address below the head is absent.
proof fn lemma_find_lt_head_none(s: Seq<(Address, Account)>, a: Address)
    requires
        spec_sorted(s),
        s.len() > 0,
        spec_address_lt(a, s[0].0),
    ensures
        spec_find(s, a) is None,
    decreases s.len(),
{
    lemma_address_order_total(a, s[0].0);
    assert(s[0].0 != a);
    if s.len() > 1 {
        lemma_address_lt_trans(a, s[0].0, s[1].0);
        lemma_find_lt_head_none(s.drop_first(), a);
    } else {
        assert(s.drop_first().len() == 0);
        assert(spec_find(s.drop_first(), a) is None);
    }
}

/// The canonical address order is transitive.
pub proof fn lemma_address_lt_trans(x: Address, y: Address, z: Address)
    requires
        spec_address_lt(x, y),
        spec_address_lt(y, z),
    ensures
        spec_address_lt(x, z),
{
}

/// The head of the stored sequence keeps either the new or the old head key.
proof fn lemma_set_head(s: Seq<(Address, Account)>, a: Address, acc: Account)
    ensures
        spec_set_account(s, a, acc).len() >= 1,
        spec_set_account(s, a, acc).len() <= s.len() + 1,
        spec_set_account(s, a, acc)[0].0 == a || (s.len() > 0 && spec_set_account(s, a, acc)[0].0
            == s[0].0),
    decreases s.len(),
{
    if s.len() > 0 && !spec_address_lt(a, s[0].0) && s[0].0 != a {
        lemma_set_head(s.drop_first(), a, acc);
    }
}

/// Storing an account keeps the sequence sorted.
pub proof fn lemma_set_sorted(s: Seq<(Address, Account)>, a: Address, acc: Account)
    requires
        spec_sorted(s),
    ensures
        spec_sorted(spec_set_account(s, a, acc)),
    decreases s.len(),
{
    let r = spec_set_account(s, a, acc);
    if s.len() == 0 {
    } else if spec_address_lt(a, s[0].0) {
        assert(r.drop_first() =~= s);
    } else if s[0].0 == a {
        assert(r.drop_first() =~= s.drop_first());
        if s.len() > 1 {
            assert(spec_address_lt(s[0].0, s[1].0));
            assert(r[1] == s[1]);
        }
    } else {
        lemma_address_order_total(a, s[0].0);
        let tail = s.drop_first();
        lemma_set_sorted(tail, a, acc);
        lemma_set_head(tail, a, acc);
        assert(r.drop_first() =~= spec_set_account(tail, a, acc));
        if tail.len() > 0 {
            if spec_set_account(tail, a, acc)[0].0 == a {
                assert(spec_address_lt(s[0].0, a));
            } else {
                assert(spec_address_lt(s[0].0, tail[0].0));
            }
        }
    }
}

/// Every stored balance is at most the total of all balances.
pub proof fn lemma_total_ge_found(s: Seq<(Address, Account)>, a: Address)
    ensures
        spec_total(s) >= 0,
        spec_find(s, a) matches Some(acc) ==> spec_total(s) >= acc.balance,
    decreases s.len(),
{
    if s.len() > 0 {
        lemma_total_ge_found(s.drop_first(), a);
    }
}

/// The exact validation verdict for a raw payload against the given
/// accounts: the error the ledger reports, or `Ok` when the transfer is
/// applied. A transfer is valid when the payload decodes, a signer is
/// recovered, the signer has an account, the transaction carries the
/// signer's next nonce, and the amount is covered by the signer's balance.
pub open spec fn spec_apply_outcome(s: Seq<(Address, Account)>, payload: Seq<u8>) -> Result<
    (),
    RollupError,
> {
    if !spec_payload_well_formed(payload) {
        Err(RollupError::InvalidTransaction)
    } else {
        let t = spec_transaction_from_bytes(payload);
        match spec_recover(t, spec_payload_signature(payload)) {
            None => Err(RollupError::SignatureError),
            Some(sender) => match spec_find(s, sender) {
                None => Err(RollupError::InsufficientBalance { address: sender }),
                Some(acc) => if !(acc.nonce < u64::MAX && t.nonce == acc.nonce + 1) {
                    Err(
                        RollupError::InvalidNonce {
                            address: sender,
                            expected: spec_next_nonce(acc.nonce),
                            actual: t.nonce,
                        },
                    )
                } else if t.amount > acc.balance {
                    Err(RollupError::InsufficientBalance { address: sender })
                } else {
                    Ok(())
                },
            },
        }
    }
}

/// The nonce a sender must use next; saturated at the top of the range,
/// where no further transaction can be valid.
pub open spec fn spec_next_nonce(n: u64) -> u64 {
    if n == u64::MAX {
        u64::MAX
    } else {
        (n + 1) as u64
    }
}

/// The accounts after a payload is applied: unchanged when the payload is
/// rejected; otherwise the sender is debited and its nonce advanced, then
/// the destination (created at zero if absent) is credited.
pub open spec fn spec_apply_seq(s: Seq<(Address, Account)>, payload: Seq<u8>) -> Seq<
    (Address, Account),
> {
    if spec_apply_outcome(s, payload) is Err {
        s
    } else {
        let t = spec_transaction_from_bytes(payload);
        match spec_recover(t, spec_payload_signature(payload)) {
            Some(sender) => match spec_find(s, sender) {
                Some(acc) => {
                    let debited = spec_set_account(
                        s,
                        sender,
                        Account { balance: (acc.balance - t.amount) as u64, nonce: t.nonce },
                    );
                    let dst = match spec_find(debited, t.destination) {
                        Some(d) => d,
                        None => Account { balance: 0, nonce: 0 },
                    };
                    spec_set_account(
                        debited,
                        t.destination,
                        Account { balance: (dst.balance + t.amount) as u64, nonce: dst.nonce },
                    )
                },
                None => s,
            },
            None => s,
        }
    }
}

/// The accounts seeded from a list of initial balances, applied in order:
/// a later entry for the same address replaces the earlier one, and every
/// seeded account starts at nonce zero.
pub open spec fn spec_seed_accounts(l: Seq<(Address, u64)>) -> Seq<(Address, Account)>
    decreases l.len(),
{
    if l.len() == 0 {
        Seq::empty()
    } else {
        spec_set_account(
            spec_seed_accounts(l.drop_last()),
            l.last().0,
            Account { balance: l.last().1, nonce: 0 },
        )
    }
}

/// The sum of the amounts in a seed list.
pub open spec fn spec_sum_amounts(l: Seq<(Address, u64)>) -> int
    decreases l.len(),
{
    if l.len() == 0 {
        0
    } else {
        spec_sum_amounts(l.drop_last()) + l.last().1
    }
}

/// The canonical bytes of one account entry: address, balance, nonce.
pub open spec fn spec_entry_bytes(e: (Address, Account)) -> Seq<u8> {
    spec_address_bytes(e.0) + spec_u64_to_le_bytes(e.1.balance) + spec_u64_to_le_bytes(e.1.nonce)
}

/// The canonical bytes of the whole account sequence, in order.
pub open spec fn spec_entries_bytes(s: Seq<(Address, Account)>) -> Seq<u8>
    decreases s.len(),
{
    if s.len() == 0 {
        Seq::empty()
    } else {
        spec_entries_bytes(s.drop_last()) + spec_entry_bytes(s.last())
    }
}

/// The canonical bytes of an optional block hash: a presence byte, then the
/// hash when present.
pub open spec fn spec_opt_block_hash_bytes(h: Option<BlockHash>) -> Seq<u8> {
    match h {
        None => seq![0u8],
        Some(v) => seq![1u8] + spec_block_hash_bytes(v),
    }
}

/// The canonical bytes of an optional commitment, encoded likewise.
pub open spec fn spec_opt_commitment_bytes(c: Option<Commitment>) -> Seq<u8> {
    match c {
        None => seq![0u8],
        Some(v) => seq![1u8] + spec_commitment_bytes(v),
    }
}

/// The accounts after a whole block's payloads are applied in order.
pub open spec fn spec_apply_payloads(s: Seq<(Address, Account)>, ps: Seq<Seq<u8>>) -> Seq<
    (Address, Account),
>
    decreases ps.len(),
{
    if ps.len() == 0 {
        s
    } else {
        spec_apply_seq(spec_apply_payloads(s, ps.drop_last()), ps.last())
    }
}

/// The ledger of one rollup namespace.
pub struct State {
    accounts: Vec<(Address, Account)>,
    prev_state_commitment: Option<Commitment>,
    pub(crate) vm: RollupVM,
    block_hash: Option<BlockHash>,
}

impl State {
    /// The canonical account sequence.
    pub closed spec fn spec_accounts(self) -> Seq<(Address, Account)> {
        self.accounts@
    }

    /// The previous commitment in the hash chain, once a block has been
    /// executed.
    pub closed spec fn spec_prev_commitment(self) -> Option<Commitment> {
        self.prev_state_commitment
    }

    /// The hash of the most recent executed consensus block.
    pub closed spec fn spec_block_hash(self) -> Option<BlockHash> {
        self.block_hash
    }

    /// The namespace this ledger executes.
    pub closed spec fn spec_vm(self) -> RollupVM {
        self.vm
    }

    /// The ledger's invariant: the account sequence is canonical and the
    /// total of all balances fits in one balance word, so a credit of an
    /// amount covered by some balance can never overflow.
    pub open spec fn wf(self) -> bool {
        &&& spec_sorted(self.spec_accounts())
        &&& spec_total(self.spec_accounts()) <= u64::MAX
    }

    /// The balance of an address in this ledger.
    pub open spec fn spec_balance(self, a: Address) -> u64 {
        spec_balance_of(self.spec_accounts(), a)
    }

    /// The nonce of an address in this ledger.
    pub open spec fn spec_nonce(self, a: Address) -> u64 {
        spec_nonce_of(self.spec_accounts(), a)
    }

    /// Create a ledger seeded with initial balances, all nonces at zero,
    /// with no chain links yet.
    pub fn from_initial_balances(initial_balances: Vec<(Address, Amount)>, vm: RollupVM) -> (r:
        Self)
        requires
            spec_sum_amounts(initial_balances@) <= u64::MAX,
        ensures
            r.wf(),
            r.spec_accounts() == spec_seed_accounts(initial_balances@),
            r.spec_prev_commitment() is None,
            r.spec_block_hash() is None,
            r.spec_vm() == vm,
    {
        let mut state = State {
            accounts: Vec::new(),
            prev_state_commitment: None,
            vm,
            block_hash: None,
        };
        let l = initial_balances;
        let ghost lv = l@;
        proof {
            lemma_sum_amounts_grows(lv, 0);
            assert(lv.take(0) =~= Seq::<(Address, u64)>::empty());
        }
        let mut i: usize = 0;
        while i < l.len()
            invariant
                i <= lv.len(),
                l@ == lv,
                spec_sorted(state.accounts@),
                state.accounts@ == spec_seed_accounts(lv.take(i as int)),
                spec_total(state.accounts@) <= spec_sum_amounts(lv.take(i as int)),
                spec_sum_amounts(lv.take(i as int)) <= spec_sum_amounts(lv),
                state.prev_state_commitment is None,
                state.block_hash is None,
                state.vm == vm,
            decreases lv.len() - i,
        {
            let (addr, amount) = l[i];
            proof {
                let pre = lv.take(i as int);
                let post = lv.take(i as int + 1);
                assert(post.drop_last() =~= pre);
                assert(post.last() == lv[i as int]);
                lemma_set_sorted(state.accounts@, addr, Account { balance: amount, nonce: 0 });
                lemma_set_total(state.accounts@, addr, Account { balance: amount, nonce: 0 });
                lemma_sum_amounts_grows(lv, i as int + 1);
            }
            state.set_account(addr, Account { balance: amount, nonce: 0 });
            i += 1;
        }
        proof {
            assert(lv.take(lv.len() as int) =~= lv);
        }
        state
    }

    /// Fetch the balance of an address; unknown addresses hold zero.
    pub fn get_balance(&self, address: &Address) -> (r: Amount)
        ensures
            r == self.spec_balance(*address),
    {
        match self.find_account(address) {
            Some(acc) => acc.balance,
            None => 0,
        }
    }

    /// Fetch the nonce of an address; unknown addresses are at zero.
    pub fn get_nonce(&self, address: &Address) -> (r: Nonce)
        ensures
            r == self.spec_nonce(*address),
    {
        match self.find_account(address) {
            Some(acc) => acc.nonce,
            None => 0,
        }
    }

    /// Look up the account stored for an address.
    fn find_account(&self, a: &Address) -> (r: Option<Account>)
        ensures
            r == spec_find(self.accounts@, *a),
    {
        proof {
            assert(self.accounts@.skip(0) =~= self.accounts@);
        }
        let mut i: usize = 0;
        while i < self.accounts.len()
            invariant
                i <= self.accounts@.len(),
                spec_find(self.accounts@, *a) == spec_find(self.accounts@.skip(i as int), *a),
            decreases self.accounts@.len() - i,
        {
            proof {
                assert(self.accounts@.skip(i as int).drop_first() =~= self.accounts@.skip(
                    i as int + 1,
                ));
                assert(self.accounts@.skip(i as int)[0] == self.accounts@[i as int]);
            }
            if self.accounts[i].0 == *a {
                return Some(self.accounts[i].1);
            }
            i += 1;
        }
        proof {
            assert(self.accounts@.skip(self.accounts@.len() as int).len() == 0);
        }
        None
    }

    /// The first position whose key is not below `a` in the canonical order.
    fn lower_bound(&self, a: &Address) -> (i: usize)
        ensures
            i <= self.accounts@.len(),
            forall|k: int| 0 <= k < i ==> spec_address_lt(#[trigger] self.accounts@[k].0, *a),
            i < self.accounts@.len() ==> !spec_address_lt(self.accounts@[i as int].0, *a),
    {
        let mut i: usize = 0;
        while i < self.accounts.len()
            invariant
                i <= self.accounts@.len(),
                forall|k: int| 0 <= k < i ==> spec_address_lt(#[trigger] self.accounts@[k].0, *a),
            decreases self.accounts@.len() - i,
        {
            let key = self.accounts[i].0;
            if !address_lt(&key, a) {
                return i;
            }
            i += 1;
        }
        i
    }

    /// Store `acc` under `a`, replacing or inserting at the ordered place.
    fn set_account(&mut self, a: Address, acc: Account)
        requires
            spec_sorted(old(self).accounts@),
        ensures
            final(self).accounts@ == spec_set_account(old(self).accounts@, a, acc),
            final(self).prev_state_commitment == old(self).prev_state_commitment,
            final(self).block_hash == old(self).block_hash,
            final(self).vm == old(self).vm,
    {
        let ghost sv = self.accounts@;
        let i = self.lower_bound(&a);
        if i < self.accounts.len() && self.accounts[i].0 == a {
            self.accounts[i] = (a, acc);
            proof {
                lemma_set_account_is_update(sv, a, acc, i as int);
            }
        } else {
            proof {
                if i < sv.len() {
                    lemma_address_order_total(a, sv[i as int].0);
                }
                lemma_set_account_is_insert(sv, a, acc, i as int);
            }
            self.accounts.insert(i, (a, acc));
        }
    }

    /// Validate and apply one raw transaction payload. The payload must
    /// decode, recover a signer with an existing account, carry the
    /// signer's next nonce, and be covered by the signer's balance; any
    /// failure reports the exact error and leaves the ledger untouched.
    /// On success the sender is debited and its nonce advanced, the
    /// destination (created if absent) is credited, and the total of all
    /// balances is unchanged.
    pub fn apply_transaction(&mut self, payload: &[u8]) -> (r: Result<(), RollupError>)
        requires
            old(self).wf(),
        ensures
            final(self).wf(),
            r == spec_apply_outcome(old(self).spec_accounts(), payload@),
            final(self).spec_accounts() == spec_apply_seq(old(self).spec_accounts(), payload@),
            spec_total(final(self).spec_accounts()) == spec_total(old(self).spec_accounts()),
            final(self).spec_prev_commitment() == old(self).spec_prev_commitment(),
            final(self).spec_block_hash() == old(self).spec_block_hash(),
            final(self).spec_vm() == old(self).spec_vm(),
    {
        let ghost s0 = self.accounts@;
        let signed = match SignedTransaction::decode(payload) {
            Some(st) => st,
            None => {
                return Err(RollupError::InvalidTransaction);
            },
        };
        let sender = match signed.recover() {
            Ok(a) => a,
            Err(e) => {
                return Err(e);
            },
        };
        let acc = match self.find_account(&sender) {
            Some(acc) => acc,
            None => {
                return Err(RollupError::InsufficientBalance { address: sender });
            },
        };
        let t = signed.transaction;
        let expected = if acc.nonce == u64::MAX {
            u64::MAX
        } else {
            acc.nonce + 1
        };
        if !(acc.nonce < u64::MAX && t.nonce == expected) {
            return Err(
                RollupError::InvalidNonce { address: sender, expected, actual: t.nonce },
            );
        }
        if t.amount > acc.balance {
            return Err(RollupError::InsufficientBalance { address: sender });
        }
        let debited = Account { balance: acc.balance - t.amount, nonce: t.nonce };
        proof {
            lemma_set_sorted(s0, sender, debited);
            lemma_set_total(s0, sender, debited);
        }
        self.set_account(sender, debited);
        let ghost s1 = self.accounts@;
        let dst = match self.find_account(&t.destination) {
            Some(d) => d,
            None => Account { balance: 0, nonce: 0 },
        };
        proof {
            lemma_total_ge_found(s1, t.destination);
            lemma_set_find(s1, t.destination, dst, t.destination);
            let credited = Account { balance: (dst.balance + t.amount) as u64, nonce: dst.nonce };
            lemma_set_sorted(s1, t.destination, credited);
            lemma_set_total(s1, t.destination, credited);
        }
        let credited = Account { balance: dst.balance + t.amount, nonce: dst.nonce };
        self.set_account(t.destination, credited);
        Ok(())
    }

    /// The canonical commitment preimage: the chain links, then the account
    /// entries framed by their count, then the namespace, so that ledgers of
    /// different namespaces over identical accounts never share a preimage.
    pub open spec fn spec_preimage(self) -> Seq<u8> {
        spec_opt_block_hash_bytes(self.spec_block_hash()) + spec_opt_commitment_bytes(
            self.spec_prev_commitment(),
        ) + spec_u64_to_le_bytes(self.spec_accounts().len() as u64) + spec_entries_bytes(
            self.spec_accounts(),
        ) + spec_u64_to_le_bytes(self.spec_vm().0)
    }

    /// The ledger's commitment: a pure function of its logical state.
    pub open spec fn spec_commit(self) -> Commitment {
        spec_digest(self.spec_preimage())
    }

    /// Compute the commitment to the current state: the digest of the
    /// canonical preimage, deterministic across independent replicas.
    pub fn commit(&self) -> (r: Commitment)
        ensures
            r == self.spec_commit(),
    {
        let mut preimage: Vec<u8> = Vec::new();
        match &self.block_hash {
            None => preimage.push(0),
            Some(h) => {
                preimage.push(1);
                push_block_hash_bytes(&mut preimage, h);
            },
        }
        match &self.prev_state_commitment {
            None => preimage.push(0),
            Some(c) => {
                preimage.push(1);
                push_commitment_bytes(&mut preimage, c);
            },
        }
        proof {
            assert(preimage@ =~= spec_opt_block_hash_bytes(self.spec_block_hash())
                + spec_opt_commitment_bytes(self.spec_prev_commitment()));
        }
        let mut len_bytes = u64_to_le_bytes(self.accounts.len() as u64);
        preimage.append(&mut len_bytes);
        let ghost header = spec_opt_block_hash_bytes(self.spec_block_hash())
            + spec_opt_commitment_bytes(self.spec_prev_commitment()) + spec_u64_to_le_bytes(
            self.spec_accounts().len() as u64,
        );
        let mut i: usize = 0;
        while i < self.accounts.len()
            invariant
                i <= self.accounts@.len(),
                preimage@ == spec_opt_block_hash_bytes(self.spec_block_hash())
                    + spec_opt_commitment_bytes(self.spec_prev_commitment())
                    + spec_u64_to_le_bytes(self.accounts@.len() as u64) + spec_entries_bytes(
                    self.accounts@.take(i as int),
                ),
            decreases self.accounts@.len() - i,
        {
            let (addr, acc) = self.accounts[i];
            push_address_bytes(&mut preimage, &addr);
            let mut balance_bytes = u64_to_le_bytes(acc.balance);
            preimage.append(&mut balance_bytes);
            let mut nonce_bytes = u64_to_le_bytes(acc.nonce);
            preimage.append(&mut nonce_bytes);
            proof {
                let pre = self.accounts@.take(i as int);
                let post = self.accounts@.take(i as int + 1);
                assert(post.drop_last() =~= pre);
                assert(post.last() == self.accounts@[i as int]);
                assert(preimage@ =~= spec_opt_block_hash_bytes(self.spec_block_hash())
                    + spec_opt_commitment_bytes(self.spec_prev_commitment())
                    + spec_u64_to_le_bytes(self.accounts@.len() as u64) + spec_entries_bytes(
                    post,
                ));
            }
            i += 1;
        }
        let mut ns_bytes = u64_to_le_bytes(self.vm.0);
        preimage.append(&mut ns_bytes);
        proof {
            assert(self.accounts@.take(self.accounts@.len() as int) =~= self.accounts@);
            assert(preimage@ =~= self.spec_preimage());
        }
        digest(&preimage)
    }

    /// Execute one sequenced block: with a verified namespace-inclusion
    /// proof, apply each of the block's payloads (a rejected payload is
    /// skipped, never halting the block), record the chain links, and span
    /// the old and new commitments with a proof. Without the verification
    /// the block cannot be trusted: nothing is applied and no proof exists.
    pub fn execute_block(
        &mut self,
        payloads: &Vec<Vec<u8>>,
        block_hash: BlockHash,
        inclusion_verified: bool,
    ) -> (r: Option<Proof>)
        requires
            old(self).wf(),
        ensures
            final(self).wf(),
            spec_total(final(self).spec_accounts()) == spec_total(old(self).spec_accounts()),
            final(self).spec_vm() == old(self).spec_vm(),
            !inclusion_verified ==> r is None && final(self).spec_accounts() == old(
                self,
            ).spec_accounts() && final(self).spec_prev_commitment() == old(
                self,
            ).spec_prev_commitment() && final(self).spec_block_hash() == old(
                self,
            ).spec_block_hash(),
            inclusion_verified ==> {
                &&& final(self).spec_accounts() == spec_apply_payloads(
                    old(self).spec_accounts(),
                    payloads.deep_view(),
                )
                &&& final(self).spec_block_hash() == Some(block_hash)
                &&& final(self).spec_prev_commitment() == Some(old(self).spec_commit())
                &&& r == Some(
                    Proof {
                        block: block_hash,
                        old_state: old(self).spec_commit(),
                        new_state: final(self).spec_commit(),
                    },
                )
            },
    {
        if !inclusion_verified {
            return None;
        }
        let state_commitment = self.commit();
        let ghost s0 = self.accounts@;
        proof {
            assert(payloads.deep_view().take(0) =~= Seq::<Seq<u8>>::empty());
        }
        let mut i: usize = 0;
        while i < payloads.len()
            invariant
                i <= payloads@.len(),
                self.wf(),
                self.accounts@ == spec_apply_payloads(s0, payloads.deep_view().take(i as int)),
                spec_total(self.accounts@) == spec_total(s0),
                self.prev_state_commitment == old(self).prev_state_commitment,
                self.block_hash == old(self).block_hash,
                self.vm == old(self).vm,
            decreases payloads@.len() - i,
        {
            let _ = self.apply_transaction(payloads[i].as_slice());
            proof {
                let pre = payloads.deep_view().take(i as int);
                let post = payloads.deep_view().take(i as int + 1);
                assert(post.drop_last() =~= pre);
                assert(post.last() =~= payloads@[i as int]@);
            }
            i += 1;
        }
        proof {
            assert(payloads.deep_view().take(payloads@.len() as int) =~= payloads.deep_view());
        }
        self.block_hash = Some(block_hash);
        self.prev_state_commitment = Some(state_commitment);
        let new_commitment = self.commit();
        Proof::generate(block_hash, state_commitment, new_commitment, true)
    }
}

/// Two ledgers agree on their whole logical state.
pub open spec fn spec_state_eq(x: State, y: State) -> bool {
    &&& x.spec_accounts() == y.spec_accounts()
    &&& x.spec_prev_commitment() == y.spec_prev_commitment()
    &&& x.spec_block_hash() == y.spec_block_hash()
    &&& x.spec_vm() == y.spec_vm()
}

/// Commitment determinism: two ledgers that agree on their logical state
/// commit to the same value, however each was computed.
pub proof fn lemma_commit_deterministic(x: State, y: State)
    requires
        spec_state_eq(x, y),
    ensures
        x.spec_commit() == y.spec_commit(),
{
}

/// A rejected payload has no side effect at all: the accounts after the
/// attempt are exactly the accounts before it.
pub proof fn lemma_rejection_has_no_side_effects(s: Seq<(Address, Account)>, payload: Seq<u8>)
    ensures
        spec_apply_outcome(s, payload) is Err ==> spec_apply_seq(s, payload) == s,
{
}

/// What a successful transfer does to each account: the sender is debited
/// and its nonce advanced; the destination is credited, created at zero
/// first if absent, its nonce untouched; a transfer to oneself nets to an
/// unchanged balance; every other account is untouched.
pub proof fn lemma_apply_accounts(s: Seq<(Address, Account)>, payload: Seq<u8>, b: Address)
    requires
        spec_apply_outcome(s, payload) == Ok::<(), RollupError>(()),
    ensures
        ({
            let t = spec_transaction_from_bytes(payload);
            let sender = spec_recover(t, spec_payload_signature(payload))->Some_0;
            let acc = spec_find(s, sender)->Some_0;
            let s2 = spec_apply_seq(s, payload);
            &&& (b == sender && b == t.destination ==> spec_find(s2, b) == Some(
                Account { balance: acc.balance, nonce: t.nonce },
            ))
            &&& (b == sender && b != t.destination ==> spec_find(s2, b) == Some(
                Account { balance: (acc.balance - t.amount) as u64, nonce: t.nonce },
            ))
            &&& (b != sender && b == t.destination ==> spec_find(s2, b) == Some(
                Account {
                    balance: (spec_balance_of(s, b) + t.amount) as u64,
                    nonce: spec_nonce_of(s, b),
                },
            ))
            &&& (b != sender && b != t.destination ==> spec_find(s2, b) == spec_find(s, b))
        }),
{
    let t = spec_transaction_from_bytes(payload);
    let sig = spec_payload_signature(payload);
    let sender = spec_recover(t, sig)->Some_0;
    let acc = spec_find(s, sender)->Some_0;
    let debited = Account { balance: (acc.balance - t.amount) as u64, nonce: t.nonce };
    let s1 = spec_set_account(s, sender, debited);
    let dst = match spec_find(s1, t.destination) {
        Some(d) => d,
        None => Account { balance: 0, nonce: 0 },
    };
    let credited = Account { balance: (dst.balance + t.amount) as u64, nonce: dst.nonce };
    lemma_set_find(s, sender, debited, t.destination);
    lemma_set_find(s, sender, debited, b);
    lemma_set_find(s1, t.destination, credited, b);
}

/// Replay protection: a payload that was just applied successfully is
/// rejected with the nonce error when applied to the resulting ledger
/// again, because the sender's nonce has already advanced past it; the
/// replay leaves the ledger untouched.
pub proof fn lemma_replay_rejected(s: Seq<(Address, Account)>, payload: Seq<u8>)
    requires
        spec_apply_outcome(s, payload) == Ok::<(), RollupError>(()),
    ensures
        ({
            let t = spec_transaction_from_bytes(payload);
            let s2 = spec_apply_seq(s, payload);
            &&& spec_recover(t, spec_payload_signature(payload)) matches Some(sender)
                && spec_apply_outcome(s2, payload) == Err::<(), RollupError>(
                RollupError::InvalidNonce {
                    address: sender,
                    expected: spec_next_nonce(t.nonce),
                    actual: t.nonce,
                },
            )
            &&& spec_apply_seq(s2, payload) == s2
        }),
{
    let t = spec_transaction_from_bytes(payload);
    let sender = spec_recover(t, spec_payload_signature(payload))->Some_0;
    lemma_apply_accounts(s, payload, sender);
    assert(spec_find(spec_apply_seq(s, payload), sender) matches Some(a2) && a2.nonce == t.nonce);
}

/// A sorted-place update is exactly the canonical store.
proof fn lemma_set_account_is_update(s: Seq<(Address, Account)>, a: Address, acc: Account, i: int)
    requires
        0 <= i < s.len(),
        s[i].0 == a,
        forall|k: int| 0 <= k < i ==> spec_address_lt(#[trigger] s[k].0, a),
    ensures
        spec_set_account(s, a, acc) == s.update(i, (a, acc)),
    decreases i,
{
    if i == 0 {
        lemma_address_order_total(a, s[0].0);
        assert(spec_set_account(s, a, acc) =~= s.update(0, (a, acc)));
    } else {
        lemma_address_order_total(a, s[0].0);
        lemma_set_account_is_update(s.drop_first(), a, acc, i - 1);
        assert(spec_set_account(s, a, acc) =~= s.update(i, (a, acc)));
    }
}

/// A sorted-place insertion is exactly the canonical store.
proof fn lemma_set_account_is_insert(s: Seq<(Address, Account)>, a: Address, acc: Account, i: int)
    requires
        0 <= i <= s.len(),
        forall|k: int| 0 <= k < i ==> spec_address_lt(#[trigger] s[k].0, a),
        i < s.len() ==> spec_address_lt(a, s[i].0),
        i < s.len() ==> s[i].0 != a,
    ensures
        spec_set_account(s, a, acc) == s.insert(i, (a, acc)),
    decreases i,
{
    if i == 0 {
        if s.len() == 0 {
            assert(spec_set_account(s, a, acc) =~= s.insert(0, (a, acc)));
        } else {
            assert(spec_set_account(s, a, acc) =~= s.insert(0, (a, acc)));
        }
    } else {
        lemma_address_order_total(a, s[0].0);
        lemma_set_account_is_insert(s.drop_first(), a, acc, i - 1);
        assert(spec_set_account(s, a, acc) =~= s.insert(i, (a, acc)));
    }
}

/// Longer prefixes of a seed list never shrink the sum of amounts.
proof fn lemma_sum_amounts_grows(l: Seq<(Address, u64)>, i: int)
    requires
        0 <= i <= l.len(),
    ensures
        spec_sum_amounts(l.take(i)) <= spec_sum_amounts(l),
    decreases l.len() - i,
{
    if i < l.len() {
        lemma_sum_amounts_grows(l, i + 1);
        assert(l.take(i + 1).drop_last() =~= l.take(i));
        assert(l.take(i + 1).last() == l[i]);
    } else {
        assert(l.take(i) =~= l);
    }
}

} // verus!
