//! Account states (balances, nonces, code hashes) and their pending/committed storage.

use vstd::prelude::*;
use crate::address::ContractAddress;
use crate::assoc::{assoc_put, has_key, index_of, key_set, lemma_assoc_put, lemma_index_of_absent, lemma_index_of_at, lemma_key_set_finite_len, lemma_remove_at, lookup, unique_keys};
use crate::digest::zero_bytes;

verus! {

broadcast use ContractAddress::lemma_view_len;

/// Account state (for contracts and externally owned accounts).
#[derive(Debug, Clone, Copy)]
pub struct AccountState {
    /// Account nonce (for replay protection)
    pub nonce: u64,
    /// Account balance in sompis
    pub balance: u64,
    /// Code hash (zero for externally owned accounts)
    pub code_hash: crate::digest::Hash,
    /// Storage root (Merkle root of storage trie)
    pub storage_root: crate::digest::Hash,
}

/// The abstract content of an account.
pub struct AccountView {
    pub nonce: u64,
    pub balance: u64,
    pub code_hash: Seq<u8>,
    pub storage_root: Seq<u8>,
}

impl View for AccountState {
    type V = AccountView;

    open spec fn view(&self) -> AccountView {
        AccountView {
            nonce: self.nonce,
            balance: self.balance,
            code_hash: self.code_hash@,
            storage_root: self.storage_root@,
        }
    }
}

/// The account that has never been touched: all zero.
pub open spec fn empty_account() -> AccountView {
    AccountView { nonce: 0, balance: 0, code_hash: zero_bytes(32), storage_root: zero_bytes(32) }
}

/// An account is a contract when its code hash is not zero.
pub open spec fn account_is_contract(a: AccountView) -> bool {
    a.code_hash != zero_bytes(32)
}

/// An account is empty when it has no nonce, no balance and no code.
pub open spec fn account_is_empty(a: AccountView) -> bool {
    a.nonce == 0 && a.balance == 0 && a.code_hash == zero_bytes(32)
}

/// The account with its balance raised by `amount`, saturating.
pub open spec fn credited(a: AccountView, amount: u64) -> AccountView {
    AccountView {
        balance: (if a.balance + amount > u64::MAX { u64::MAX as int } else { a.balance + amount }) as u64,
        ..a
    }
}

/// The account with its balance lowered by `amount`.
pub open spec fn debited(a: AccountView, amount: u64) -> AccountView {
    AccountView { balance: (a.balance - amount) as u64, ..a }
}

impl AccountState {
    /// Creates an account state.
    pub fn new(
        nonce: u64,
        balance: u64,
        code_hash: crate::digest::Hash,
        storage_root: crate::digest::Hash,
    ) -> (r: Self)
        ensures
            r@ == (AccountView { nonce, balance, code_hash: code_hash@, storage_root: storage_root@ }),
    {
        AccountState { nonce, balance, code_hash, storage_root }
    }

    /// The empty account state.
    pub fn empty() -> (r: Self)
        ensures
            r@ == empty_account(),
    {
        AccountState {
            nonce: 0,
            balance: 0,
            code_hash: crate::digest::Hash::zero(),
            storage_root: crate::digest::Hash::zero(),
        }
    }

    /// An externally owned account holding `balance`.
    pub fn eoa(balance: u64) -> (r: Self)
        ensures
            r@ == (AccountView { balance, ..empty_account() }),
    {
        AccountState {
            nonce: 0,
            balance,
            code_hash: crate::digest::Hash::zero(),
            storage_root: crate::digest::Hash::zero(),
        }
    }

    /// Whether this is a contract account.
    pub fn is_contract(&self) -> (r: bool)
        ensures
            r == account_is_contract(self@),
    {
        !self.code_hash.is_zero()
    }

    /// Whether this account is empty (no balance, no nonce, no code).
    pub fn is_empty(&self) -> (r: bool)
        ensures
            r == account_is_empty(self@),
    {
        self.nonce == 0 && self.balance == 0 && self.code_hash.is_zero()
    }

    /// Increments the nonce, saturating.
    pub fn increment_nonce(&mut self)
        ensures
            final(self)@ == (AccountView {
                nonce: (if old(self).nonce == u64::MAX { u64::MAX as int } else { old(self).nonce + 1 }) as u64,
                ..old(self)@
            }),
    {
        self.nonce = self.nonce.saturating_add(1);
    }

    /// Adds to the balance, saturating.
    pub fn add_balance(&mut self, amount: u64)
        ensures
            final(self)@ == credited(old(self)@, amount),
    {
        self.balance = self.balance.saturating_add(amount);
    }

    /// Subtracts from the balance; fails, changing nothing, when the balance is too small.
    pub fn sub_balance(&mut self, amount: u64) -> (r: Result<(), ()>)
        ensures
            r is Ok <==> old(self).balance >= amount,
            r is Ok ==> final(self)@ == debited(old(self)@, amount),
            r is Err ==> final(self)@ == old(self)@,
    {
        if self.balance >= amount {
            self.balance = self.balance - amount;
            Ok(())
        } else {
            Err(())
        }
    }
}

impl Default for AccountState {
    fn default() -> (r: Self)
        ensures
            r@ == empty_account(),
    {
        Self::empty()
    }
}

/// The views of address/account pairs.
pub open spec fn accounts_view_of(v: Seq<(ContractAddress, AccountState)>) -> Seq<(Seq<u8>, AccountView)> {
    v.map_values(|p: (ContractAddress, AccountState)| (p.0@, p.1@))
}

/// The account an address has: its pending state, else its committed state, else empty.
pub open spec fn account_get(committed: Seq<(Seq<u8>, AccountView)>, pending: Seq<(Seq<u8>, AccountView)>, a: Seq<u8>) -> AccountView {
    match lookup(pending, a) {
        Some(s) => s,
        None => match lookup(committed, a) {
            Some(s) => s,
            None => empty_account(),
        },
    }
}

/// The committed account of `a` after a commit: a pending empty account is deleted,
/// a pending non-empty one replaces the committed one.
pub open spec fn committed_after(committed: Seq<(Seq<u8>, AccountView)>, pending: Seq<(Seq<u8>, AccountView)>, a: Seq<u8>) -> Option<AccountView> {
    match lookup(pending, a) {
        Some(s) => if account_is_empty(s) { None } else { Some(s) },
        None => lookup(committed, a),
    }
}

/// How many accounts exist after committing `pending` over `committed`, counted the
/// way `count` counts: each pending account not yet committed and not empty adds
/// one, each committed account whose pending state is empty removes one.
pub open spec fn count_spec(committed: Seq<(Seq<u8>, AccountView)>, pending: Seq<(Seq<u8>, AccountView)>) -> int
    decreases pending.len(),
{
    if pending.len() == 0 {
        committed.len() as int
    } else {
        let (a, s) = pending.last();
        count_spec(committed, pending.drop_last()) + if !has_key(committed, a) && !account_is_empty(s) {
            1int
        } else if has_key(committed, a) && account_is_empty(s) {
            -1int
        } else {
            0int
        }
    }
}

/// `after` is `before` with its pending changes committed.
pub open spec fn account_commit_effect(before: AccountStorage, after: AccountStorage) -> bool {
    &&& after.wf()
    &&& after.pending_view().len() == 0
    &&& forall|a: Seq<u8>| #[trigger] lookup(after.committed_view(), a)
        == committed_after(before.committed_view(), before.pending_view(), a)
    &&& after.committed_view().len() == count_spec(before.committed_view(), before.pending_view())
}

/// `after` is `before` with its pending changes dropped.
pub open spec fn account_rollback_effect(before: AccountStorage, after: AccountStorage) -> bool {
    &&& after.wf()
    &&& after.committed_view() == before.committed_view()
    &&& after.pending_view().len() == 0
}

/// Storage for account states: committed states and pending changes.
pub struct AccountStorage {
    accounts: Vec<(ContractAddress, AccountState)>,
    pending: Vec<(ContractAddress, AccountState)>,
}

impl AccountStorage {
    /// The committed accounts.
    pub closed spec fn committed_view(&self) -> Seq<(Seq<u8>, AccountView)> {
        accounts_view_of(self.accounts@)
    }

    /// The pending account changes.
    pub closed spec fn pending_view(&self) -> Seq<(Seq<u8>, AccountView)> {
        accounts_view_of(self.pending@)
    }

    /// Addresses are distinct in both tables.
    pub closed spec fn wf(&self) -> bool {
        unique_keys(self.committed_view()) && unique_keys(self.pending_view())
    }

    /// Well-formedness gives distinct addresses in both tables.
    pub proof fn lemma_wf_keys(&self)
        requires
            self.wf(),
        ensures
            unique_keys(self.committed_view()),
            unique_keys(self.pending_view()),
    {
    }

    /// The account that `get` returns for `a`.
    pub open spec fn get_spec(&self, a: Seq<u8>) -> AccountView {
        account_get(self.committed_view(), self.pending_view(), a)
    }

    /// Creates an empty account storage.
    pub fn new() -> (r: Self)
        ensures
            r.wf(),
            r.committed_view().len() == 0,
            r.pending_view().len() == 0,
    {
        let r = AccountStorage { accounts: Vec::new(), pending: Vec::new() };
        assert(r.committed_view() =~= Seq::<(Seq<u8>, AccountView)>::empty());
        assert(r.pending_view() =~= Seq::<(Seq<u8>, AccountView)>::empty());
        r
    }

    fn find(v: &Vec<(ContractAddress, AccountState)>, address: &ContractAddress) -> (r: Option<usize>)
        requires
            unique_keys(accounts_view_of(v@)),
        ensures
            match r {
                Some(i) => i < v@.len() && v@[i as int].0@ == address@ && has_key(accounts_view_of(v@), address@)
                    && index_of(accounts_view_of(v@), address@) == i
                    && lookup(accounts_view_of(v@), address@) == Some(v@[i as int].1@),
                None => !has_key(accounts_view_of(v@), address@) && lookup(accounts_view_of(v@), address@) is None,
            },
    {
        let mut i: usize = 0;
        while i < v.len()
            invariant
                unique_keys(accounts_view_of(v@)),
                i <= v@.len(),
                forall|j: int| 0 <= j < i ==> v@[j].0@ != address@,
            decreases v@.len() - i,
        {
            if v[i].0.equals(address) {
                proof {
                    assert(accounts_view_of(v@)[i as int].0 == address@);
                    lemma_index_of_at(accounts_view_of(v@), i as int);
                }
                return Some(i);
            }
            i = i + 1;
        }
        proof {
            assert forall|j: int| 0 <= j < accounts_view_of(v@).len() implies accounts_view_of(v@)[j].0 != address@ by {
                assert(accounts_view_of(v@)[j].0 == v@[j].0@);
            }
            lemma_index_of_absent(accounts_view_of(v@), address@);
        }
        None
    }

    fn put(v: &mut Vec<(ContractAddress, AccountState)>, address: ContractAddress, state: AccountState)
        requires
            unique_keys(accounts_view_of(old(v)@)),
        ensures
            accounts_view_of(final(v)@) == assoc_put(accounts_view_of(old(v)@), address@, state@),
            unique_keys(accounts_view_of(final(v)@)),
    {
        let ghost e = accounts_view_of(v@);
        proof {
            lemma_assoc_put(e, address@, state@);
        }
        match Self::find(v, &address) {
            Some(i) => {
                v.set(i, (address, state));
                assert(accounts_view_of(v@) =~= e.update(i as int, (address@, state@)));
            },
            None => {
                v.push((address, state));
                assert(accounts_view_of(v@) =~= e.push((address@, state@)));
            },
        }
    }

    /// The account of `address`: pending changes first, then committed state, else empty.
    pub fn get(&self, address: &ContractAddress) -> (r: AccountState)
        requires
            self.wf(),
        ensures
            r@ == self.get_spec(address@),
    {
        match Self::find(&self.pending, address) {
            Some(i) => self.pending[i].1,
            None => match Self::find(&self.accounts, address) {
                Some(i) => self.accounts[i].1,
                None => AccountState::default(),
            },
        }
    }

    /// Records a pending account state (visible to reads, kept until commit or rollback).
    pub fn update(&mut self, address: ContractAddress, state: AccountState)
        requires
            old(self).wf(),
        ensures
            final(self).wf(),
            final(self).committed_view() == old(self).committed_view(),
            final(self).pending_view() == assoc_put(old(self).pending_view(), address@, state@),
    {
        Self::put(&mut self.pending, address, state);
    }

    /// Whether the account of `address` is not empty.
    pub fn account_exists(&self, address: &ContractAddress) -> (r: bool)
        requires
            self.wf(),
        ensures
            r == !account_is_empty(self.get_spec(address@)),
    {
        match Self::find(&self.pending, address) {
            Some(i) => !self.pending[i].1.is_empty(),
            None => match Self::find(&self.accounts, address) {
                Some(i) => !self.accounts[i].1.is_empty(),
                None => false,
            },
        }
    }

    /// The balance of an account.
    pub fn balance(&self, address: &ContractAddress) -> (r: u64)
        requires
            self.wf(),
        ensures
            r == self.get_spec(address@).balance,
    {
        self.get(address).balance
    }

    /// The nonce of an account.
    pub fn nonce(&self, address: &ContractAddress) -> (r: u64)
        requires
            self.wf(),
        ensures
            r == self.get_spec(address@).nonce,
    {
        self.get(address).nonce
    }

    /// Moves `amount` from `from` to `to` as pending changes. The credit is computed
    /// from the state `to` had before the debit, so a transfer to oneself credits
    /// the original state. Fails, changing nothing, when `from` holds too little.
    pub fn transfer(&mut self, from: &ContractAddress, to: &ContractAddress, amount: u64) -> (r: Result<(), ()>)
        requires
            old(self).wf(),
        ensures
            final(self).wf(),
            final(self).committed_view() == old(self).committed_view(),
            r is Ok <==> old(self).get_spec(from@).balance >= amount,
            r is Err ==> final(self).pending_view() == old(self).pending_view(),
            r is Ok ==> final(self).pending_view() == assoc_put(
                assoc_put(old(self).pending_view(), from@, debited(old(self).get_spec(from@), amount)),
                to@,
                credited(old(self).get_spec(to@), amount),
            ),
    {
        let mut from_state = self.get(from);
        match from_state.sub_balance(amount) {
            Ok(()) => {},
            Err(()) => {
                return Err(());
            },
        }
        let mut to_state = self.get(to);
        to_state.add_balance(amount);
        self.update(*from, from_state);
        self.update(*to, to_state);
        Ok(())
    }

    /// Applies the pending changes: empty accounts are deleted, others replace the
    /// committed state; nothing is pending afterwards.
    pub fn commit(&mut self)
        requires
            old(self).wf(),
        ensures
            final(self).wf(),
            final(self).pending_view().len() == 0,
            forall|a: Seq<u8>| #[trigger] lookup(final(self).committed_view(), a)
                == committed_after(old(self).committed_view(), old(self).pending_view(), a),
            final(self).committed_view().len() == count_spec(old(self).committed_view(), old(self).pending_view()),
    {
        let ghost acc0 = self.committed_view();
        let ghost pend = self.pending_view();
        let n = self.pending.len();
        let mut i: usize = 0;
        while i < n
            invariant
                n == pend.len(),
                pend == accounts_view_of(self.pending@),
                unique_keys(pend),
                unique_keys(acc0),
                i <= n,
                unique_keys(accounts_view_of(self.accounts@)),
                forall|a: Seq<u8>| #[trigger] lookup(accounts_view_of(self.accounts@), a)
                    == committed_after(acc0, pend.subrange(0, i as int), a),
                accounts_view_of(self.accounts@).len() == count_spec(acc0, pend.subrange(0, i as int)),
            decreases n - i,
        {
            let (address, state) = self.pending[i];
            let ghost cur = accounts_view_of(self.accounts@);
            let ghost sub = pend.subrange(0, i as int);
            let ghost sub1 = pend.subrange(0, i + 1);
            proof {
                assert(pend[i as int] == (address@, state@));
                assert(sub1.drop_last() =~= sub);
                assert(sub1.last() == (address@, state@));
                // The key of this pending entry does not occur earlier in the pending list.
                assert forall|j: int| 0 <= j < sub.len() implies sub[j].0 != address@ by {
                    assert(pend[j].0 != pend[i as int].0);
                }
                lemma_index_of_absent(sub, address@);
                assert(lookup(cur, address@) == lookup(acc0, address@));
                assert(has_key(cur, address@) == has_key(acc0, address@)) by {
                    if has_key(cur, address@) {
                        let k = index_of(cur, address@);
                        lemma_index_of_at(cur, k);
                    }
                    if has_key(acc0, address@) {
                        let k = index_of(acc0, address@);
                        lemma_index_of_at(acc0, k);
                    }
                }
                assert forall|a: Seq<u8>| a != address@ implies #[trigger] lookup(sub1, a) == lookup(sub, a) by {
                    if has_key(sub1, a) {
                        let k = index_of(sub1, a);
                        lemma_index_of_at(sub1, k);
                        assert(k < sub.len());
                        assert(sub[k] == sub1[k]);
                        lemma_index_of_at(sub, k);
                    } else {
                        assert forall|k: int| 0 <= k < sub.len() implies sub[k].0 != a by {
                            assert(sub1[k] == sub[k]);
                        }
                        lemma_index_of_absent(sub, a);
                    }
                }
                lemma_index_of_at(sub1, i as int);
            }
            if state.is_empty() {
                match Self::find(&self.accounts, &address) {
                    Some(k) => {
                        let ghost before = accounts_view_of(self.accounts@);
                        self.accounts.remove(k);
                        proof {
                            assert(accounts_view_of(self.accounts@) =~= before.remove(k as int));
                            lemma_remove_at(before, k as int);
                        }
                    },
                    None => {},
                }
            } else {
                Self::put(&mut self.accounts, address, state);
                proof {
                    lemma_assoc_put(cur, address@, state@);
                    if has_key(cur, address@) {
                        let k = index_of(cur, address@);
                        lemma_index_of_at(cur, k);
                        assert(assoc_put(cur, address@, state@).len() == cur.len());
                    } else {
                        assert(index_of(cur, address@) == -1);
                    }
                }
            }
            i = i + 1;
        }
        proof {
            assert(pend.subrange(0, n as int) =~= pend);
        }
        self.pending = Vec::new();
        proof {
            assert(self.pending_view() =~= Seq::<(Seq<u8>, AccountView)>::empty());
        }
    }

    /// Discards the pending changes.
    pub fn rollback(&mut self)
        requires
            old(self).wf(),
        ensures
            final(self).wf(),
            final(self).committed_view() == old(self).committed_view(),
            final(self).pending_view().len() == 0,
    {
        self.pending = Vec::new();
        proof {
            assert(self.pending_view() =~= Seq::<(Seq<u8>, AccountView)>::empty());
        }
    }

    /// The number of accounts there will be once the pending changes are committed.
    pub fn count(&self) -> (r: usize)
        requires
            self.wf(),
            self.committed_view().len() + self.pending_view().len() <= usize::MAX,
        ensures
            r == count_spec(self.committed_view(), self.pending_view()),
    {
        let ghost acc = self.committed_view();
        let ghost pend = self.pending_view();
        let mut count = self.accounts.len();
        let n = self.pending.len();
        let mut i: usize = 0;
        while i < n
            invariant
                self.wf(),
                acc == self.committed_view(),
                pend == self.pending_view(),
                n == pend.len(),
                acc.len() + n <= usize::MAX,
                i <= n,
                count == count_spec(acc, pend.subrange(0, i as int)),
                0 <= count_spec(acc, pend.subrange(0, i as int)) <= acc.len() + i,
                count_spec(acc, pend.subrange(0, i as int)) >= acc.len() - key_removals(acc, pend.subrange(0, i as int)),
            decreases n - i,
        {
            let (address, state) = self.pending[i];
            proof {
                assert(pend[i as int] == (address@, state@));
                assert(pend.subrange(0, i + 1).drop_last() =~= pend.subrange(0, i as int));
                assert(pend.subrange(0, i + 1).last() == (address@, state@));
            }
            let in_accounts = Self::find(&self.accounts, &address).is_some();
            let empty = state.is_empty();
            if !in_accounts && !empty {
                count = count + 1;
            } else if in_accounts && empty {
                proof {
                    lemma_removals_bound(acc, pend, i as int);
                }
                count = count - 1;
            }
            i = i + 1;
        }
        assert(pend.subrange(0, n as int) =~= pend);
        count
    }

    /// Whether `address` holds a contract.
    pub fn is_contract(&self, address: &ContractAddress) -> (r: bool)
        requires
            self.wf(),
        ensures
            r == account_is_contract(self.get_spec(address@)),
    {
        self.get(address).is_contract()
    }
}

/// How many of the pending entries delete a committed account.
pub open spec fn key_removals(committed: Seq<(Seq<u8>, AccountView)>, pending: Seq<(Seq<u8>, AccountView)>) -> int
    decreases pending.len(),
{
    if pending.len() == 0 {
        0
    } else {
        let (a, s) = pending.last();
        key_removals(committed, pending.drop_last()) + if has_key(committed, a) && account_is_empty(s) { 1int } else { 0int }
    }
}

/// Deletions hit distinct committed accounts, so there are fewer of them than committed accounts.
proof fn lemma_removals_bound(committed: Seq<(Seq<u8>, AccountView)>, pending: Seq<(Seq<u8>, AccountView)>, i: int)
    requires
        unique_keys(committed),
        unique_keys(pending),
        0 <= i < pending.len(),
        has_key(committed, pending[i].0),
        account_is_empty(pending[i].1),
    ensures
        key_removals(committed, pending.subrange(0, i)) < committed.len(),
{
    let sub = pending.subrange(0, i);
    let removed = removed_keys(committed, sub);
    lemma_removed_keys(committed, sub);
    assert(unique_keys(sub)) by {
        assert forall|a: int, b: int| 0 <= a < sub.len() && 0 <= b < sub.len() && a != b implies #[trigger] sub[a].0
            != #[trigger] sub[b].0 by {
            assert(pending[a].0 != pending[b].0);
        }
    }
    lemma_removed_keys(committed, sub);
    // The i-th key is committed but not among the removed ones.
    let k = pending[i].0;
    assert(!removed.contains(k)) by {
        if removed.contains(k) {
            let j = choose|j: int| 0 <= j < sub.len() && #[trigger] sub[j].0 == k;
            assert(pending[j].0 == pending[i].0);
        }
    }
    assert(key_set(committed).contains(k));
    lemma_key_set_finite_len(committed);
    vstd::set_lib::lemma_len_subset(removed.insert(k), key_set(committed));
}

/// The committed keys that the pending entries delete.
spec fn removed_keys(committed: Seq<(Seq<u8>, AccountView)>, pending: Seq<(Seq<u8>, AccountView)>) -> Set<Seq<u8>> {
    Set::new(|a: Seq<u8>| exists|j: int| 0 <= j < pending.len() && #[trigger] pending[j].0 == a && has_key(committed, a) && account_is_empty(pending[j].1))
}

proof fn lemma_removed_keys(committed: Seq<(Seq<u8>, AccountView)>, pending: Seq<(Seq<u8>, AccountView)>)
    requires
        unique_keys(pending),
    ensures
        removed_keys(committed, pending).finite(),
        removed_keys(committed, pending).len() == key_removals(committed, pending),
        removed_keys(committed, pending).subset_of(key_set(committed)),
    decreases pending.len(),
{
    let r = removed_keys(committed, pending);
    if pending.len() == 0 {
        assert(r =~= Set::<Seq<u8>>::empty());
    } else {
        let p = pending.drop_last();
        let (a, s) = pending.last();
        assert(unique_keys(p)) by {
            assert forall|x: int, y: int| 0 <= x < p.len() && 0 <= y < p.len() && x != y implies #[trigger] p[x].0
                != #[trigger] p[y].0 by {
                assert(pending[x].0 != pending[y].0);
            }
        }
        lemma_removed_keys(committed, p);
        let rp = removed_keys(committed, p);
        assert(!rp.contains(a)) by {
            if rp.contains(a) {
                let j = choose|j: int| 0 <= j < p.len() && #[trigger] p[j].0 == a && has_key(committed, a) && account_is_empty(p[j].1);
                assert(pending[j].0 == pending[pending.len() - 1].0);
            }
        }
        if has_key(committed, a) && account_is_empty(s) {
            assert(r =~= rp.insert(a)) by {
                assert forall|x: Seq<u8>| r.contains(x) implies rp.insert(a).contains(x) by {
                    if r.contains(x) {
                        let j = choose|j: int| 0 <= j < pending.len() && #[trigger] pending[j].0 == x && has_key(committed, x) && account_is_empty(pending[j].1);
                        if j < p.len() {
                            assert(p[j] == pending[j]);
                        }
                    }
                }
                assert forall|x: Seq<u8>| rp.insert(a).contains(x) implies r.contains(x) by {
                    if rp.contains(x) {
                        let j = choose|j: int| 0 <= j < p.len() && #[trigger] p[j].0 == x && has_key(committed, x) && account_is_empty(p[j].1);
                        assert(pending[j] == p[j]);
                    }
                    if x == a {
                        assert(pending[pending.len() - 1].0 == a);
                    }
                }
            }
        } else {
            assert(r =~= rp) by {
                assert forall|x: Seq<u8>| r.contains(x) implies rp.contains(x) by {
                    if r.contains(x) {
                        let j = choose|j: int| 0 <= j < pending.len() && #[trigger] pending[j].0 == x && has_key(committed, x) && account_is_empty(pending[j].1);
                        if j < p.len() {
                            assert(p[j] == pending[j]);
                        }
                    }
                }
                assert forall|x: Seq<u8>| rp.contains(x) implies r.contains(x) by {
                    if rp.contains(x) {
                        let j = choose|j: int| 0 <= j < p.len() && #[trigger] p[j].0 == x && has_key(committed, x) && account_is_empty(p[j].1);
                        assert(pending[j] == p[j]);
                    }
                }
            }
        }
        assert forall|x: Seq<u8>| r.contains(x) implies key_set(committed).contains(x) by {}
    }
}

/// An update is visible to reads at once: the updated address reads the new
/// state, every other address reads what it read before.
pub proof fn lemma_account_read_after_update(
    committed: Seq<(Seq<u8>, AccountView)>,
    pending: Seq<(Seq<u8>, AccountView)>,
    a: Seq<u8>,
    s: AccountView,
    b: Seq<u8>,
)
    requires
        unique_keys(pending),
    ensures
        account_get(committed, assoc_put(pending, a, s), b) == if b == a { s } else { account_get(committed, pending, b) },
{
    lemma_assoc_put(pending, a, s);
}

/// After a rollback, an address reads its committed state, or the empty account.
pub proof fn lemma_account_read_after_rollback(committed: Seq<(Seq<u8>, AccountView)>, b: Seq<u8>)
    ensures
        account_get(committed, Seq::empty(), b) == match lookup(committed, b) {
            Some(s) => s,
            None => empty_account(),
        },
{
    lemma_index_of_absent(Seq::<(Seq<u8>, AccountView)>::empty(), b);
}

/// A commit keeps what every address reads, except that an address whose pending
/// state is empty is deleted and reads the empty account.
pub proof fn lemma_account_read_after_commit(
    committed: Seq<(Seq<u8>, AccountView)>,
    pending: Seq<(Seq<u8>, AccountView)>,
    after: Seq<(Seq<u8>, AccountView)>,
    b: Seq<u8>,
)
    requires
        forall|a: Seq<u8>| #[trigger] lookup(after, a) == committed_after(committed, pending, a),
    ensures
        account_get(after, Seq::empty(), b) == match lookup(pending, b) {
            Some(s) => if account_is_empty(s) { empty_account() } else { s },
            None => account_get(committed, pending, b),
        },
{
    lemma_index_of_absent(Seq::<(Seq<u8>, AccountView)>::empty(), b);
    assert(lookup(after, b) == committed_after(committed, pending, b));
}

/// An account that has a nonce, a balance or code is not empty.
pub proof fn lemma_account_in_use_not_empty(a: AccountView)
    requires
        a.nonce != 0 || a.balance != 0 || a.code_hash != zero_bytes(32),
    ensures
        !account_is_empty(a),
{
}

/// A commit never changes the nonce, balance or code hash any address reads:
/// it only deletes accounts that have none of them.
pub proof fn lemma_commit_keeps_accounts(before: AccountStorage, after: AccountStorage, b: Seq<u8>)
    requires
        account_commit_effect(before, after),
    ensures
        after.get_spec(b).nonce == before.get_spec(b).nonce,
        after.get_spec(b).balance == before.get_spec(b).balance,
        after.get_spec(b).code_hash == before.get_spec(b).code_hash,
        !account_is_empty(before.get_spec(b)) ==> after.get_spec(b) == before.get_spec(b),
{
    assert(after.pending_view() =~= Seq::<(Seq<u8>, AccountView)>::empty());
    lemma_account_read_after_commit(before.committed_view(), before.pending_view(), after.committed_view(), b);
}

/// A transfer between two different accounts moves the amount without creating
/// or destroying any: the two balances keep their sum (when the receiver's
/// balance does not saturate) and every other account reads what it read.
pub proof fn lemma_transfer_conserves(
    committed: Seq<(Seq<u8>, AccountView)>,
    pending: Seq<(Seq<u8>, AccountView)>,
    from: Seq<u8>,
    to: Seq<u8>,
    amount: u64,
    other: Seq<u8>,
)
    requires
        unique_keys(pending),
        from != to,
        account_get(committed, pending, from).balance >= amount,
        account_get(committed, pending, to).balance + amount <= u64::MAX,
    ensures
        ({
            let p1 = assoc_put(pending, from, debited(account_get(committed, pending, from), amount));
            let p2 = assoc_put(p1, to, credited(account_get(committed, pending, to), amount));
            &&& account_get(committed, p2, from).balance + account_get(committed, p2, to).balance
                == account_get(committed, pending, from).balance + account_get(committed, pending, to).balance
            &&& account_get(committed, p2, from).balance == account_get(committed, pending, from).balance - amount
            &&& account_get(committed, p2, to).balance == account_get(committed, pending, to).balance + amount
            &&& (other != from && other != to ==> account_get(committed, p2, other) == account_get(committed, pending, other))
        }),
{
    let f0 = account_get(committed, pending, from);
    let t0 = account_get(committed, pending, to);
    let p1 = assoc_put(pending, from, debited(f0, amount));
    lemma_account_read_after_update(committed, pending, from, debited(f0, amount), from);
    lemma_account_read_after_update(committed, pending, from, debited(f0, amount), to);
    lemma_account_read_after_update(committed, pending, from, debited(f0, amount), other);
    lemma_assoc_put(pending, from, debited(f0, amount));
    lemma_account_read_after_update(committed, p1, to, credited(t0, amount), from);
    lemma_account_read_after_update(committed, p1, to, credited(t0, amount), to);
    lemma_account_read_after_update(committed, p1, to, credited(t0, amount), other);
}

impl Default for AccountStorage {
    fn default() -> (r: Self)
        ensures
            r.wf(),
            r.committed_view().len() == 0,
            r.pending_view().len() == 0,
    {
        Self::new()
    }
}

} // verus!
