//! Contract state storage: storage slots, the per-contract state cache and the
//! storage of all contracts with warm/cold access tracking.

use vstd::prelude::*;
use indexmap::IndexMap;
use crate::address::ContractAddress;
use crate::assoc::{assoc_put, has_key, index_of, lemma_assoc_put, lemma_index_of_absent, lemma_index_of_at, lemma_push_new, lemma_same_keys, lemma_update_value, lookup, unique_keys};
use crate::digest::{bytes32_eq, zero_bytes};

verus! {

broadcast use ContractAddress::lemma_view_len;

/// Storage key (32 bytes).
pub type StorageKey = [u8; 32];

/// Storage value (32 bytes).
pub type StorageValue = [u8; 32];

/// The zero storage value.
pub fn zero_value() -> (r: StorageValue)
    ensures
        r@ == zero_bytes(32),
{
    let r = [0u8; 32];
    assert(r@ =~= zero_bytes(32));
    r
}

/// A storage slot of a contract.
#[derive(Debug, Clone, Copy)]
pub struct StorageSlot {
    /// Current value
    pub value: StorageValue,
    /// Original value (for gas refund calculation)
    pub original: StorageValue,
    /// Whether this slot has been modified
    pub dirty: bool,
}

/// The abstract content of a storage slot.
pub struct SlotView {
    pub value: Seq<u8>,
    pub original: Seq<u8>,
    pub dirty: bool,
}

impl View for StorageSlot {
    type V = SlotView;

    open spec fn view(&self) -> SlotView {
        SlotView { value: self.value@, original: self.original@, dirty: self.dirty }
    }
}

/// A fresh slot holding zero.
pub open spec fn empty_slot_view() -> SlotView {
    SlotView { value: zero_bytes(32), original: zero_bytes(32), dirty: false }
}

/// Setting a slot: a different value replaces the current one and marks the slot dirty.
pub open spec fn slot_set_view(s: SlotView, v: Seq<u8>) -> SlotView {
    if s.value == v {
        s
    } else {
        SlotView { value: v, original: s.original, dirty: true }
    }
}

impl StorageSlot {
    /// A clean slot holding `value`.
    pub fn new(value: StorageValue) -> (r: Self)
        ensures
            r@ == (SlotView { value: value@, original: value@, dirty: false }),
    {
        StorageSlot { value, original: value, dirty: false }
    }

    /// A clean slot holding zero.
    pub fn empty() -> (r: Self)
        ensures
            r@ == empty_slot_view(),
    {
        Self::new(zero_value())
    }

    /// Sets a new value; the slot becomes dirty only when the value changes.
    pub fn set(&mut self, value: StorageValue)
        ensures
            final(self)@ == slot_set_view(old(self)@, value@),
    {
        if !bytes32_eq(&self.value, &value) {
            self.value = value;
            self.dirty = true;
        }
    }

    /// Whether the current value is zero.
    pub fn is_zero(&self) -> (r: bool)
        ensures
            r == (self.value@ == zero_bytes(32)),
    {
        let z = zero_value();
        bytes32_eq(&self.value, &z)
    }

    /// Whether the original value was zero.
    pub fn was_zero(&self) -> (r: bool)
        ensures
            r == (self.original@ == zero_bytes(32)),
    {
        let z = zero_value();
        bytes32_eq(&self.original, &z)
    }
}

impl Default for StorageSlot {
    fn default() -> (r: Self)
        ensures
            r@ == empty_slot_view(),
    {
        Self::empty()
    }
}

#[verifier::external_type_specification]
#[verifier::external_body]
#[verifier::reject_recursive_types(K)]
#[verifier::reject_recursive_types(V)]
#[verifier::reject_recursive_types(S)]
pub struct ExIndexMap<K, V, S>(IndexMap<K, V, S>);

/// The entries of a slot map, in insertion order.
pub uninterp spec fn slot_entries(m: IndexMap<StorageKey, StorageSlot>) -> Seq<(StorageKey, StorageSlot)>;

/// The abstract entries: key bytes and slot contents.
pub open spec fn entries_view(e: Seq<(StorageKey, StorageSlot)>) -> Seq<(Seq<u8>, SlotView)> {
    e.map_values(|p: (StorageKey, StorageSlot)| (p.0@, p.1@))
}

/// What `IndexMap::insert` does to the entries: an existing key keeps its
/// position and gets the new value; a new key is appended.
pub open spec fn slot_insert_spec(
    e: Seq<(StorageKey, StorageSlot)>,
    key: StorageKey,
    slot: StorageSlot,
) -> Seq<(StorageKey, StorageSlot)> {
    let i = index_of(entries_view(e), key@);
    if i >= 0 {
        e.update(i, (e[i].0, slot))
    } else {
        e.push((key, slot))
    }
}

/// Calls `IndexMap::new`: an empty map.
#[verifier::external_body]
fn slot_map_new() -> (r: IndexMap<StorageKey, StorageSlot>)
    ensures
        slot_entries(r).len() == 0,
{
    IndexMap::new()
}

/// Calls `IndexMap::len`: the number of entries.
#[verifier::external_body]
fn slot_map_len(m: &IndexMap<StorageKey, StorageSlot>) -> (r: usize)
    ensures
        r == slot_entries(*m).len(),
{
    m.len()
}

/// Calls `IndexMap::get_index_of`: the position of the entry whose key equals `key`.
#[verifier::external_body]
fn slot_map_index_of(m: &IndexMap<StorageKey, StorageSlot>, key: &StorageKey) -> (r: Option<usize>)
    ensures
        match r {
            Some(i) => i < slot_entries(*m).len() && slot_entries(*m)[i as int].0@ == key@,
            None => forall|j: int| 0 <= j < slot_entries(*m).len() ==> slot_entries(*m)[j].0@ != key@,
        },
{
    m.get_index_of(key)
}

/// Calls `IndexMap::get_index`: the key and slot at position `i`, copied out.
#[verifier::external_body]
fn slot_map_entry(m: &IndexMap<StorageKey, StorageSlot>, i: usize) -> (r: (StorageKey, StorageSlot))
    requires
        i < slot_entries(*m).len(),
    ensures
        r == slot_entries(*m)[i as int],
{
    let (k, v) = m.get_index(i).unwrap();
    (*k, *v)
}

/// Calls `IndexMap::insert`, discarding the value it replaced.
#[verifier::external_body]
fn slot_map_insert(m: &mut IndexMap<StorageKey, StorageSlot>, key: StorageKey, slot: StorageSlot)
    ensures
        slot_entries(*final(m)) == slot_insert_spec(slot_entries(*old(m)), key, slot),
{
    m.insert(key, slot);
}

/// Calls `IndexMap::get_index_mut` and overwrites the slot at position `i`.
#[verifier::external_body]
fn slot_map_set_at(m: &mut IndexMap<StorageKey, StorageSlot>, i: usize, slot: StorageSlot)
    requires
        i < slot_entries(*old(m)).len(),
    ensures
        slot_entries(*final(m)) == slot_entries(*old(m)).update(i as int, (slot_entries(*old(m))[i as int].0, slot)),
{
    *m.get_index_mut(i).unwrap().1 = slot;
}

/// Calls `IndexMap::clone`: the same entries in the same order.
#[verifier::external_body]
fn slot_map_clone(m: &IndexMap<StorageKey, StorageSlot>) -> (r: IndexMap<StorageKey, StorageSlot>)
    ensures
        slot_entries(r) == slot_entries(*m),
{
    m.clone()
}

/// The abstract content of a contract state: its slots in insertion order and its dirty flag.
pub struct StateView {
    pub slots: Seq<(Seq<u8>, SlotView)>,
    pub dirty: bool,
}

/// The current value under `k`, zero when there is no slot.
pub open spec fn state_get(v: StateView, k: Seq<u8>) -> Seq<u8> {
    match lookup(v.slots, k) {
        Some(s) => s.value,
        None => zero_bytes(32),
    }
}

/// The original value under `k`, zero when there is no slot.
pub open spec fn state_original(v: StateView, k: Seq<u8>) -> Seq<u8> {
    match lookup(v.slots, k) {
        Some(s) => s.original,
        None => zero_bytes(32),
    }
}

/// Setting `k` to `val`: the slot of `k` (a fresh zero slot when there is none) is
/// set, and the state becomes dirty.
pub open spec fn state_set(v: StateView, k: Seq<u8>, val: Seq<u8>) -> StateView {
    let i = index_of(v.slots, k);
    StateView {
        slots: if i >= 0 {
            v.slots.update(i, (k, slot_set_view(v.slots[i].1, val)))
        } else {
            v.slots.push((k, slot_set_view(empty_slot_view(), val)))
        },
        dirty: true,
    }
}

/// Loading `k` from persistent storage: its slot becomes a clean slot holding `val`.
pub open spec fn state_load(v: StateView, k: Seq<u8>, val: Seq<u8>) -> StateView {
    let i = index_of(v.slots, k);
    let s = SlotView { value: val, original: val, dirty: false };
    StateView { slots: if i >= 0 { v.slots.update(i, (k, s)) } else { v.slots.push((k, s)) }, dirty: v.dirty }
}

/// A slot after commit: its current value becomes its original.
pub open spec fn slot_committed(s: SlotView) -> SlotView {
    SlotView { value: s.value, original: s.value, dirty: false }
}

/// A slot after revert: its original value becomes current again.
pub open spec fn slot_reverted(s: SlotView) -> SlotView {
    SlotView { value: s.original, original: s.original, dirty: false }
}

/// All slots committed and the state clean.
pub open spec fn state_clear_dirty(v: StateView) -> StateView {
    StateView {
        slots: v.slots.map_values(|p: (Seq<u8>, SlotView)| (p.0, slot_committed(p.1))),
        dirty: false,
    }
}

/// All slots reverted and the state clean.
pub open spec fn state_revert(v: StateView) -> StateView {
    StateView {
        slots: v.slots.map_values(|p: (Seq<u8>, SlotView)| (p.0, slot_reverted(p.1))),
        dirty: false,
    }
}

/// The dirty slots, in insertion order.
pub open spec fn dirty_entries(e: Seq<(Seq<u8>, SlotView)>) -> Seq<(Seq<u8>, SlotView)>
    decreases e.len(),
{
    if e.len() == 0 {
        e
    } else if e.last().1.dirty {
        dirty_entries(e.drop_last()).push(e.last())
    } else {
        dirty_entries(e.drop_last())
    }
}

/// Every slot's current value is its original value.
pub open spec fn state_clean(v: StateView) -> bool {
    forall|i: int| 0 <= i < v.slots.len() ==> #[trigger] v.slots[i].1.value == v.slots[i].1.original
}

/// The cached storage of one contract.
#[derive(Debug)]
pub struct ContractState {
    slots: IndexMap<StorageKey, StorageSlot>,
    dirty: bool,
}

impl View for ContractState {
    type V = StateView;

    closed spec fn view(&self) -> StateView {
        StateView { slots: entries_view(slot_entries(self.slots)), dirty: self.dirty }
    }
}

proof fn lemma_entries_view_update(e: Seq<(StorageKey, StorageSlot)>, i: int, s: StorageSlot)
    requires
        0 <= i < e.len(),
    ensures
        entries_view(e.update(i, (e[i].0, s))) == entries_view(e).update(i, (e[i].0@, s@)),
{
    assert(entries_view(e.update(i, (e[i].0, s))) =~= entries_view(e).update(i, (e[i].0@, s@)));
}

proof fn lemma_entries_view_push(e: Seq<(StorageKey, StorageSlot)>, k: StorageKey, s: StorageSlot)
    ensures
        entries_view(e.push((k, s))) == entries_view(e).push((k@, s@)),
{
    assert(entries_view(e.push((k, s))) =~= entries_view(e).push((k@, s@)));
}

impl ContractState {
    /// Keys are distinct.
    pub closed spec fn wf(&self) -> bool {
        unique_keys(self@.slots)
    }

    /// An empty, clean state.
    pub fn new() -> (r: Self)
        ensures
            r.wf(),
            r@.slots.len() == 0,
            !r@.dirty,
    {
        ContractState { slots: slot_map_new(), dirty: false }
    }

    /// The current value under `key`, zero when the key was never set or loaded.
    pub fn get(&self, key: &StorageKey) -> (r: StorageValue)
        requires
            self.wf(),
        ensures
            r@ == state_get(self@, key@),
    {
        match slot_map_index_of(&self.slots, key) {
            Some(i) => {
                let (_, slot) = slot_map_entry(&self.slots, i);
                proof {
                    lemma_index_of_at(self@.slots, i as int);
                }
                slot.value
            },
            None => {
                proof {
                    lemma_index_of_absent(self@.slots, key@);
                }
                zero_value()
            },
        }
    }

    /// Sets `key` to `value` and marks the state dirty.
    pub fn set(&mut self, key: StorageKey, value: StorageValue)
        requires
            old(self).wf(),
        ensures
            final(self).wf(),
            final(self)@ == state_set(old(self)@, key@, value@),
    {
        match slot_map_index_of(&self.slots, &key) {
            Some(i) => {
                let (k, mut slot) = slot_map_entry(&self.slots, i);
                proof {
                    lemma_index_of_at(self@.slots, i as int);
                    lemma_update_value(self@.slots, i as int, slot_set_view(slot@, value@));
                }
                slot.set(value);
                let ghost e = slot_entries(self.slots);
                slot_map_set_at(&mut self.slots, i, slot);
                proof {
                    lemma_entries_view_update(e, i as int, slot);
                }
            },
            None => {
                proof {
                    lemma_index_of_absent(self@.slots, key@);
                    lemma_push_new(self@.slots, key@, slot_set_view(empty_slot_view(), value@));
                }
                let mut slot = StorageSlot::empty();
                slot.set(value);
                let ghost e = slot_entries(self.slots);
                slot_map_insert(&mut self.slots, key, slot);
                proof {
                    assert(index_of(entries_view(e), key@) == -1);
                    lemma_entries_view_push(e, key, slot);
                }
            },
        }
        self.dirty = true;
    }

    /// Loads a value from persistent storage: the slot of `key` becomes clean and holds `value`.
    pub fn load(&mut self, key: StorageKey, value: StorageValue)
        requires
            old(self).wf(),
        ensures
            final(self).wf(),
            final(self)@ == state_load(old(self)@, key@, value@),
    {
        let slot = StorageSlot::new(value);
        let ghost e = slot_entries(self.slots);
        proof {
            let i = index_of(self@.slots, key@);
            if i >= 0 {
                assert(has_key(self@.slots, key@));
                lemma_index_of_at(self@.slots, i);
                lemma_update_value(self@.slots, i, slot@);
                assert(self@.slots[i].0 == key@);
            } else {
                lemma_push_new(self@.slots, key@, slot@);
            }
        }
        slot_map_insert(&mut self.slots, key, slot);
        proof {
            let i = index_of(entries_view(e), key@);
            if i >= 0 {
                lemma_entries_view_update(e, i, slot);
                assert(e[i].0@ == key@);
            } else {
                lemma_entries_view_push(e, key, slot);
            }
        }
    }

    /// The dirty slots, in insertion order.
    pub fn dirty_slots(&self) -> (r: Vec<(StorageKey, StorageSlot)>)
        ensures
            entries_view(r@) == dirty_entries(self@.slots),
    {
        let mut out: Vec<(StorageKey, StorageSlot)> = Vec::new();
        let n = slot_map_len(&self.slots);
        let ghost all = self@.slots;
        let mut i: usize = 0;
        while i < n
            invariant
                n == all.len(),
                all == self@.slots,
                i <= n,
                entries_view(out@) == dirty_entries(all.subrange(0, i as int)),
            decreases n - i,
        {
            let (k, s) = slot_map_entry(&self.slots, i);
            proof {
                assert(all.subrange(0, i + 1).drop_last() =~= all.subrange(0, i as int));
                assert(all.subrange(0, i + 1).last() == all[i as int]);
                assert(all[i as int] == (k@, s@));
            }
            if s.dirty {
                let ghost before = out@;
                out.push((k, s));
                proof {
                    lemma_entries_view_push(before, k, s);
                }
            }
            i = i + 1;
        }
        assert(all.subrange(0, n as int) =~= all);
        out
    }

    /// Whether any slot was set since the last commit or revert.
    pub fn is_dirty(&self) -> (r: bool)
        ensures
            r == self@.dirty,
    {
        self.dirty
    }

    /// Commits every slot: current values become original values, nothing is dirty.
    pub fn clear_dirty(&mut self)
        requires
            old(self).wf(),
        ensures
            final(self).wf(),
            final(self)@ == state_clear_dirty(old(self)@),
    {
        let n = slot_map_len(&self.slots);
        let ghost orig = self@.slots;
        let mut i: usize = 0;
        while i < n
            invariant
                n == orig.len(),
                i <= n,
                self@.slots.len() == n,
                forall|j: int| 0 <= j < i ==> #[trigger] self@.slots[j] == (orig[j].0, slot_committed(orig[j].1)),
                forall|j: int| i <= j < n ==> #[trigger] self@.slots[j] == orig[j],
            decreases n - i,
        {
            let (k, s) = slot_map_entry(&self.slots, i);
            let ns = StorageSlot { value: s.value, original: s.value, dirty: false };
            let ghost e = slot_entries(self.slots);
            proof {
                assert(self@.slots[i as int] == (k@, s@));
                assert(ns@ == slot_committed(s@));
            }
            slot_map_set_at(&mut self.slots, i, ns);
            proof {
                lemma_entries_view_update(e, i as int, ns);
                assert(self@.slots[i as int] == (orig[i as int].0, slot_committed(orig[i as int].1)));
            }
            i = i + 1;
        }
        self.dirty = false;
        proof {
            let target = state_clear_dirty(StateView { slots: orig, dirty: true }).slots;
            assert(self@.slots =~= target);
            assert forall|a: int, b: int| 0 <= a < n && 0 <= b < n && a != b implies #[trigger] self@.slots[a].0
                != #[trigger] self@.slots[b].0 by {
                assert(orig[a].0 != orig[b].0);
            }
        }
    }

    /// Reverts every slot to its original value; nothing is dirty afterwards.
    pub fn revert(&mut self)
        requires
            old(self).wf(),
        ensures
            final(self).wf(),
            final(self)@ == state_revert(old(self)@),
    {
        let n = slot_map_len(&self.slots);
        let ghost orig = self@.slots;
        let mut i: usize = 0;
        while i < n
            invariant
                n == orig.len(),
                i <= n,
                self@.slots.len() == n,
                forall|j: int| 0 <= j < i ==> #[trigger] self@.slots[j] == (orig[j].0, slot_reverted(orig[j].1)),
                forall|j: int| i <= j < n ==> #[trigger] self@.slots[j] == orig[j],
            decreases n - i,
        {
            let (k, s) = slot_map_entry(&self.slots, i);
            let ns = StorageSlot { value: s.original, original: s.original, dirty: false };
            let ghost e = slot_entries(self.slots);
            proof {
                assert(self@.slots[i as int] == (k@, s@));
                assert(ns@ == slot_reverted(s@));
            }
            slot_map_set_at(&mut self.slots, i, ns);
            proof {
                lemma_entries_view_update(e, i as int, ns);
                assert(self@.slots[i as int] == (orig[i as int].0, slot_reverted(orig[i as int].1)));
            }
            i = i + 1;
        }
        self.dirty = false;
        proof {
            let target = state_revert(StateView { slots: orig, dirty: true }).slots;
            assert(self@.slots =~= target);
            assert forall|a: int, b: int| 0 <= a < n && 0 <= b < n && a != b implies #[trigger] self@.slots[a].0
                != #[trigger] self@.slots[b].0 by {
                assert(orig[a].0 != orig[b].0);
            }
        }
    }

}

impl Clone for ContractState {
    /// A copy of the state with the same slots in the same order.
    fn clone(&self) -> (r: Self)
        ensures
            r@ == self@,
            r.wf() == self.wf(),
    {
        ContractState { slots: slot_map_clone(&self.slots), dirty: self.dirty }
    }
}

impl Default for ContractState {
    fn default() -> (r: Self)
        ensures
            r.wf(),
            r@.slots.len() == 0,
            !r@.dirty,
    {
        Self::new()
    }
}

/// A fresh, empty, clean contract state.
pub open spec fn empty_state_view() -> StateView {
    StateView { slots: Seq::empty(), dirty: false }
}

/// The abstract content of the storage of all contracts.
pub open spec fn storage_read(c: Seq<(Seq<u8>, StateView)>, a: Seq<u8>, k: Seq<u8>) -> Seq<u8> {
    match lookup(c, a) {
        Some(st) => state_get(st, k),
        None => zero_bytes(32),
    }
}

/// The original (last committed or loaded) value of a slot; zero when there is none.
pub open spec fn storage_original(c: Seq<(Seq<u8>, StateView)>, a: Seq<u8>, k: Seq<u8>) -> Seq<u8> {
    match lookup(c, a) {
        Some(st) => state_original(st, k),
        None => zero_bytes(32),
    }
}

/// Writing `v` under `(a, k)`: the state of `a` (a fresh one when there is none) is set.
pub open spec fn storage_write(c: Seq<(Seq<u8>, StateView)>, a: Seq<u8>, k: Seq<u8>, v: Seq<u8>) -> Seq<(Seq<u8>, StateView)> {
    match lookup(c, a) {
        Some(st) => assoc_put(c, a, state_set(st, k, v)),
        None => assoc_put(c, a, state_set(empty_state_view(), k, v)),
    }
}

/// Committing every contract state.
pub open spec fn storage_commit(c: Seq<(Seq<u8>, StateView)>) -> Seq<(Seq<u8>, StateView)> {
    c.map_values(|p: (Seq<u8>, StateView)| (p.0, state_clear_dirty(p.1)))
}

/// Reverting every contract state.
pub open spec fn storage_rollback(c: Seq<(Seq<u8>, StateView)>) -> Seq<(Seq<u8>, StateView)> {
    c.map_values(|p: (Seq<u8>, StateView)| (p.0, state_revert(p.1)))
}

/// The dirty contract states, in cache order.
pub open spec fn dirty_states_spec(c: Seq<(Seq<u8>, StateView)>) -> Seq<(Seq<u8>, StateView)>
    decreases c.len(),
{
    if c.len() == 0 {
        c
    } else if c.last().1.dirty {
        dirty_states_spec(c.drop_last()).push(c.last())
    } else {
        dirty_states_spec(c.drop_last())
    }
}

/// Whether a list of warm slots holds slot `k` of contract `a`.
pub open spec fn warm_contains(w: Seq<(ContractAddress, Vec<StorageKey>)>, a: Seq<u8>, k: Seq<u8>) -> bool {
    exists|i: int, j: int|
        0 <= i < w.len() && 0 <= j < w[i].1@.len() && #[trigger] w[i].0@ == a && #[trigger] w[i].1@[j]@ == k
}

/// Storage of all contracts: a cache of contract states and the set of warm slots.
pub struct ContractStorage {
    cache: Vec<(ContractAddress, ContractState)>,
    warm_slots: Vec<(ContractAddress, Vec<StorageKey>)>,
}

/// The views of a sequence of address/state pairs.
pub open spec fn cache_view_of(v: Seq<(ContractAddress, ContractState)>) -> Seq<(Seq<u8>, StateView)> {
    v.map_values(|p: (ContractAddress, ContractState)| (p.0@, p.1@))
}

impl ContractStorage {
    /// The contract states, by address, in the order they were first written.
    pub closed spec fn cache_view(&self) -> Seq<(Seq<u8>, StateView)> {
        cache_view_of(self.cache@)
    }

    /// Whether the slot `k` of contract `a` was accessed since the warm set was last cleared.
    pub closed spec fn warm_spec(&self, a: Seq<u8>, k: Seq<u8>) -> bool {
        warm_contains(self.warm_slots@, a, k)
    }

    /// Addresses are distinct and every state has distinct keys.
    pub closed spec fn wf(&self) -> bool {
        &&& unique_keys(self.cache_view())
        &&& forall|i: int| 0 <= i < self.cache@.len() ==> #[trigger] self.cache@[i].1.wf()
    }

    /// The value a read of `(a, k)` returns.
    pub open spec fn read_spec(&self, a: Seq<u8>, k: Seq<u8>) -> Seq<u8> {
        storage_read(self.cache_view(), a, k)
    }

    /// Creates an empty storage.
    pub fn new() -> (r: Self)
        ensures
            r.wf(),
            r.cache_view().len() == 0,
            forall|a: Seq<u8>, k: Seq<u8>| !r.warm_spec(a, k),
    {
        let r = ContractStorage { cache: Vec::new(), warm_slots: Vec::new() };
        assert(r.cache_view() =~= Seq::<(Seq<u8>, StateView)>::empty());
        r
    }

    fn find_state(&self, address: &ContractAddress) -> (r: Option<usize>)
        requires
            self.wf(),
        ensures
            match r {
                Some(i) => i < self.cache@.len() && self.cache@[i as int].0@ == address@
                    && index_of(self.cache_view(), address@) == i && has_key(self.cache_view(), address@),
                None => !has_key(self.cache_view(), address@),
            },
    {
        let mut i: usize = 0;
        while i < self.cache.len()
            invariant
                self.wf(),
                i <= self.cache@.len(),
                forall|j: int| 0 <= j < i ==> self.cache@[j].0@ != address@,
            decreases self.cache@.len() - i,
        {
            if self.cache[i].0.equals(address) {
                proof {
                    assert(self.cache_view()[i as int].0 == address@);
                    lemma_index_of_at(self.cache_view(), i as int);
                }
                return Some(i);
            }
            i = i + 1;
        }
        proof {
            assert forall|j: int| 0 <= j < self.cache_view().len() implies self.cache_view()[j].0 != address@ by {
                assert(self.cache_view()[j].0 == self.cache@[j].0@);
            }
            lemma_index_of_absent(self.cache_view(), address@);
        }
        None
    }

    /// Reads a storage value; zero when the slot was never written.
    pub fn read(&self, address: &ContractAddress, key: &StorageKey) -> (r: StorageValue)
        requires
            self.wf(),
        ensures
            r@ == self.read_spec(address@, key@),
    {
        match self.find_state(address) {
            Some(i) => {
                proof {
                    assert(self.cache_view()[i as int].1 == self.cache@[i as int].1@);
                }
                self.cache[i].1.get(key)
            },
            None => zero_value(),
        }
    }

    /// Writes a storage value into the cache (pending until commit or rollback).
    pub fn write(&mut self, address: &ContractAddress, key: StorageKey, value: StorageValue)
        requires
            old(self).wf(),
        ensures
            final(self).wf(),
            final(self).cache_view() == storage_write(old(self).cache_view(), address@, key@, value@),
            forall|a: Seq<u8>, k: Seq<u8>| final(self).warm_spec(a, k) == old(self).warm_spec(a, k),
    {
        let ghost c0 = self.cache_view();
        let idx = match self.find_state(address) {
            Some(i) => i,
            None => {
                let fresh = ContractState::new();
                assert(fresh@.slots =~= Seq::<(Seq<u8>, SlotView)>::empty());
                assert(fresh@ == empty_state_view());
                self.cache.push((*address, fresh));
                proof {
                    assert(self.cache_view() =~= c0.push((address@, empty_state_view())));
                    lemma_push_new(c0, address@, empty_state_view());
                    assert forall|i: int| 0 <= i < self.cache@.len() implies #[trigger] self.cache@[i].1.wf() by {
                        if i < c0.len() {
                            assert(self.cache@[i] == old(self).cache@[i]);
                        }
                    }
                }
                self.cache.len() - 1
            },
        };
        let ghost c1 = self.cache_view();
        let ghost st = self.cache@[idx as int].1@;
        proof {
            assert(c1[idx as int] == (address@, st));
            lemma_index_of_at(c1, idx as int);
            lemma_update_value(c1, idx as int, state_set(st, key@, value@));
        }
        self.cache[idx].1.set(key, value);
        proof {
            assert(self.cache_view() =~= c1.update(idx as int, (address@, state_set(st, key@, value@))));
            assert forall|i: int| 0 <= i < self.cache@.len() implies #[trigger] self.cache@[i].1.wf() by {
                if i != idx {
                    assert(self.cache@[i] == old(self).cache@[i] || i == c0.len());
                }
            }
            if has_key(c0, address@) {
                let j = index_of(c0, address@);
                lemma_index_of_at(c0, j);
                assert(j == idx);
                assert(c1 == c0);
            } else {
                lemma_index_of_absent(c0, address@);
                assert(index_of(c0, address@) == -1);
            }
        }
    }

    /// Whether the slot was accessed since the warm set was last cleared.
    pub fn is_warm(&self, address: &ContractAddress, key: &StorageKey) -> (r: bool)
        ensures
            r == self.warm_spec(address@, key@),
    {
        let mut i: usize = 0;
        while i < self.warm_slots.len()
            invariant
                i <= self.warm_slots@.len(),
                forall|x: int, y: int|
                    0 <= x < i && 0 <= y < self.warm_slots@[x].1@.len() ==> !(#[trigger] self.warm_slots@[x].0@ == address@
                        && #[trigger] self.warm_slots@[x].1@[y]@ == key@),
            decreases self.warm_slots@.len() - i,
        {
            if self.warm_slots[i].0.equals(address) {
                let keys = &self.warm_slots[i].1;
                let mut j: usize = 0;
                while j < keys.len()
                    invariant
                        i < self.warm_slots@.len(),
                        self.warm_slots@[i as int].0@ == address@,
                        j <= keys@.len(),
                        *keys == self.warm_slots@[i as int].1,
                        forall|y: int| 0 <= y < j ==> keys@[y]@ != key@,
                    decreases keys@.len() - j,
                {
                    if bytes32_eq(&keys[j], key) {
                        proof {
                            assert(self.warm_slots@[i as int].1@[j as int]@ == key@);
                        }
                        return true;
                    }
                    j = j + 1;
                }
            }
            i = i + 1;
        }
        false
    }

    /// Marks a slot as warm.
    pub fn mark_warm(&mut self, address: &ContractAddress, key: StorageKey)
        requires
            old(self).wf(),
        ensures
            final(self).wf(),
            final(self).cache_view() == old(self).cache_view(),
            forall|a: Seq<u8>, k: Seq<u8>|
                #[trigger] final(self).warm_spec(a, k) == (old(self).warm_spec(a, k) || (a == address@ && k == key@)),
    {
        let ghost w0 = self.warm_slots@;
        self.warm_slots.push((*address, vec![key]));
        proof {
            let n = w0.len() as int;
            assert(self.warm_slots@[n].1@[0] == key);
            assert forall|a: Seq<u8>, k: Seq<u8>|
                #[trigger] self.warm_spec(a, k) == (old(self).warm_spec(a, k) || (a == address@ && k == key@)) by {
                if old(self).warm_spec(a, k) {
                    let (x, y) = choose|x: int, y: int|
                        0 <= x < w0.len() && 0 <= y < w0[x].1@.len() && #[trigger] w0[x].0@ == a
                            && #[trigger] w0[x].1@[y]@ == k;
                    assert(self.warm_slots@[x] == w0[x]);
                }
                if a == address@ && k == key@ {
                    assert(self.warm_slots@[n].0@ == a && self.warm_slots@[n].1@[0]@ == k);
                }
                if self.warm_spec(a, k) {
                    let (x, y) = choose|x: int, y: int|
                        0 <= x < self.warm_slots@.len() && 0 <= y < self.warm_slots@[x].1@.len()
                            && #[trigger] self.warm_slots@[x].0@ == a && #[trigger] self.warm_slots@[x].1@[y]@ == k;
                    if x < n {
                        assert(self.warm_slots@[x] == w0[x]);
                    }
                }
            }
        }
    }

    /// A copy of the state of a contract, if it has one.
    pub fn get_state(&self, address: &ContractAddress) -> (r: Option<ContractState>)
        requires
            self.wf(),
        ensures
            match r {
                Some(st) => st.wf() && lookup(self.cache_view(), address@) == Some(st@),
                None => lookup(self.cache_view(), address@) is None,
            },
    {
        match self.find_state(address) {
            Some(i) => {
                proof {
                    lemma_index_of_at(self.cache_view(), i as int);
                }
                Some(self.cache[i].1.clone())
            },
            None => None,
        }
    }

    /// Replaces the state of a contract.
    pub fn set_state(&mut self, address: ContractAddress, state: ContractState)
        requires
            old(self).wf(),
            state.wf(),
        ensures
            final(self).wf(),
            final(self).cache_view() == assoc_put(old(self).cache_view(), address@, state@),
            forall|a: Seq<u8>, k: Seq<u8>| final(self).warm_spec(a, k) == old(self).warm_spec(a, k),
    {
        let ghost c0 = self.cache_view();
        let ghost sv = state@;
        proof {
            lemma_assoc_put(c0, address@, sv);
        }
        match self.find_state(&address) {
            Some(i) => {
                let mut slot = (address, state);
                self.cache.set_and_swap(i, &mut slot);
                proof {
                    assert(self.cache_view() =~= c0.update(i as int, (address@, sv)));
                    assert forall|j: int| 0 <= j < self.cache@.len() implies #[trigger] self.cache@[j].1.wf() by {
                        if j != i {
                            assert(self.cache@[j] == old(self).cache@[j]);
                        }
                    }
                }
            },
            None => {
                self.cache.push((address, state));
                proof {
                    assert(self.cache_view() =~= c0.push((address@, sv)));
                    assert forall|j: int| 0 <= j < self.cache@.len() implies #[trigger] self.cache@[j].1.wf() by {
                        if j < c0.len() {
                            assert(self.cache@[j] == old(self).cache@[j]);
                        }
                    }
                }
            },
        }
    }

    /// Commits all pending changes: every state's current values become its originals.
    pub fn commit(&mut self)
        requires
            old(self).wf(),
        ensures
            final(self).wf(),
            final(self).cache_view() == storage_commit(old(self).cache_view()),
            forall|a: Seq<u8>, k: Seq<u8>| final(self).warm_spec(a, k) == old(self).warm_spec(a, k),
    {
        let ghost c0 = self.cache_view();
        let n = self.cache.len();
        let mut i: usize = 0;
        while i < n
            invariant
                n == c0.len(),
                n == self.cache@.len(),
                i <= n,
                self.warm_slots == old(self).warm_slots,
                forall|j: int| 0 <= j < n ==> #[trigger] self.cache@[j].1.wf(),
                forall|j: int| 0 <= j < i ==> #[trigger] self.cache_view()[j] == (c0[j].0, state_clear_dirty(c0[j].1)),
                forall|j: int| i <= j < n ==> #[trigger] self.cache_view()[j] == c0[j],
            decreases n - i,
        {
            let ghost before = self.cache@;
            assert(self.cache_view()[i as int] == c0[i as int]);
            assert(forall|j: int| i <= j < n ==> #[trigger] cache_view_of(before)[j] == c0[j]);
            let mut entry = (self.cache[i].0, ContractState::new());
            self.cache.set_and_swap(i, &mut entry);
            assert(entry == before[i as int]);
            entry.1.clear_dirty();
            let ghost updated = entry;
            self.cache.set_and_swap(i, &mut entry);
            proof {
                assert(self.cache@ =~= before.update(i as int, updated));
                assert(cache_view_of(before)[i as int] == c0[i as int]);
                assert(self.cache@[i as int] == updated);
                assert(self.cache_view()[i as int] == (updated.0@, updated.1@));
                assert(self.cache_view()[i as int] == (c0[i as int].0, state_clear_dirty(c0[i as int].1)));
                assert forall|j: int| 0 <= j < n && j != i implies #[trigger] self.cache_view()[j] == cache_view_of(before)[j] by {
                    assert(self.cache@[j] == before[j]);
                }
            }
            i = i + 1;
        }
        proof {
            assert(self.cache_view() =~= storage_commit(c0));
            lemma_same_keys(c0, self.cache_view());
        }
    }

    /// Reverts all pending changes: every state's originals become current again.
    pub fn rollback(&mut self)
        requires
            old(self).wf(),
        ensures
            final(self).wf(),
            final(self).cache_view() == storage_rollback(old(self).cache_view()),
            forall|a: Seq<u8>, k: Seq<u8>| final(self).warm_spec(a, k) == old(self).warm_spec(a, k),
    {
        let ghost c0 = self.cache_view();
        let n = self.cache.len();
        let mut i: usize = 0;
        while i < n
            invariant
                n == c0.len(),
                n == self.cache@.len(),
                i <= n,
                self.warm_slots == old(self).warm_slots,
                forall|j: int| 0 <= j < n ==> #[trigger] self.cache@[j].1.wf(),
                forall|j: int| 0 <= j < i ==> #[trigger] self.cache_view()[j] == (c0[j].0, state_revert(c0[j].1)),
                forall|j: int| i <= j < n ==> #[trigger] self.cache_view()[j] == c0[j],
            decreases n - i,
        {
            let ghost before = self.cache@;
            assert(self.cache_view()[i as int] == c0[i as int]);
            assert(forall|j: int| i <= j < n ==> #[trigger] cache_view_of(before)[j] == c0[j]);
            let mut entry = (self.cache[i].0, ContractState::new());
            self.cache.set_and_swap(i, &mut entry);
            assert(entry == before[i as int]);
            entry.1.revert();
            let ghost updated = entry;
            self.cache.set_and_swap(i, &mut entry);
            proof {
                assert(self.cache@ =~= before.update(i as int, updated));
                assert(cache_view_of(before)[i as int] == c0[i as int]);
                assert(self.cache@[i as int] == updated);
                assert(self.cache_view()[i as int] == (updated.0@, updated.1@));
                assert(self.cache_view()[i as int] == (c0[i as int].0, state_revert(c0[i as int].1)));
                assert forall|j: int| 0 <= j < n && j != i implies #[trigger] self.cache_view()[j] == cache_view_of(before)[j] by {
                    assert(self.cache@[j] == before[j]);
                }
            }
            i = i + 1;
        }
        proof {
            assert(self.cache_view() =~= storage_rollback(c0));
            lemma_same_keys(c0, self.cache_view());
        }
    }

    /// Clears the warm set (at the start of a new transaction).
    pub fn clear_warm(&mut self)
        ensures
            final(self).cache_view() == old(self).cache_view(),
            final(self).wf() == old(self).wf(),
            forall|a: Seq<u8>, k: Seq<u8>| !final(self).warm_spec(a, k),
    {
        self.warm_slots = Vec::new();
    }

    /// Copies of the dirty contract states, in cache order.
    pub fn dirty_states(&self) -> (r: Vec<(ContractAddress, ContractState)>)
        requires
            self.wf(),
        ensures
            cache_view_of(r@) == dirty_states_spec(self.cache_view()),
            forall|i: int| 0 <= i < r@.len() ==> #[trigger] r@[i].1.wf(),
    {
        let ghost c = self.cache_view();
        let mut out: Vec<(ContractAddress, ContractState)> = Vec::new();
        let n = self.cache.len();
        let mut i: usize = 0;
        while i < n
            invariant
                n == c.len(),
                c == self.cache_view(),
                self.wf(),
                i <= n,
                cache_view_of(out@) == dirty_states_spec(c.subrange(0, i as int)),
                forall|j: int| 0 <= j < out@.len() ==> #[trigger] out@[j].1.wf(),
            decreases n - i,
        {
            proof {
                assert(c.subrange(0, i + 1).drop_last() =~= c.subrange(0, i as int));
                assert(c.subrange(0, i + 1).last() == c[i as int]);
                assert(c[i as int] == (self.cache@[i as int].0@, self.cache@[i as int].1@));
            }
            if self.cache[i].1.is_dirty() {
                let ghost before = out@;
                let copy = self.cache[i].1.clone();
                out.push((self.cache[i].0, copy));
                proof {
                    assert(cache_view_of(out@) =~= cache_view_of(before).push(c[i as int]));
                }
            }
            i = i + 1;
        }
        assert(c.subrange(0, n as int) =~= c);
        out
    }
}

impl Default for ContractStorage {
    fn default() -> (r: Self)
        ensures
            r.wf(),
            r.cache_view().len() == 0,
            forall|a: Seq<u8>, k: Seq<u8>| !r.warm_spec(a, k),
    {
        Self::new()
    }
}

/// Setting a key changes the value read under that key only, and keeps every original value.
pub proof fn lemma_state_set(v: StateView, k: Seq<u8>, val: Seq<u8>)
    requires
        unique_keys(v.slots),
    ensures
        unique_keys(state_set(v, k, val).slots),
        forall|j: Seq<u8>| #[trigger] state_get(state_set(v, k, val), j) == if j == k { val } else { state_get(v, j) },
        forall|j: Seq<u8>| #[trigger] state_original(state_set(v, k, val), j) == state_original(v, j),
{
    let i = index_of(v.slots, k);
    let w = state_set(v, k, val);
    if i >= 0 {
        lemma_index_of_at(v.slots, i);
        assert(v.slots[i].0 == k);
        lemma_update_value(v.slots, i, slot_set_view(v.slots[i].1, val));
    } else {
        lemma_push_new(v.slots, k, slot_set_view(empty_slot_view(), val));
    }
    assert forall|j: Seq<u8>| #[trigger] state_get(w, j) == if j == k { val } else { state_get(v, j) } by {
        assert(lookup(w.slots, j) == if j == k { Some(w.slots[index_of(w.slots, k)].1) } else { lookup(v.slots, j) });
    }
    assert forall|j: Seq<u8>| #[trigger] state_original(w, j) == state_original(v, j) by {}
}

/// After a revert every key reads its original value.
pub proof fn lemma_state_revert(v: StateView)
    requires
        unique_keys(v.slots),
    ensures
        unique_keys(state_revert(v).slots),
        forall|j: Seq<u8>| #[trigger] state_get(state_revert(v), j) == state_original(v, j),
        forall|j: Seq<u8>| #[trigger] state_original(state_revert(v), j) == state_original(v, j),
{
    let w = state_revert(v);
    lemma_same_keys(v.slots, w.slots);
}

/// After a commit every key reads what it read before, and that is now its original value.
pub proof fn lemma_state_clear_dirty(v: StateView)
    requires
        unique_keys(v.slots),
    ensures
        unique_keys(state_clear_dirty(v).slots),
        forall|j: Seq<u8>| #[trigger] state_get(state_clear_dirty(v), j) == state_get(v, j),
        forall|j: Seq<u8>| #[trigger] state_original(state_clear_dirty(v), j) == state_get(v, j),
{
    let w = state_clear_dirty(v);
    lemma_same_keys(v.slots, w.slots);
}

/// Every state in the cache has distinct keys.
pub open spec fn states_wf(c: Seq<(Seq<u8>, StateView)>) -> bool {
    forall|i: int| 0 <= i < c.len() ==> #[trigger] unique_keys(c[i].1.slots)
}

proof fn lemma_lookup_state_wf(c: Seq<(Seq<u8>, StateView)>, a: Seq<u8>)
    requires
        unique_keys(c),
        states_wf(c),
    ensures
        lookup(c, a) matches Some(st) ==> unique_keys(st.slots),
{
    if has_key(c, a) {
        let i = index_of(c, a);
        lemma_index_of_at(c, i);
    }
}

/// A read returns what the last write to the same slot wrote; writes to other
/// slots do not change it.
pub proof fn lemma_read_after_write(c: Seq<(Seq<u8>, StateView)>, a: Seq<u8>, k: Seq<u8>, v: Seq<u8>, a2: Seq<u8>, k2: Seq<u8>)
    requires
        unique_keys(c),
        states_wf(c),
    ensures
        storage_read(storage_write(c, a, k, v), a2, k2) == if a2 == a && k2 == k { v } else { storage_read(c, a2, k2) },
        storage_original(storage_write(c, a, k, v), a2, k2) == storage_original(c, a2, k2),
{
    lemma_lookup_state_wf(c, a);
    let st = match lookup(c, a) {
        Some(st) => st,
        None => empty_state_view(),
    };
    lemma_state_set(st, k, v);
    lemma_assoc_put(c, a, state_set(st, k, v));
}

/// After a rollback every slot reads its original value.
pub proof fn lemma_read_after_rollback(c: Seq<(Seq<u8>, StateView)>, a: Seq<u8>, k: Seq<u8>)
    requires
        unique_keys(c),
        states_wf(c),
    ensures
        storage_read(storage_rollback(c), a, k) == storage_original(c, a, k),
{
    let r = storage_rollback(c);
    lemma_same_keys(c, r);
    lemma_lookup_state_wf(c, a);
    if has_key(c, a) {
        let i = index_of(c, a);
        lemma_index_of_at(c, i);
        lemma_state_revert(c[i].1);
    }
}

/// After a commit every slot reads what it read before, and its original value is that value.
pub proof fn lemma_read_after_commit(c: Seq<(Seq<u8>, StateView)>, a: Seq<u8>, k: Seq<u8>)
    requires
        unique_keys(c),
        states_wf(c),
    ensures
        storage_read(storage_commit(c), a, k) == storage_read(c, a, k),
        storage_original(storage_commit(c), a, k) == storage_read(c, a, k),
        unique_keys(storage_commit(c)),
        states_wf(storage_commit(c)),
{
    let r = storage_commit(c);
    lemma_same_keys(c, r);
    lemma_lookup_state_wf(c, a);
    if has_key(c, a) {
        let i = index_of(c, a);
        lemma_index_of_at(c, i);
        lemma_state_clear_dirty(c[i].1);
    }
    assert forall|i: int| 0 <= i < r.len() implies #[trigger] unique_keys(r[i].1.slots) by {
        lemma_state_clear_dirty(c[i].1);
    }
}

/// Writes made after a commit are undone by a rollback: every slot reads what
/// it read right after the commit.
pub proof fn lemma_rollback_undoes_write(c: Seq<(Seq<u8>, StateView)>, a: Seq<u8>, k: Seq<u8>, v: Seq<u8>, a2: Seq<u8>, k2: Seq<u8>)
    requires
        unique_keys(c),
        states_wf(c),
    ensures
        storage_read(storage_rollback(storage_write(storage_commit(c), a, k, v)), a2, k2) == storage_read(c, a2, k2),
{
    let c1 = storage_commit(c);
    lemma_read_after_commit(c, a2, k2);
    lemma_read_after_write(c1, a, k, v, a2, k2);
    let c2 = storage_write(c1, a, k, v);
    lemma_storage_write_wf(c1, a, k, v);
    lemma_read_after_rollback(c2, a2, k2);
}

/// A write keeps addresses distinct and every state's keys distinct.
pub proof fn lemma_storage_write_wf(c: Seq<(Seq<u8>, StateView)>, a: Seq<u8>, k: Seq<u8>, v: Seq<u8>)
    requires
        unique_keys(c),
        states_wf(c),
    ensures
        unique_keys(storage_write(c, a, k, v)),
        states_wf(storage_write(c, a, k, v)),
{
    lemma_lookup_state_wf(c, a);
    let st = match lookup(c, a) {
        Some(st) => st,
        None => empty_state_view(),
    };
    lemma_state_set(st, k, v);
    lemma_assoc_put(c, a, state_set(st, k, v));
    let w = storage_write(c, a, k, v);
    assert forall|i: int| 0 <= i < w.len() implies #[trigger] unique_keys(w[i].1.slots) by {
        let idx = index_of(c, a);
        if i < c.len() && w[i] == c[i] {
        } else {
            if has_key(c, a) {
                lemma_index_of_at(c, idx);
            }
        }
    }
}

impl ContractStorage {
    /// The well-formedness of the storage, seen through its abstract content.
    pub proof fn lemma_wf_view(&self)
        requires
            self.wf(),
        ensures
            unique_keys(self.cache_view()),
            states_wf(self.cache_view()),
    {
        assert forall|i: int| 0 <= i < self.cache_view().len() implies #[trigger] unique_keys(self.cache_view()[i].1.slots) by {
            assert(self.cache@[i].1.wf());
        }
    }
}

} // verus!
