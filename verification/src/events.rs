//! Contract events: logs with their block and transaction context, filters over
//! them, an emitter that numbers them, and an in-memory store queried by block.

use vstd::prelude::*;
use crate::address::ContractAddress;
use crate::assoc::{assoc_put, has_key, index_of, lemma_assoc_put, lemma_index_of_absent, lemma_index_of_at, lookup, unique_keys};
use crate::types::{Log, LogTopic};

verus! {

broadcast use ContractAddress::lemma_view_len;

/// A contract event: a log with the block and transaction it came from.
#[derive(Debug)]
pub struct ContractEvent {
    /// Block number where the event occurred
    pub block_number: u64,
    /// Transaction hash that emitted the event
    pub tx_hash: crate::digest::Hash,
    /// Transaction index within the block
    pub tx_index: u32,
    /// Log index within the transaction
    pub log_index: u32,
    /// The log itself
    pub log: Log,
}

/// The abstract content of an event.
pub struct EventView {
    pub block_number: u64,
    pub tx_hash: Seq<u8>,
    pub tx_index: u32,
    pub log_index: u32,
    pub address: Seq<u8>,
    pub topics: Seq<LogTopic>,
    pub data: Seq<u8>,
}

impl View for ContractEvent {
    type V = EventView;

    open spec fn view(&self) -> EventView {
        EventView {
            block_number: self.block_number,
            tx_hash: self.tx_hash@,
            tx_index: self.tx_index,
            log_index: self.log_index,
            address: self.log.address@,
            topics: self.log.topics@,
            data: self.log.data@,
        }
    }
}

impl Clone for ContractEvent {
    fn clone(&self) -> (r: Self)
        ensures
            r@ == self@,
    {
        ContractEvent {
            block_number: self.block_number,
            tx_hash: self.tx_hash,
            tx_index: self.tx_index,
            log_index: self.log_index,
            log: self.log.clone(),
        }
    }
}

impl ContractEvent {
    /// Creates an event.
    pub fn new(block_number: u64, tx_hash: crate::digest::Hash, tx_index: u32, log_index: u32, log: Log) -> (r: Self)
        ensures
            r.block_number == block_number,
            r.tx_hash == tx_hash,
            r.tx_index == tx_index,
            r.log_index == log_index,
            r.log == log,
    {
        ContractEvent { block_number, tx_hash, tx_index, log_index, log }
    }

    /// The contract that emitted the event.
    pub fn address(&self) -> (r: &ContractAddress)
        ensures
            *r == self.log.address,
    {
        &self.log.address
    }

    /// The event topics.
    pub fn topics(&self) -> (r: &[LogTopic])
        ensures
            r@ == self.log.topics@,
    {
        self.log.topics.as_slice()
    }

    /// The event data.
    pub fn data(&self) -> (r: &[u8])
        ensures
            r@ == self.log.data@,
    {
        self.log.data.as_slice()
    }

    /// The event signature: the first topic.
    pub fn signature(&self) -> (r: Option<&LogTopic>)
        ensures
            self.log.topics@.len() > 0 ==> r == Some(&self.log.topics@[0]),
            self.log.topics@.len() == 0 ==> r is None,
    {
        self.log.event_signature()
    }
}

/// A filter for querying events.
#[derive(Debug, Clone)]
pub struct EventFilter {
    /// Start block (inclusive)
    pub from_block: Option<u64>,
    /// End block (inclusive)
    pub to_block: Option<u64>,
    /// Contract addresses to accept (none: any)
    pub addresses: Vec<ContractAddress>,
    /// Accepted topics by position (an empty position accepts any)
    pub topics: Vec<Vec<LogTopic>>,
}

/// The abstract content of a filter.
pub struct FilterView {
    pub from_block: Option<u64>,
    pub to_block: Option<u64>,
    pub addresses: Seq<Seq<u8>>,
    pub topics: Seq<Seq<LogTopic>>,
}

impl View for EventFilter {
    type V = FilterView;

    open spec fn view(&self) -> FilterView {
        FilterView {
            from_block: self.from_block,
            to_block: self.to_block,
            addresses: self.addresses@.map_values(|a: ContractAddress| a@),
            topics: self.topics@.map_values(|t: Vec<LogTopic>| t@),
        }
    }
}

/// Whether an event passes a filter: inside the block range, from one of the
/// addresses (if any are given), and at each topic position with options, having
/// a topic there that is one of them.
pub open spec fn filter_matches(f: FilterView, e: EventView) -> bool {
    &&& (f.from_block matches Some(b) ==> e.block_number >= b)
    &&& (f.to_block matches Some(b) ==> e.block_number <= b)
    &&& (f.addresses.len() == 0 || f.addresses.contains(e.address))
    &&& forall|i: int| 0 <= i < f.topics.len() && #[trigger] f.topics[i].len() > 0
        ==> i < e.topics.len() && f.topics[i].contains(e.topics[i])
}

/// The filter `f` with no address list.
pub open spec fn without_addresses(f: FilterView) -> FilterView {
    FilterView { addresses: Seq::empty(), ..f }
}

/// The filter `f` with no topic options.
pub open spec fn without_topics(f: FilterView) -> FilterView {
    FilterView { topics: Seq::empty(), ..f }
}

/// An event from any one of the listed addresses, wherever it stands in the
/// list, is judged as if no addresses were listed.
pub proof fn lemma_filter_listed_address(f: FilterView, e: EventView, i: int)
    requires
        0 <= i < f.addresses.len(),
        f.addresses[i] == e.address,
    ensures
        filter_matches(f, e) == filter_matches(without_addresses(f), e),
{
    assert(f.addresses.contains(e.address));
    let g = without_addresses(f);
    assert(g.topics == f.topics && g.from_block == f.from_block && g.to_block == f.to_block);
}

/// An event from none of the listed addresses never passes a filter that lists some.
pub proof fn lemma_filter_unlisted_address(f: FilterView, e: EventView)
    requires
        f.addresses.len() > 0,
        forall|i: int| 0 <= i < f.addresses.len() ==> f.addresses[i] != e.address,
    ensures
        !filter_matches(f, e),
{
}

/// At each topic position with options, any one of the options (not only the
/// first) lets the event through: an event that has, at every such position,
/// a topic equal to one of the options there is judged as if no topics were given.
pub proof fn lemma_filter_listed_topics(f: FilterView, e: EventView, choice: Seq<int>)
    requires
        choice.len() == f.topics.len(),
        forall|p: int| 0 <= p < f.topics.len() && #[trigger] f.topics[p].len() > 0 ==> p < e.topics.len()
            && 0 <= choice[p] < f.topics[p].len() && f.topics[p][choice[p]] == e.topics[p],
    ensures
        filter_matches(f, e) == filter_matches(without_topics(f), e),
{
    assert forall|p: int| 0 <= p < f.topics.len() && #[trigger] f.topics[p].len() > 0
        implies p < e.topics.len() && f.topics[p].contains(e.topics[p]) by {
        assert(f.topics[p][choice[p]] == e.topics[p]);
    }
}

/// A filter whose block range is the single block `b`, with no addresses and no
/// topics, passes exactly the events of block `b`.
pub proof fn lemma_filter_single_block(f: FilterView, e: EventView, b: u64)
    requires
        f.from_block == Some(b),
        f.to_block == Some(b),
        f.addresses.len() == 0,
        f.topics.len() == 0,
    ensures
        filter_matches(f, e) <==> e.block_number == b,
{
}

/// Whether `t` is one of `options`.
fn topic_in(options: &Vec<LogTopic>, t: &LogTopic) -> (r: bool)
    ensures
        r == options@.contains(*t),
{
    let mut i: usize = 0;
    while i < options.len()
        invariant
            i <= options@.len(),
            forall|j: int| 0 <= j < i ==> options@[j] != *t,
        decreases options@.len() - i,
    {
        if crate::digest::bytes32_eq(&options[i], t) {
            assert(options@[i as int]@ == t@);
            assert(options@[i as int] =~= *t);
            return true;
        }
        i = i + 1;
    }
    false
}

impl EventFilter {
    /// A filter that accepts every event.
    pub fn new() -> (r: Self)
        ensures
            r@.from_block is None,
            r@.to_block is None,
            r@.addresses.len() == 0,
            r@.topics.len() == 0,
    {
        EventFilter { from_block: None, to_block: None, addresses: Vec::new(), topics: Vec::new() }
    }

    /// The filter with its start block set.
    pub fn with_from_block(self, block: u64) -> (r: Self)
        ensures
            r@ == (FilterView { from_block: Some(block), ..self@ }),
    {
        EventFilter { from_block: Some(block), ..self }
    }

    /// The filter with its end block set.
    pub fn with_to_block(self, block: u64) -> (r: Self)
        ensures
            r@ == (FilterView { to_block: Some(block), ..self@ }),
    {
        EventFilter { to_block: Some(block), ..self }
    }

    /// The filter with one more accepted address.
    pub fn with_address(self, address: ContractAddress) -> (r: Self)
        ensures
            r@ == (FilterView { addresses: self@.addresses.push(address@), ..self@ }),
    {
        let mut f = self;
        f.addresses.push(address);
        assert(f@.addresses =~= self@.addresses.push(address@));
        f
    }

    /// The filter with one more accepted topic at `position`; positions up to it
    /// that did not exist yet are added empty (accepting any topic).
    pub fn with_topic(self, position: usize, topic: LogTopic) -> (r: Self)
        requires
            position < usize::MAX,
        ensures
            r@.from_block == self@.from_block,
            r@.to_block == self@.to_block,
            r@.addresses == self@.addresses,
            r@.topics.len() == if self@.topics.len() > position { self@.topics.len() as int } else { position + 1 },
            forall|i: int| 0 <= i < r@.topics.len() && i != position ==> #[trigger] r@.topics[i]
                == if i < self@.topics.len() { self@.topics[i] } else { Seq::<LogTopic>::empty() },
            r@.topics[position as int] == (if position < self@.topics.len() { self@.topics[position as int] } else { Seq::<LogTopic>::empty() }).push(topic),
    {
        let mut f = self;
        let ghost t0 = f.topics@.map_values(|t: Vec<LogTopic>| t@);
        while f.topics.len() <= position
            invariant
                position < usize::MAX,
                f.from_block == self.from_block,
                f.to_block == self.to_block,
                f.addresses@ == self.addresses@,
                t0 == self@.topics,
                f.topics@.len() >= t0.len(),
                f.topics@.len() <= if t0.len() > position { t0.len() as int } else { position + 1 },
                forall|i: int| 0 <= i < f.topics@.len() ==> #[trigger] f.topics@[i]@
                    == if i < t0.len() { t0[i] } else { Seq::<LogTopic>::empty() },
            decreases position + 1 - f.topics@.len(),
        {
            f.topics.push(Vec::new());
        }
        let mut entry: Vec<LogTopic> = Vec::new();
        f.topics.set_and_swap(position, &mut entry);
        entry.push(topic);
        let ghost updated = entry@;
        f.topics.set_and_swap(position, &mut entry);
        proof {
            assert(f.topics@[position as int]@ == updated);
        }
        f
    }

    /// Whether an event passes the filter.
    pub fn matches(&self, event: &ContractEvent) -> (r: bool)
        ensures
            r == filter_matches(self@, event@),
    {
        if let Some(from) = self.from_block {
            if event.block_number < from {
                return false;
            }
        }
        if let Some(to) = self.to_block {
            if event.block_number > to {
                return false;
            }
        }
        if self.addresses.len() > 0 {
            let mut found = false;
            let mut i: usize = 0;
            while i < self.addresses.len()
                invariant
                    i <= self.addresses@.len(),
                    found == exists|j: int| 0 <= j < i && #[trigger] self.addresses@[j]@ == event.log.address@,
                decreases self.addresses@.len() - i,
            {
                if self.addresses[i].equals(&event.log.address) {
                    found = true;
                }
                i = i + 1;
            }
            proof {
                let s = self@.addresses;
                if found {
                    let j = choose|j: int| 0 <= j < self.addresses@.len() && #[trigger] self.addresses@[j]@ == event.log.address@;
                    assert(s[j] == event.log.address@);
                } else {
                    assert forall|j: int| 0 <= j < s.len() implies s[j] != event.log.address@ by {
                        assert(s[j] == self.addresses@[j]@);
                    }
                }
            }
            if !found {
                return false;
            }
        }
        let n = self.topics.len();
        let mut i: usize = 0;
        while i < n
            invariant
                n == self.topics@.len(),
                i <= n,
                forall|k: int| 0 <= k < i && #[trigger] self@.topics[k].len() > 0
                    ==> k < event@.topics.len() && self@.topics[k].contains(event@.topics[k]),
            decreases n - i,
        {
            let options = &self.topics[i];
            assert(self@.topics[i as int] == options@);
            if options.len() > 0 {
                if i >= event.log.topics.len() {
                    return false;
                }
                if !topic_in(options, &event.log.topics[i]) {
                    return false;
                }
            }
            i = i + 1;
        }
        true
    }
}

impl Default for EventFilter {
    fn default() -> (r: Self)
        ensures
            r@.from_block is None,
            r@.to_block is None,
            r@.addresses.len() == 0,
            r@.topics.len() == 0,
    {
        Self::new()
    }
}

/// The views of a sequence of events.
pub open spec fn events_view(s: Seq<ContractEvent>) -> Seq<EventView> {
    s.map_values(|e: ContractEvent| e@)
}

/// The views of a sequence of event references.
pub open spec fn event_refs_view(s: Seq<&ContractEvent>) -> Seq<EventView> {
    s.map_values(|e: &ContractEvent| e@)
}

/// The event an emitter makes of `log`, numbered `index` within the transaction.
pub open spec fn emitted_event(block_number: u64, tx_hash: Seq<u8>, tx_index: u32, index: int, log: Log) -> EventView {
    EventView {
        block_number,
        tx_hash,
        tx_index,
        log_index: index as u32,
        address: log.address@,
        topics: log.topics@,
        data: log.data@,
    }
}

/// Collects the events of one transaction, numbering them in order.
pub struct EventEmitter {
    events: Vec<ContractEvent>,
    tx_hash: crate::digest::Hash,
    tx_index: u32,
    block_number: u64,
}

impl EventEmitter {
    /// The pending events.
    pub closed spec fn pending(&self) -> Seq<EventView> {
        events_view(self.events@)
    }

    /// The block number, transaction hash and index the events get.
    pub closed spec fn spec_context(&self) -> (u64, Seq<u8>, u32) {
        (self.block_number, self.tx_hash@, self.tx_index)
    }

    /// Creates an emitter with no events.
    pub fn new(block_number: u64, tx_hash: crate::digest::Hash, tx_index: u32) -> (r: Self)
        ensures
            r.pending().len() == 0,
            r.spec_context() == (block_number, tx_hash@, tx_index),
    {
        let r = EventEmitter { events: Vec::new(), tx_hash, tx_index, block_number };
        assert(r.pending() =~= Seq::<EventView>::empty());
        r
    }

    /// Emits a log as the next event; its log index is the number of events before
    /// it (truncated to 32 bits).
    pub fn emit(&mut self, log: Log)
        ensures
            final(self).spec_context() == old(self).spec_context(),
            final(self).pending() == old(self).pending().push(emitted_event(
                old(self).spec_context().0,
                old(self).spec_context().1,
                old(self).spec_context().2,
                old(self).pending().len() as int,
                log,
            )),
    {
        let log_index = self.events.len() as u32;
        let ghost l = log;
        let event = ContractEvent::new(self.block_number, self.tx_hash, self.tx_index, log_index, log);
        self.events.push(event);
        proof {
            assert(self.pending() =~= old(self).pending().push(emitted_event(
                self.block_number, self.tx_hash@, self.tx_index, old(self).pending().len() as int, l)));
        }
    }

    /// Emits logs in order.
    pub fn emit_all(&mut self, logs: Vec<Log>)
        ensures
            final(self).spec_context() == old(self).spec_context(),
            final(self).pending().len() == old(self).pending().len() + logs@.len(),
            forall|i: int| 0 <= i < old(self).pending().len() ==> #[trigger] final(self).pending()[i] == old(self).pending()[i],
            forall|i: int| 0 <= i < logs@.len() ==> #[trigger] final(self).pending()[old(self).pending().len() + i]
                == emitted_event(old(self).spec_context().0, old(self).spec_context().1, old(self).spec_context().2,
                    old(self).pending().len() + i, logs@[i]),
    {
        let ghost n0 = self.pending().len();
        let m = logs.len();
        let mut k: usize = 0;
        while k < m
            invariant
                m == logs@.len(),
                k <= m,
                self.spec_context() == old(self).spec_context(),
                self.pending().len() == n0 + k,
                n0 == old(self).pending().len(),
                forall|i: int| 0 <= i < n0 ==> #[trigger] self.pending()[i] == old(self).pending()[i],
                forall|i: int| 0 <= i < k ==> #[trigger] self.pending()[n0 + i]
                    == emitted_event(old(self).spec_context().0, old(self).spec_context().1, old(self).spec_context().2, n0 + i, logs@[i]),
            decreases m - k,
        {
            let log = logs[k].clone();
            self.emit(log);
            k = k + 1;
        }
    }

    /// Drops the pending events.
    pub fn clear(&mut self)
        ensures
            final(self).spec_context() == old(self).spec_context(),
            final(self).pending().len() == 0,
    {
        self.events = Vec::new();
        assert(self.pending() =~= Seq::<EventView>::empty());
    }

    /// The pending events.
    pub fn events(&self) -> (r: &[ContractEvent])
        ensures
            events_view(r@) == self.pending(),
    {
        self.events.as_slice()
    }

    /// Takes the pending events, leaving none.
    pub fn take_events(&mut self) -> (r: Vec<ContractEvent>)
        ensures
            events_view(r@) == old(self).pending(),
            final(self).pending().len() == 0,
            final(self).spec_context() == old(self).spec_context(),
    {
        let mut taken: Vec<ContractEvent> = Vec::new();
        std::mem::swap(&mut taken, &mut self.events);
        assert(self.pending() =~= Seq::<EventView>::empty());
        taken
    }

    /// The number of pending events.
    pub fn len(&self) -> (r: usize)
        ensures
            r == self.pending().len(),
    {
        self.events.len()
    }

    /// Whether no event is pending.
    pub fn is_empty(&self) -> (r: bool)
        ensures
            r == (self.pending().len() == 0),
    {
        self.events.len() == 0
    }
}

/// The views of a table of events by key.
pub open spec fn table_view<K: View>(t: Seq<(K, Vec<ContractEvent>)>) -> Seq<(K::V, Seq<EventView>)> {
    t.map_values(|p: (K, Vec<ContractEvent>)| (p.0@, events_view(p.1@)))
}

/// The events stored under `k`, none if `k` has no entry.
pub open spec fn entry_events<K>(t: Seq<(K, Seq<EventView>)>, k: K) -> Seq<EventView> {
    match lookup(t, k) {
        Some(evs) => evs,
        None => Seq::empty(),
    }
}

/// The table with `e` appended to the events of `k`.
pub open spec fn table_append<K>(t: Seq<(K, Seq<EventView>)>, k: K, e: EventView) -> Seq<(K, Seq<EventView>)> {
    assoc_put(t, k, entry_events(t, k).push(e))
}

/// The number of events in a table.
pub open spec fn total_events<K>(t: Seq<(K, Seq<EventView>)>) -> nat
    decreases t.len(),
{
    if t.len() == 0 {
        0
    } else {
        total_events(t.drop_last()) + t.last().1.len()
    }
}

/// The events of `evs` that pass `f`, in order.
pub open spec fn matching(evs: Seq<EventView>, f: FilterView) -> Seq<EventView>
    decreases evs.len(),
{
    if evs.len() == 0 {
        Seq::empty()
    } else if filter_matches(f, evs.last()) {
        matching(evs.drop_last(), f).push(evs.last())
    } else {
        matching(evs.drop_last(), f)
    }
}

/// The events of blocks `b` to `to` that pass `f`: block by block, each block's
/// events in the order they were stored.
pub open spec fn query_range(t: Seq<(u64, Seq<EventView>)>, f: FilterView, b: int, to: int) -> Seq<EventView>
    decreases to - b + 1,
{
    if b > to || b < 0 {
        Seq::empty()
    } else {
        matching(entry_events(t, b as u64), f) + query_range(t, f, b + 1, to)
    }
}

/// The answer to a query: the blocks from the filter's start (0 if none) to its
/// end (the last block if none).
pub open spec fn query_spec(t: Seq<(u64, Seq<EventView>)>, f: FilterView) -> Seq<EventView> {
    let from = match f.from_block { Some(b) => b as int, None => 0 };
    let to = match f.to_block { Some(b) => b as int, None => u64::MAX as int };
    query_range(t, f, from, to)
}

/// The events `matching` keeps pass the filter and come from the input.
pub proof fn lemma_matching_passes(evs: Seq<EventView>, f: FilterView)
    ensures
        matching(evs, f).len() <= evs.len(),
        forall|i: int| 0 <= i < matching(evs, f).len() ==> #[trigger] filter_matches(f, matching(evs, f)[i])
            && evs.contains(matching(evs, f)[i]),
    decreases evs.len(),
{
    if evs.len() > 0 {
        let p = evs.drop_last();
        lemma_matching_passes(p, f);
        let m = matching(evs, f);
        assert forall|i: int| 0 <= i < m.len() implies #[trigger] filter_matches(f, m[i]) && evs.contains(m[i]) by {
            if i < matching(p, f).len() {
                assert(m[i] == matching(p, f)[i]);
                assert(filter_matches(f, matching(p, f)[i]));
                assert(p.contains(m[i]));
                let j = choose|j: int| 0 <= j < p.len() && p[j] == m[i];
                assert(0 <= j < p.len() && p[j] == m[i]);
                assert(evs[j] == p[j]);
            } else {
                assert(m[i] == evs.last());
                assert(evs[evs.len() - 1] == evs.last());
            }
        }
    }
}

/// A query returns only events that pass its filter, each from a block in its range.
pub proof fn lemma_query_passes(t: Seq<(u64, Seq<EventView>)>, f: FilterView, b: int, to: int)
    ensures
        forall|i: int| 0 <= i < query_range(t, f, b, to).len() ==> #[trigger] filter_matches(f, query_range(t, f, b, to)[i]),
    decreases to - b + 1,
{
    if !(b > to || b < 0) {
        let head = matching(entry_events(t, b as u64), f);
        let tail = query_range(t, f, b + 1, to);
        lemma_matching_passes(entry_events(t, b as u64), f);
        lemma_query_passes(t, f, b + 1, to);
        assert forall|i: int| 0 <= i < query_range(t, f, b, to).len() implies #[trigger] filter_matches(f, query_range(t, f, b, to)[i]) by {
            if i < head.len() {
                assert(query_range(t, f, b, to)[i] == head[i]);
            } else {
                assert(query_range(t, f, b, to)[i] == tail[i - head.len()]);
            }
        }
    }
}

/// Blocks without entry contribute nothing to a query.
proof fn lemma_query_skip(t: Seq<(u64, Seq<EventView>)>, f: FilterView, b: int, k: int, to: int)
    requires
        0 <= b <= k,
        k <= to + 1,
        forall|x: u64| b <= x < k ==> !#[trigger] has_key(t, x),
        to <= u64::MAX,
    ensures
        query_range(t, f, b, to) == query_range(t, f, k, to),
    decreases k - b,
{
    if b < k {
        lemma_query_skip(t, f, b + 1, k, to);
        assert(entry_events(t, b as u64) == Seq::<EventView>::empty());
        assert(matching(Seq::<EventView>::empty(), f) == Seq::<EventView>::empty());
        assert(query_range(t, f, b, to) =~= query_range(t, f, b + 1, to));
    }
}

/// Appending one event to a table adds one to its count.
proof fn lemma_total_append<K>(t: Seq<(K, Seq<EventView>)>, k: K, e: EventView)
    requires
        unique_keys(t),
    ensures
        total_events(table_append(t, k, e)) == total_events(t) + 1,
    decreases t.len(),
{
    let i = index_of(t, k);
    if i >= 0 {
        lemma_index_of_at(t, i);
        lemma_total_update(t, i, (k, t[i].1.push(e)));
    } else {
        assert(lookup(t, k) is None);
        assert(table_append(t, k, e) == t.push((k, seq![e])));
        assert(t.push((k, seq![e])).drop_last() =~= t);
    }
}

/// Replacing one entry changes the count by the difference in its events.
proof fn lemma_total_update<K>(t: Seq<(K, Seq<EventView>)>, i: int, p: (K, Seq<EventView>))
    requires
        0 <= i < t.len(),
    ensures
        total_events(t.update(i, p)) == total_events(t) - t[i].1.len() + p.1.len(),
    decreases t.len(),
{
    let u = t.update(i, p);
    if i == t.len() - 1 {
        assert(u.drop_last() =~= t.drop_last());
    } else {
        lemma_total_update(t.drop_last(), i, p);
        assert(u.drop_last() =~= t.drop_last().update(i, p));
    }
}

/// Each entry's events count towards the total.
proof fn lemma_total_prefix<K>(t: Seq<(K, Seq<EventView>)>, i: int)
    requires
        0 <= i <= t.len(),
    ensures
        total_events(t.subrange(0, i)) <= total_events(t),
        i < t.len() ==> total_events(t.subrange(0, i + 1)) == total_events(t.subrange(0, i)) + t[i].1.len(),
    decreases t.len() - i,
{
    if i < t.len() {
        assert(t.subrange(0, i + 1).drop_last() =~= t.subrange(0, i));
        lemma_total_prefix(t, i + 1);
    } else {
        assert(t.subrange(0, i) =~= t);
    }
}

/// An in-memory event store, indexed by block and by contract address.
pub struct EventStore {
    by_block: Vec<(u64, Vec<ContractEvent>)>,
    by_address: Vec<(ContractAddress, Vec<ContractEvent>)>,
}

/// The position of `key` in a table by block.
fn find_block(t: &Vec<(u64, Vec<ContractEvent>)>, key: u64) -> (r: Option<usize>)
    requires
        unique_keys(table_view(t@)),
    ensures
        match r {
            Some(i) => i < t@.len() && index_of(table_view(t@), key) == i && has_key(table_view(t@), key),
            None => !has_key(table_view(t@), key) && index_of(table_view(t@), key) == -1,
        },
{
    let mut i: usize = 0;
    while i < t.len()
        invariant
            unique_keys(table_view(t@)),
            i <= t@.len(),
            forall|j: int| 0 <= j < i ==> t@[j].0 != key,
        decreases t@.len() - i,
    {
        if t[i].0 == key {
            proof {
                assert(table_view(t@)[i as int].0 == key);
                lemma_index_of_at(table_view(t@), i as int);
            }
            return Some(i);
        }
        i = i + 1;
    }
    proof {
        assert forall|j: int| 0 <= j < table_view(t@).len() implies table_view(t@)[j].0 != key by {
            assert(table_view(t@)[j].0 == t@[j].0);
        }
        lemma_index_of_absent(table_view(t@), key);
    }
    None
}

/// The position of `key` in a table by address.
fn find_address(t: &Vec<(ContractAddress, Vec<ContractEvent>)>, key: &ContractAddress) -> (r: Option<usize>)
    requires
        unique_keys(table_view(t@)),
    ensures
        match r {
            Some(i) => i < t@.len() && index_of(table_view(t@), key@) == i && has_key(table_view(t@), key@),
            None => !has_key(table_view(t@), key@) && index_of(table_view(t@), key@) == -1,
        },
{
    let mut i: usize = 0;
    while i < t.len()
        invariant
            unique_keys(table_view(t@)),
            i <= t@.len(),
            forall|j: int| 0 <= j < i ==> t@[j].0@ != key@,
        decreases t@.len() - i,
    {
        if t[i].0.equals(key) {
            proof {
                assert(table_view(t@)[i as int].0 == key@);
                lemma_index_of_at(table_view(t@), i as int);
            }
            return Some(i);
        }
        i = i + 1;
    }
    proof {
        assert forall|j: int| 0 <= j < table_view(t@).len() implies table_view(t@)[j].0 != key@ by {
            assert(table_view(t@)[j].0 == t@[j].0@);
        }
        lemma_index_of_absent(table_view(t@), key@);
    }
    None
}

/// References to the events of `evs`, in order.
fn event_refs(evs: &Vec<ContractEvent>) -> (r: Vec<&ContractEvent>)
    ensures
        event_refs_view(r@) == events_view(evs@),
{
    let mut out: Vec<&ContractEvent> = Vec::new();
    let mut i: usize = 0;
    while i < evs.len()
        invariant
            i <= evs@.len(),
            out@.len() == i,
            event_refs_view(out@) == events_view(evs@.subrange(0, i as int)),
        decreases evs@.len() - i,
    {
        let ghost prev = out@;
        out.push(&evs[i]);
        proof {
            assert(out@ == prev.push(&evs@[i as int]));
            assert(out@.len() == i + 1);
            assert forall|j: int| 0 <= j <= i implies #[trigger] event_refs_view(out@)[j] == events_view(evs@.subrange(0, i + 1))[j] by {
                if j < i {
                    assert(out@[j] == prev[j]);
                    assert(event_refs_view(prev)[j] == events_view(evs@.subrange(0, i as int))[j]);
                }
            }
            assert(event_refs_view(out@) =~= events_view(evs@.subrange(0, i + 1)));
        }
        i = i + 1;
    }
    assert(evs@.subrange(0, evs@.len() as int) =~= evs@);
    out
}

impl EventStore {
    /// The events by block number.
    pub closed spec fn blocks(&self) -> Seq<(u64, Seq<EventView>)> {
        table_view(self.by_block@)
    }

    /// The events by contract address.
    pub closed spec fn addresses(&self) -> Seq<(Seq<u8>, Seq<EventView>)> {
        table_view(self.by_address@)
    }

    /// Keys are distinct in both tables, and each block holds its own events.
    pub closed spec fn wf(&self) -> bool {
        &&& unique_keys(self.blocks())
        &&& unique_keys(self.addresses())
        &&& forall|i: int| #![trigger self.blocks()[i]] 0 <= i < self.blocks().len() ==> self.blocks()[i].1.len() > 0
            && forall|j: int| 0 <= j < self.blocks()[i].1.len() ==> #[trigger] self.blocks()[i].1[j].block_number == self.blocks()[i].0
    }

    /// Creates an empty store.
    pub fn new() -> (r: Self)
        ensures
            r.wf(),
            r.blocks().len() == 0,
            r.addresses().len() == 0,
    {
        let r = EventStore { by_block: Vec::new(), by_address: Vec::new() };
        assert(r.blocks() =~= Seq::<(u64, Seq<EventView>)>::empty());
        assert(r.addresses() =~= Seq::<(Seq<u8>, Seq<EventView>)>::empty());
        r
    }

    /// Stores an event under its block and under its contract.
    pub fn store(&mut self, event: ContractEvent)
        requires
            old(self).wf(),
        ensures
            final(self).wf(),
            final(self).blocks() == table_append(old(self).blocks(), event.block_number, event@),
            final(self).addresses() == table_append(old(self).addresses(), event.log.address@, event@),
    {
        let ghost ev = event@;
        let ghost b0 = self.blocks();
        let ghost a0 = self.addresses();
        let block = event.block_number;
        let address = event.log.address;
        proof {
            lemma_assoc_put(b0, block, entry_events(b0, block).push(ev));
            lemma_assoc_put(a0, address@, entry_events(a0, address@).push(ev));
        }
        let copy = event.clone();
        match find_block(&self.by_block, block) {
            Some(i) => {
                proof {
                    lemma_index_of_at(b0, i as int);
                }
                let mut entry: (u64, Vec<ContractEvent>) = (block, Vec::new());
                self.by_block.set_and_swap(i, &mut entry);
                entry.1.push(copy);
                let ghost updated = entry;
                self.by_block.set_and_swap(i, &mut entry);
                proof {
                    assert(self.by_block@[i as int] == updated);
                    assert(events_view(updated.1@) =~= b0[i as int].1.push(ev));
                    assert(self.blocks() =~= b0.update(i as int, (block, b0[i as int].1.push(ev))));
                }
            },
            None => {
                let mut v: Vec<ContractEvent> = Vec::new();
                v.push(copy);
                self.by_block.push((block, v));
                proof {
                    assert(events_view(v@) =~= seq![ev]);
                    assert(entry_events(b0, block) == Seq::<EventView>::empty());
                    assert(seq![ev] =~= Seq::<EventView>::empty().push(ev));
                    assert(self.blocks() =~= b0.push((block, seq![ev])));
                }
            },
        }
        match find_address(&self.by_address, &address) {
            Some(i) => {
                proof {
                    lemma_index_of_at(a0, i as int);
                }
                let mut entry: (ContractAddress, Vec<ContractEvent>) = (address, Vec::new());
                self.by_address.set_and_swap(i, &mut entry);
                entry.1.push(event);
                let ghost updated = entry;
                self.by_address.set_and_swap(i, &mut entry);
                proof {
                    assert(self.by_address@[i as int] == updated);
                    assert(events_view(updated.1@) =~= a0[i as int].1.push(ev));
                    assert(self.addresses() =~= a0.update(i as int, (address@, a0[i as int].1.push(ev))));
                }
            },
            None => {
                let mut v: Vec<ContractEvent> = Vec::new();
                v.push(event);
                self.by_address.push((address, v));
                proof {
                    assert(events_view(v@) =~= seq![ev]);
                    assert(entry_events(a0, address@) == Seq::<EventView>::empty());
                    assert(seq![ev] =~= Seq::<EventView>::empty().push(ev));
                    assert(self.addresses() =~= a0.push((address@, seq![ev])));
                }
            },
        }
        proof {
            let bt = self.blocks();
            assert forall|i: int| #![trigger bt[i]] 0 <= i < bt.len() implies bt[i].1.len() > 0
                && forall|j: int| 0 <= j < bt[i].1.len() ==> #[trigger] bt[i].1[j].block_number == bt[i].0 by {
                if i < b0.len() && b0[i].0 != block {
                    assert(bt[i] == b0[i]);
                }
            }
        }
    }

    /// Stores events in order.
    pub fn store_all(&mut self, events: Vec<ContractEvent>)
        requires
            old(self).wf(),
        ensures
            final(self).wf(),
            total_events(final(self).blocks()) == total_events(old(self).blocks()) + events@.len(),
    {
        let n = events.len();
        let mut i: usize = 0;
        while i < n
            invariant
                self.wf(),
                n == events@.len(),
                i <= n,
                total_events(self.blocks()) == total_events(old(self).blocks()) + i,
            decreases n - i,
        {
            let e = events[i].clone();
            proof {
                lemma_total_append(self.blocks(), e.block_number, e@);
            }
            self.store(e);
            i = i + 1;
        }
    }

    /// The events of a block, in the order they were stored.
    pub fn get_by_block(&self, block: u64) -> (r: Vec<&ContractEvent>)
        requires
            self.wf(),
        ensures
            event_refs_view(r@) == entry_events(self.blocks(), block),
    {
        match find_block(&self.by_block, block) {
            Some(i) => {
                proof {
                    lemma_index_of_at(self.blocks(), i as int);
                }
                event_refs(&self.by_block[i].1)
            },
            None => {
                let r: Vec<&ContractEvent> = Vec::new();
                assert(event_refs_view(r@) =~= Seq::<EventView>::empty());
                r
            },
        }
    }

    /// The events of a contract, in the order they were stored.
    pub fn get_by_address(&self, address: &ContractAddress) -> (r: Vec<&ContractEvent>)
        requires
            self.wf(),
        ensures
            event_refs_view(r@) == entry_events(self.addresses(), address@),
    {
        match find_address(&self.by_address, address) {
            Some(i) => {
                proof {
                    lemma_index_of_at(self.addresses(), i as int);
                }
                event_refs(&self.by_address[i].1)
            },
            None => {
                let r: Vec<&ContractEvent> = Vec::new();
                assert(event_refs_view(r@) =~= Seq::<EventView>::empty());
                r
            },
        }
    }

    /// The entry of the smallest stored block in `[lo, hi]`, if there is one.
    fn next_block(&self, lo: u64, hi: u64) -> (r: Option<usize>)
        requires
            self.wf(),
        ensures
            match r {
                Some(i) => i < self.blocks().len() && lo <= self.blocks()[i as int].0 <= hi
                    && forall|x: u64| lo <= x < self.blocks()[i as int].0 ==> !#[trigger] has_key(self.blocks(), x),
                None => forall|x: u64| lo <= x <= hi ==> !#[trigger] has_key(self.blocks(), x),
            },
    {
        let ghost t = self.blocks();
        let mut best: Option<usize> = None;
        let mut i: usize = 0;
        while i < self.by_block.len()
            invariant
                t == self.blocks(),
                i <= t.len(),
                t.len() == self.by_block@.len(),
                forall|j: int| 0 <= j < t.len() ==> #[trigger] t[j].0 == self.by_block@[j].0,
                match best {
                    Some(b) => b < i && lo <= t[b as int].0 <= hi
                        && forall|j: int| 0 <= j < i && lo <= #[trigger] t[j].0 <= hi ==> t[b as int].0 <= t[j].0,
                    None => forall|j: int| 0 <= j < i ==> !(lo <= #[trigger] t[j].0 <= hi),
                },
            decreases t.len() - i,
        {
            let k = self.by_block[i].0;
            if lo <= k && k <= hi {
                match best {
                    Some(b) => {
                        if k < self.by_block[b].0 {
                            best = Some(i);
                        }
                    },
                    None => {
                        best = Some(i);
                    },
                }
            }
            i = i + 1;
        }
        proof {
            match best {
                Some(b) => {
                    assert forall|x: u64| lo <= x < t[b as int].0 implies !#[trigger] has_key(t, x) by {
                        if has_key(t, x) {
                            let j = choose|j: int| 0 <= j < t.len() && #[trigger] t[j].0 == x;
                            assert(lo <= t[j].0 <= hi);
                        }
                    }
                },
                None => {
                    assert forall|x: u64| lo <= x <= hi implies !#[trigger] has_key(t, x) by {
                        if has_key(t, x) {
                            let j = choose|j: int| 0 <= j < t.len() && #[trigger] t[j].0 == x;
                            assert(!(lo <= t[j].0 <= hi));
                        }
                    }
                },
            }
        }
        best
    }

    /// Appends to `out` the events of entry `i` that pass `filter`.
    fn push_matching<'a>(&'a self, i: usize, filter: &EventFilter, out: &mut Vec<&'a ContractEvent>)
        requires
            self.wf(),
            i < self.blocks().len(),
        ensures
            event_refs_view(final(out)@) == event_refs_view(old(out)@) + matching(self.blocks()[i as int].1, filter@),
    {
        let evs = &self.by_block[i].1;
        let ghost s = events_view(evs@);
        assert(s == self.blocks()[i as int].1);
        let ghost base = event_refs_view(out@);
        let mut j: usize = 0;
        while j < evs.len()
            invariant
                s == events_view(evs@),
                j <= evs@.len(),
                event_refs_view(out@) == base + matching(s.subrange(0, j as int), filter@),
            decreases evs@.len() - j,
        {
            let ghost prev = out@;
            let ghost sub = s.subrange(0, j + 1);
            assert(sub.drop_last() =~= s.subrange(0, j as int));
            assert(sub.last() == evs@[j as int]@);
            if filter.matches(&evs[j]) {
                out.push(&evs[j]);
                proof {
                    assert(event_refs_view(out@) =~= event_refs_view(prev).push(evs@[j as int]@));
                }
            }
            j = j + 1;
        }
        assert(s.subrange(0, evs@.len() as int) =~= s);
    }

    /// The events passing `filter`, block by block from its start block (0 if
    /// none) to its end block (the last if none), each block's events in the
    /// order they were stored. Only blocks that hold events are visited.
    pub fn query(&self, filter: &EventFilter) -> (r: Vec<&ContractEvent>)
        requires
            self.wf(),
        ensures
            event_refs_view(r@) == query_spec(self.blocks(), filter@),
    {
        let ghost t = self.blocks();
        let ghost f = filter@;
        let from = match filter.from_block {
            Some(b) => b,
            None => 0,
        };
        let to = match filter.to_block {
            Some(b) => b,
            None => u64::MAX,
        };
        let mut out: Vec<&ContractEvent> = Vec::new();
        if from > to {
            assert(event_refs_view(out@) =~= query_range(t, f, from as int, to as int));
            return out;
        }
        let mut cur: u64 = from;
        let mut done = false;
        assert(event_refs_view(out@) + query_range(t, f, cur as int, to as int) =~= query_range(t, f, from as int, to as int));
        while !done
            invariant
                t == self.blocks(),
                f == filter@,
                self.wf(),
                from <= cur <= to,
                done ==> event_refs_view(out@) == query_range(t, f, from as int, to as int),
                !done ==> event_refs_view(out@) + query_range(t, f, cur as int, to as int) == query_range(t, f, from as int, to as int),
            decreases (if done { 0 } else { to - cur + 1 }),
        {
            match self.next_block(cur, to) {
                None => {
                    proof {
                        lemma_query_skip(t, f, cur as int, to + 1, to as int);
                        assert(event_refs_view(out@) =~= event_refs_view(out@) + query_range(t, f, cur as int, to as int));
                    }
                    done = true;
                },
                Some(i) => {
                    let k = self.by_block[i].0;
                    let ghost before = event_refs_view(out@);
                    proof {
                        assert(t[i as int].0 == k);
                        lemma_query_skip(t, f, cur as int, k as int, to as int);
                        lemma_index_of_at(t, i as int);
                        assert(entry_events(t, k) == t[i as int].1);
                        assert(query_range(t, f, k as int, to as int)
                            == matching(t[i as int].1, f) + query_range(t, f, k + 1, to as int));
                    }
                    self.push_matching(i, filter, &mut out);
                    if k == to {
                        proof {
                            assert(query_range(t, f, k + 1, to as int) == Seq::<EventView>::empty());
                            assert(event_refs_view(out@) =~= before + query_range(t, f, cur as int, to as int));
                        }
                        done = true;
                    } else {
                        proof {
                            assert(event_refs_view(out@) + query_range(t, f, k + 1, to as int)
                                =~= before + query_range(t, f, cur as int, to as int));
                        }
                        cur = k + 1;
                    }
                },
            }
        }
        out
    }

    /// The number of stored events.
    pub fn len(&self) -> (r: usize)
        requires
            self.wf(),
            total_events(self.blocks()) <= usize::MAX,
        ensures
            r == total_events(self.blocks()),
    {
        let ghost t = self.blocks();
        let mut total: usize = 0;
        let mut i: usize = 0;
        while i < self.by_block.len()
            invariant
                t == self.blocks(),
                i <= t.len(),
                total_events(t) <= usize::MAX,
                total == total_events(t.subrange(0, i as int)),
            decreases t.len() - i,
        {
            proof {
                lemma_total_prefix(t, i as int);
                lemma_total_prefix(t, i + 1);
                assert(t[i as int].1.len() == self.by_block@[i as int].1@.len());
            }
            total = total + self.by_block[i].1.len();
            i = i + 1;
        }
        assert(t.subrange(0, t.len() as int) =~= t);
        total
    }

    /// Whether no event is stored.
    pub fn is_empty(&self) -> (r: bool)
        requires
            self.wf(),
        ensures
            r == (total_events(self.blocks()) == 0),
    {
        proof {
            let t = self.blocks();
            if t.len() > 0 {
                lemma_total_prefix(t, t.len() - 1);
                assert(t.subrange(0, t.len() as int) =~= t);
                assert(t[t.len() - 1].1.len() > 0);
            }
        }
        self.by_block.len() == 0
    }
}

impl Default for EventStore {
    fn default() -> (r: Self)
        ensures
            r.wf(),
            r.blocks().len() == 0,
            r.addresses().len() == 0,
    {
        Self::new()
    }
}

} // verus!
