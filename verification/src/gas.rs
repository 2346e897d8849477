//! Gas costs and gas metering for contract execution.

use vstd::prelude::*;
use crate::error::ContractError;

verus! {

/// Gas units.
pub type Gas = u64;

/// A value clamped to the largest 64-bit number, as saturating arithmetic gives.
pub open spec fn saturate(x: int) -> int {
    if x > u64::MAX { u64::MAX as int } else { x }
}

/// Saturating multiplication of two 64-bit numbers.
pub fn saturating_mul(a: u64, b: u64) -> (r: u64)
    ensures
        r == saturate(a * b),
{
    match a.checked_mul(b) {
        Some(p) => p,
        None => u64::MAX,
    }
}

/// Gas costs for the operations of the machine.
#[derive(Debug, Clone, Copy, PartialEq, Eq, Structural)]
pub struct GasCosts {
    /// Base cost for any transaction
    pub tx_base: u64,
    /// Cost per zero byte of transaction data
    pub tx_data_zero: u64,
    /// Cost per non-zero byte of transaction data
    pub tx_data_non_zero: u64,
    /// Cost for contract creation
    pub tx_create: u64,
    /// Base cost for storage read
    pub storage_read: u64,
    /// Cost for storage write (new value)
    pub storage_write_new: u64,
    /// Cost for storage write (existing value)
    pub storage_write_existing: u64,
    /// Refund for clearing storage
    pub storage_clear_refund: u64,
    /// Cost per word of memory expansion
    pub memory_per_word: u64,
    /// Cost for copying per word
    pub copy_per_word: u64,
    /// Base cost for a CALL instruction
    pub call_base: u64,
    /// Additional cost for calls with value transfer
    pub call_value_transfer: u64,
    /// Cost for creating a new account
    pub call_new_account: u64,
    /// Cost for LOG0 (no topics)
    pub log_base: u64,
    /// Cost per topic in LOG
    pub log_per_topic: u64,
    /// Cost per byte of log data
    pub log_per_byte: u64,
    /// Cost for SHA3/Keccak256
    pub sha3_base: u64,
    /// Cost per word for SHA3
    pub sha3_per_word: u64,
    /// Cost for BALANCE opcode
    pub balance: u64,
    /// Cost for EXTCODESIZE
    pub ext_code_size: u64,
    /// Cost for EXTCODECOPY base
    pub ext_code_copy_base: u64,
    /// Cost for EXTCODEHASH
    pub ext_code_hash: u64,
    /// Cost for SLOAD (cold)
    pub sload_cold: u64,
    /// Cost for SLOAD (warm)
    pub sload_warm: u64,
    /// Cost for SSTORE (cold, set)
    pub sstore_cold_set: u64,
    /// Cost for SSTORE (warm)
    pub sstore_warm: u64,
}

/// The default cost table.
pub open spec fn default_gas_costs() -> GasCosts {
    GasCosts {
        tx_base: 21000,
        tx_data_zero: 4,
        tx_data_non_zero: 16,
        tx_create: 32000,
        storage_read: 200,
        storage_write_new: 20000,
        storage_write_existing: 5000,
        storage_clear_refund: 15000,
        memory_per_word: 3,
        copy_per_word: 3,
        call_base: 100,
        call_value_transfer: 9000,
        call_new_account: 25000,
        log_base: 375,
        log_per_topic: 375,
        log_per_byte: 8,
        sha3_base: 30,
        sha3_per_word: 6,
        balance: 700,
        ext_code_size: 700,
        ext_code_copy_base: 700,
        ext_code_hash: 700,
        sload_cold: 2100,
        sload_warm: 100,
        sstore_cold_set: 22100,
        sstore_warm: 100,
    }
}

impl Default for GasCosts {
    fn default() -> (r: Self)
        ensures
            r == default_gas_costs(),
    {
        GasCosts {
            tx_base: 21000,
            tx_data_zero: 4,
            tx_data_non_zero: 16,
            tx_create: 32000,
            storage_read: 200,
            storage_write_new: 20000,
            storage_write_existing: 5000,
            storage_clear_refund: 15000,
            memory_per_word: 3,
            copy_per_word: 3,
            call_base: 100,
            call_value_transfer: 9000,
            call_new_account: 25000,
            log_base: 375,
            log_per_topic: 375,
            log_per_byte: 8,
            sha3_base: 30,
            sha3_per_word: 6,
            balance: 700,
            ext_code_size: 700,
            ext_code_copy_base: 700,
            ext_code_hash: 700,
            sload_cold: 2100,
            sload_warm: 100,
            sstore_cold_set: 22100,
            sstore_warm: 100,
        }
    }
}

/// The sum of per-byte costs of transaction data, zero bytes and non-zero bytes priced apart.
pub open spec fn data_cost_sum(data: Seq<u8>, zero: u64, non_zero: u64) -> int
    decreases data.len(),
{
    if data.len() == 0 {
        0
    } else {
        data_cost_sum(data.drop_last(), zero, non_zero) + if data.last() == 0 { zero as int } else { non_zero as int }
    }
}

/// Memory size in 32-byte words, rounded up.
pub open spec fn words(size: int) -> int {
    (size + 31) / 32
}

/// The cost of a memory of `w` words: linear part plus quadratic part.
pub open spec fn memory_cost(w: int, per_word: int) -> int {
    w * per_word + (w * w) / 512
}

/// Whether the cost of a memory of `size` bytes can be computed in 64 bits.
pub open spec fn memory_cost_fits(size: u64, per_word: u64) -> bool {
    &&& size + 31 <= u64::MAX
    &&& words(size as int) * per_word <= u64::MAX
    &&& words(size as int) * words(size as int) <= u64::MAX
    &&& memory_cost(words(size as int), per_word as int) <= u64::MAX
}

/// The gas charged for growing memory from `current` to `new` bytes.
pub open spec fn expansion_cost(current: int, new: int, per_word: int) -> int {
    if new <= current {
        0
    } else {
        memory_cost(words(new), per_word) - memory_cost(words(current), per_word)
    }
}

/// More words never cost less.
pub proof fn lemma_memory_cost_monotone(a: int, b: int, per_word: int)
    requires
        0 <= a <= b,
        0 <= per_word,
    ensures
        memory_cost(a, per_word) <= memory_cost(b, per_word),
        a * per_word <= b * per_word,
        a * a <= b * b,
{
    assert(a * per_word <= b * per_word) by (nonlinear_arith)
        requires
            0 <= a <= b,
            0 <= per_word,
    ;
    assert(a * a <= b * b) by (nonlinear_arith)
        requires
            0 <= a <= b,
    ;
    assert((a * a) / 512 <= (b * b) / 512) by (nonlinear_arith)
        requires
            a * a <= b * b,
    ;
}

/// Rounding up to words never decreases with the size.
pub proof fn lemma_words_monotone(a: int, b: int)
    requires
        0 <= a <= b,
    ensures
        0 <= words(a) <= words(b),
{
    assert((a + 31) / 32 <= (b + 31) / 32) by (nonlinear_arith)
        requires
            0 <= a <= b,
    ;
}

/// Growing memory in two steps costs as much as growing it in one step.
pub proof fn lemma_expansion_cost_additive(a: int, b: int, c: int, per_word: int)
    requires
        0 <= a <= b <= c,
        0 <= per_word,
    ensures
        expansion_cost(a, b, per_word) + expansion_cost(b, c, per_word) == expansion_cost(a, c, per_word),
        expansion_cost(a, b, per_word) >= 0,
{
    lemma_words_monotone(a, b);
    lemma_words_monotone(b, c);
    lemma_memory_cost_monotone(words(a), words(b), per_word);
    lemma_memory_cost_monotone(words(b), words(c), per_word);
}

/// The cost of a log with `topics` topics and `len` bytes of data.
pub open spec fn log_cost_spec(c: GasCosts, topics: int, len: int) -> int {
    saturate(c.log_base + topics * c.log_per_topic + len * c.log_per_byte)
}

impl GasCosts {
    /// Creates the default cost table.
    pub fn new() -> (r: Self)
        ensures
            r == default_gas_costs(),
    {
        Self::default()
    }

    /// The gas cost of transaction data: a price per zero byte and a price per
    /// non-zero byte, saturating at the largest 64-bit number.
    pub fn tx_data_cost(&self, data: &[u8]) -> (r: Gas)
        ensures
            r == saturate(data_cost_sum(data@, self.tx_data_zero, self.tx_data_non_zero)),
    {
        let mut cost = 0u64;
        let mut i: usize = 0;
        let n = data.len();
        while i < n
            invariant
                n == data@.len(),
                i <= n,
                cost == saturate(data_cost_sum(data@.subrange(0, i as int), self.tx_data_zero, self.tx_data_non_zero)),
            decreases n - i,
        {
            proof {
                assert(data@.subrange(0, i + 1).drop_last() =~= data@.subrange(0, i as int));
                assert(data@.subrange(0, i + 1).last() == data@[i as int]);
                let s = data_cost_sum(data@.subrange(0, i as int), self.tx_data_zero, self.tx_data_non_zero);
                assert(s >= 0) by {
                    lemma_data_cost_nonneg(data@.subrange(0, i as int), self.tx_data_zero, self.tx_data_non_zero);
                }
            }
            if data[i] == 0 {
                cost = cost.saturating_add(self.tx_data_zero);
            } else {
                cost = cost.saturating_add(self.tx_data_non_zero);
            }
            i = i + 1;
        }
        assert(data@.subrange(0, n as int) =~= data@);
        cost
    }

    /// The gas cost of growing memory from `current_size` to `new_size` bytes.
    pub fn memory_expansion_cost(&self, current_size: u64, new_size: u64) -> (r: Gas)
        requires
            new_size > current_size ==> memory_cost_fits(new_size, self.memory_per_word),
        ensures
            r == expansion_cost(current_size as int, new_size as int, self.memory_per_word as int),
    {
        if new_size <= current_size {
            return 0;
        }
        let new_words = (new_size + 31) / 32;
        let current_words = (current_size + 31) / 32;
        proof {
            lemma_words_monotone(current_size as int, new_size as int);
            lemma_memory_cost_monotone(current_words as int, new_words as int, self.memory_per_word as int);
        }
        let new_cost = new_words * self.memory_per_word + (new_words * new_words) / 512;
        let current_cost = current_words * self.memory_per_word + (current_words * current_words) / 512;
        new_cost.saturating_sub(current_cost)
    }

    /// The gas cost of a log: base plus per-topic plus per-byte, saturating.
    pub fn log_cost(&self, topic_count: usize, data_len: usize) -> (r: Gas)
        ensures
            r == log_cost_spec(*self, topic_count as int, data_len as int),
    {
        let t = saturating_mul(topic_count as u64, self.log_per_topic);
        let d = saturating_mul(data_len as u64, self.log_per_byte);
        proof {
            assert(topic_count as int * self.log_per_topic >= 0) by (nonlinear_arith)
                requires
                    topic_count >= 0,
                    self.log_per_topic >= 0,
            ;
            assert(data_len as int * self.log_per_byte >= 0) by (nonlinear_arith)
                requires
                    data_len >= 0,
                    self.log_per_byte >= 0,
            ;
        }
        self.log_base.saturating_add(t).saturating_add(d)
    }
}

/// The per-byte data cost sum is never negative.
pub proof fn lemma_data_cost_nonneg(data: Seq<u8>, zero: u64, non_zero: u64)
    ensures
        data_cost_sum(data, zero, non_zero) >= 0,
    decreases data.len(),
{
    if data.len() > 0 {
        lemma_data_cost_nonneg(data.drop_last(), zero, non_zero);
    }
}

/// Tracks gas consumption of one execution.
#[derive(Debug, Clone, Copy)]
pub struct GasMeter {
    limit: u64,
    used: u64,
    refund: u64,
    costs: GasCosts,
}

/// Adding two 64-bit counters with wrap-around, as an atomic fetch-add does.
pub open spec fn wrapping_sum(a: u64, b: u64) -> u64 {
    if a + b <= u64::MAX { (a + b) as u64 } else { (a + b - u64::MAX - 1) as u64 }
}

/// The gas limit a child meter gets: the request, capped at what the parent has
/// left minus one sixty-fourth of it.
pub open spec fn child_limit_spec(requested: u64, available: u64) -> u64 {
    let cap = (available - available / 64) as u64;
    if requested <= cap { requested } else { cap }
}

/// Whether charging `amount` to `g` stays within its limit.
pub open spec fn can_charge(g: GasMeter, amount: int) -> bool {
    saturate(g.spec_used() + amount) <= g.spec_limit()
}

/// `after` is `before` charged `amount`: the used gas rises (saturating) when that
/// stays within the limit and is unchanged otherwise; limit, refund and costs stay.
pub open spec fn charged(before: GasMeter, after: GasMeter, amount: int) -> bool {
    &&& after.spec_limit() == before.spec_limit()
    &&& after.spec_refund() == before.spec_refund()
    &&& after.spec_costs() == before.spec_costs()
    &&& after.spec_used() == if can_charge(before, amount) { saturate(before.spec_used() + amount) } else { before.spec_used() as int }
}

/// One step a meter can take once it is made: a charge (`consume`), a refund
/// (`add_refund`) or a reset (`reset`).
pub open spec fn meter_step(before: GasMeter, after: GasMeter) -> bool {
    ||| exists|amount: int| 0 <= amount <= u64::MAX && #[trigger] charged(before, after, amount)
    ||| {
        &&& after.spec_limit() == before.spec_limit()
        &&& after.spec_used() == before.spec_used()
        &&& after.spec_costs() == before.spec_costs()
    }
    ||| {
        &&& after.spec_limit() == before.spec_limit()
        &&& after.spec_used() == 0
        &&& after.spec_refund() == 0
        &&& after.spec_costs() == before.spec_costs()
    }
}

/// What charging `amount` to `g` returns.
pub open spec fn charge_result(g: GasMeter, amount: int) -> Result<(), ContractError> {
    if can_charge(g, amount) {
        Ok(())
    } else {
        Err(ContractError::OutOfGas { used: saturate(g.spec_used() + amount) as u64, limit: g.spec_limit() })
    }
}

impl GasMeter {
    pub closed spec fn spec_limit(&self) -> u64 {
        self.limit
    }

    pub closed spec fn spec_used(&self) -> u64 {
        self.used
    }

    pub closed spec fn spec_refund(&self) -> u64 {
        self.refund
    }

    pub closed spec fn spec_costs(&self) -> GasCosts {
        self.costs
    }

    /// Gas left: the limit minus what was used, never below zero.
    pub open spec fn spec_remaining(&self) -> u64 {
        if self.spec_used() >= self.spec_limit() { 0 } else { (self.spec_limit() - self.spec_used()) as u64 }
    }

    /// The meter has used no more than its limit.
    pub open spec fn within_limit(&self) -> bool {
        self.spec_used() <= self.spec_limit()
    }

    /// Used gas minus the refund, the refund capped at a fifth of the used gas.
    pub open spec fn spec_effective_used(&self) -> u64 {
        let cap = self.spec_used() / 5;
        let r = if self.spec_refund() <= cap { self.spec_refund() } else { cap };
        (self.spec_used() - r) as u64
    }

    /// Creates a new gas meter with the given limit and the default costs.
    pub fn new(limit: Gas) -> (r: Self)
        ensures
            r.spec_limit() == limit,
            r.spec_used() == 0,
            r.spec_refund() == 0,
            r.spec_costs() == default_gas_costs(),
            r.within_limit(),
    {
        GasMeter { limit, used: 0, refund: 0, costs: GasCosts::default() }
    }

    /// Creates a new gas meter with custom costs.
    pub fn with_costs(limit: Gas, costs: GasCosts) -> (r: Self)
        ensures
            r.spec_limit() == limit,
            r.spec_used() == 0,
            r.spec_refund() == 0,
            r.spec_costs() == costs,
            r.within_limit(),
    {
        GasMeter { limit, used: 0, refund: 0, costs }
    }

    /// The gas limit.
    #[verifier::when_used_as_spec(spec_limit)]
    pub fn limit(&self) -> (r: Gas)
        ensures
            r == self.spec_limit(),
    {
        self.limit
    }

    /// The gas used so far.
    #[verifier::when_used_as_spec(spec_used)]
    pub fn used(&self) -> (r: Gas)
        ensures
            r == self.spec_used(),
    {
        self.used
    }

    /// The remaining gas.
    #[verifier::when_used_as_spec(spec_remaining)]
    pub fn remaining(&self) -> (r: Gas)
        ensures
            r == self.spec_remaining(),
    {
        self.limit.saturating_sub(self.used)
    }

    /// The accumulated refund.
    #[verifier::when_used_as_spec(spec_refund)]
    pub fn refund(&self) -> (r: Gas)
        ensures
            r == self.spec_refund(),
    {
        self.refund
    }

    /// The cost table of this meter.
    pub fn costs(&self) -> (r: &GasCosts)
        ensures
            *r == self.spec_costs(),
    {
        &self.costs
    }

    /// Consumes `amount` gas; fails, changing nothing, when the used gas would
    /// exceed the limit.
    pub fn consume(&mut self, amount: Gas) -> (r: Result<(), ContractError>)
        ensures
            final(self).spec_limit() == old(self).spec_limit(),
            final(self).spec_refund() == old(self).spec_refund(),
            final(self).spec_costs() == old(self).spec_costs(),
            saturate(old(self).spec_used() + amount) <= old(self).spec_limit() ==> {
                &&& r is Ok
                &&& final(self).spec_used() == saturate(old(self).spec_used() + amount)
            },
            saturate(old(self).spec_used() + amount) > old(self).spec_limit() ==> {
                &&& r == Err::<(), ContractError>(ContractError::OutOfGas {
                    used: saturate(old(self).spec_used() + amount) as u64,
                    limit: old(self).spec_limit(),
                })
                &&& final(self).spec_used() == old(self).spec_used()
            },
            charged(*old(self), *final(self), amount as int),
            r == charge_result(*old(self), amount as int),
            old(self).within_limit() ==> final(self).within_limit(),
            meter_step(*old(self), *final(self)),
    {
        let new_used = self.used.saturating_add(amount);
        if new_used > self.limit {
            assert(charged(*old(self), *self, amount as int));
            return Err(ContractError::out_of_gas(new_used, self.limit));
        }
        self.used = new_used;
        assert(charged(*old(self), *self, amount as int));
        Ok(())
    }

    /// Adds to the refund counter, wrapping around at 2^64.
    pub fn add_refund(&mut self, amount: Gas)
        ensures
            final(self).spec_limit() == old(self).spec_limit(),
            final(self).spec_used() == old(self).spec_used(),
            final(self).spec_costs() == old(self).spec_costs(),
            final(self).spec_refund() == wrapping_sum(old(self).spec_refund(), amount),
            old(self).within_limit() ==> final(self).within_limit(),
            meter_step(*old(self), *final(self)),
    {
        self.refund = self.refund.wrapping_add(amount);
    }

    /// The used gas after refunds; the refund counts for at most a fifth of the used gas.
    #[verifier::when_used_as_spec(spec_effective_used)]
    pub fn effective_used(&self) -> (r: Gas)
        ensures
            r == self.spec_effective_used(),
    {
        let used = self.used;
        let max_refund = used / 5;
        let refund = if self.refund <= max_refund { self.refund } else { max_refund };
        used.saturating_sub(refund)
    }

    /// Resets the used and refund counters; the limit stays.
    pub fn reset(&mut self)
        ensures
            final(self).spec_limit() == old(self).spec_limit(),
            final(self).spec_costs() == old(self).spec_costs(),
            final(self).spec_used() == 0,
            final(self).spec_refund() == 0,
            final(self).within_limit(),
            meter_step(*old(self), *final(self)),
    {
        self.used = 0;
        self.refund = 0;
    }

    /// Creates a meter for a subcall: its limit is the request, capped so that
    /// one sixty-fourth of the remaining gas stays with this meter.
    pub fn child(&self, limit: Gas) -> (r: Self)
        ensures
            r.spec_limit() == child_limit_spec(limit, self.spec_remaining()),
            r.spec_used() == 0,
            r.spec_refund() == 0,
            r.spec_costs() == self.spec_costs(),
            r.within_limit(),
    {
        let available = self.remaining();
        let cap = available - available / 64;
        let child_limit = if limit <= cap { limit } else { cap };
        GasMeter { limit: child_limit, used: 0, refund: 0, costs: self.costs }
    }

    /// Adds the used gas and the refund of a finished child meter to this one,
    /// each wrapping around at 2^64.
    pub fn merge_child(&mut self, child: &GasMeter)
        ensures
            final(self).spec_limit() == old(self).spec_limit(),
            final(self).spec_costs() == old(self).spec_costs(),
            final(self).spec_used() == wrapping_sum(old(self).spec_used(), child.spec_used()),
            final(self).spec_refund() == wrapping_sum(old(self).spec_refund(), child.spec_refund()),
    {
        self.used = self.used.wrapping_add(child.used);
        self.refund = self.refund.wrapping_add(child.refund);
    }
}

/// A successful consumption lowers the remaining gas by exactly the amount.
pub proof fn lemma_consume_lowers_remaining(before: GasMeter, after: GasMeter, amount: u64)
    requires
        before.spec_used() <= before.spec_limit(),
        before.spec_used() + amount <= before.spec_limit(),
        after.spec_limit() == before.spec_limit(),
        after.spec_used() == saturate(before.spec_used() + amount),
    ensures
        after.spec_remaining() == before.spec_remaining() - amount,
        after.spec_used() <= after.spec_limit(),
{
}

/// A meter within its limit has exactly its limit minus its used gas left.
pub proof fn lemma_remaining_within_limit(m: GasMeter)
    requires
        m.within_limit(),
    ensures
        m.spec_remaining() == m.spec_limit() - m.spec_used(),
{
}

/// A meter that starts within its limit, as `new`, `with_costs` and `child`
/// make it, and then only takes charges, refunds and resets, is within its
/// limit at every point of its history, with its limit minus its used gas left.
pub proof fn lemma_meter_history(history: Seq<GasMeter>)
    requires
        history.len() > 0,
        history[0].within_limit(),
        forall|i: int, j: int| 0 <= i && j == i + 1 && j < history.len() ==> #[trigger] meter_step(history[i], history[j]),
    ensures
        forall|i: int| #![trigger history[i]] 0 <= i < history.len() ==> history[i].within_limit()
            && history[i].spec_remaining() == history[i].spec_limit() - history[i].spec_used(),
    decreases history.len(),
{
    if history.len() > 1 {
        let n = history.len() - 1;
        let prefix = history.drop_last();
        assert forall|i: int, j: int| 0 <= i && j == i + 1 && j < prefix.len() implies #[trigger] meter_step(prefix[i], prefix[j]) by {
            assert(meter_step(history[i], history[j]));
        }
        lemma_meter_history(prefix);
        assert(prefix[n - 1] == history[n - 1]);
        assert(meter_step(history[n - 1], history[n]));
        assert(history[n].within_limit());
        assert forall|i: int| #![trigger history[i]] 0 <= i < history.len() implies history[i].within_limit()
            && history[i].spec_remaining() == history[i].spec_limit() - history[i].spec_used() by {
            if i < n {
                assert(prefix[i] == history[i]);
            }
        }
    }
}

/// Refunds only lower the effective gas by what was refunded: never below the
/// used gas minus the refund, not at all without a refund, and by the whole
/// refund when it is at most a fifth of the used gas.
pub proof fn lemma_effective_used_refund(m: GasMeter)
    ensures
        m.spec_effective_used() >= m.spec_used() - m.spec_refund(),
        m.spec_refund() == 0 ==> m.spec_effective_used() == m.spec_used(),
        m.spec_refund() * 5 <= m.spec_used() ==> m.spec_effective_used() == m.spec_used() - m.spec_refund(),
{
}

/// The effective gas is at most the used gas and at least four fifths of it.
pub proof fn lemma_effective_used_bounds(m: GasMeter)
    ensures
        m.spec_effective_used() <= m.spec_used(),
        m.spec_effective_used() >= m.spec_used() - m.spec_used() / 5,
{
}

/// A child meter never gets more than it asked for, nor more than the parent has left.
pub proof fn lemma_child_limit_bounds(requested: u64, available: u64)
    ensures
        child_limit_spec(requested, available) <= requested,
        child_limit_spec(requested, available) <= available,
        child_limit_spec(requested, available) + available / 64 <= available,
{
}

} // verus!
