//! Host functions exposed to contracts: storage access with warm/cold gas,
//! context and block queries, hashing and logging.

use vstd::prelude::*;
use crate::address::ContractAddress;
use crate::digest::{keccak256, keccak256_digest, zero_bytes};
use crate::error::ContractError;
use crate::gas::{can_charge, charge_result, charged, log_cost_spec, words, Gas, GasMeter};
use crate::state::{ContractStorage, StorageKey, StorageValue};
use crate::text::{decimal, push_decimal};
use crate::types::{Log, LogTopic};

verus! {

/// Maximum log data size (8KB).
pub const MAX_LOG_DATA_SIZE: usize = 8 * 1024;

/// Maximum number of topics per log.
pub const MAX_LOG_TOPICS: usize = 4;

/// The message of a log with too many topics.
pub open spec fn too_many_topics_message(n: nat) -> Seq<char> {
    "Too many topics: "@ + decimal(n) + " > "@ + decimal(MAX_LOG_TOPICS as nat)
}

/// The message of a log with too much data.
pub open spec fn log_data_too_large_message(n: nat) -> Seq<char> {
    "Log data too large: "@ + decimal(n) + " > "@ + decimal(MAX_LOG_DATA_SIZE as nat)
}

/// The gas a storage read costs: warm slots are cheap, cold ones dear.
pub open spec fn sload_cost(g: GasMeter, warm: bool) -> int {
    if warm { g.spec_costs().sload_warm as int } else { g.spec_costs().sload_cold as int }
}

/// The gas a storage write costs, by the current and the new value.
pub open spec fn sstore_cost(g: GasMeter, current: Seq<u8>, value: Seq<u8>) -> int {
    if current == zero_bytes(32) && value != zero_bytes(32) {
        g.spec_costs().storage_write_new as int
    } else {
        g.spec_costs().storage_write_existing as int
    }
}

/// Whether a write clears a slot (and earns a refund).
pub open spec fn clears_slot(current: Seq<u8>, value: Seq<u8>) -> bool {
    current != zero_bytes(32) && value == zero_bytes(32)
}

/// The gas hashing `len` bytes costs.
pub open spec fn sha3_cost(g: GasMeter, len: int) -> int {
    g.spec_costs().sha3_base + words(len) * g.spec_costs().sha3_per_word
}

/// Host functions available to a contract.
pub struct HostFunctions {
    storage: ContractStorage,
    address: ContractAddress,
    caller: ContractAddress,
    origin: ContractAddress,
    value: u64,
    block_number: u64,
    timestamp: u64,
    daa_score: u64,
    gas: GasMeter,
}

impl HostFunctions {
    /// The contract storage these functions work on.
    pub closed spec fn store(&self) -> ContractStorage {
        self.storage
    }

    /// The gas meter these functions charge.
    pub closed spec fn meter(&self) -> GasMeter {
        self.gas
    }

    /// The current contract.
    pub closed spec fn spec_address(&self) -> ContractAddress {
        self.address
    }

    /// The caller, origin, value and block data, in that order.
    pub closed spec fn spec_context(&self) -> (ContractAddress, ContractAddress, u64, u64, u64, u64) {
        (self.caller, self.origin, self.value, self.block_number, self.timestamp, self.daa_score)
    }

    /// Creates host functions over a storage and a gas meter.
    pub fn new(
        storage: ContractStorage,
        address: ContractAddress,
        caller: ContractAddress,
        origin: ContractAddress,
        value: u64,
        block_number: u64,
        timestamp: u64,
        daa_score: u64,
        gas: GasMeter,
    ) -> (r: Self)
        ensures
            r.store() == storage,
            r.meter() == gas,
            r.spec_address() == address,
            r.spec_context() == (caller, origin, value, block_number, timestamp, daa_score),
    {
        HostFunctions { storage, address, caller, origin, value, block_number, timestamp, daa_score, gas }
    }

    /// Reads a slot of the current contract, charging the warm or cold read cost
    /// (the slot becomes warm either way).
    pub fn storage_read(&mut self, key: &StorageKey) -> (r: Result<StorageValue, ContractError>)
        requires
            old(self).store().wf(),
        ensures
            ({
                let a = old(self).spec_address()@;
                let cost = sload_cost(old(self).meter(), old(self).store().warm_spec(a, key@));
                &&& charged(old(self).meter(), final(self).meter(), cost)
                &&& r is Ok <==> can_charge(old(self).meter(), cost)
                &&& r matches Ok(v) ==> v@ == old(self).store().read_spec(a, key@)
                &&& r matches Err(e) ==> charge_result(old(self).meter(), cost) == Err::<(), ContractError>(e)
                &&& final(self).store().wf()
                &&& final(self).store().cache_view() == old(self).store().cache_view()
                &&& forall|x: Seq<u8>, k: Seq<u8>| #[trigger] final(self).store().warm_spec(x, k)
                    == (old(self).store().warm_spec(x, k) || (x == a && k == key@))
            }),
            final(self).spec_address() == old(self).spec_address(),
            final(self).spec_context() == old(self).spec_context(),
    {
        let cost = if self.storage.is_warm(&self.address, key) {
            self.gas.costs().sload_warm
        } else {
            self.storage.mark_warm(&self.address, *key);
            self.gas.costs().sload_cold
        };
        match self.gas.consume(cost) {
            Ok(()) => {},
            Err(e) => {
                return Err(e);
            },
        }
        Ok(self.storage.read(&self.address, key))
    }

    /// Writes a slot of the current contract. A new non-zero slot costs the new-slot
    /// price, anything else the existing-slot price; clearing a slot adds the clear
    /// refund (before the charge, so also when the charge fails). The slot becomes warm.
    pub fn storage_write(&mut self, key: StorageKey, value: StorageValue) -> (r: Result<(), ContractError>)
        requires
            old(self).store().wf(),
        ensures
            ({
                let a = old(self).spec_address()@;
                let g = old(self).meter();
                let current = old(self).store().read_spec(a, key@);
                let cost = sstore_cost(g, current, value@);
                let refund = if clears_slot(current, value@) { crate::gas::wrapping_sum(g.spec_refund(), g.spec_costs().storage_clear_refund) } else { g.spec_refund() };
                &&& final(self).meter().spec_limit() == g.spec_limit()
                &&& final(self).meter().spec_costs() == g.spec_costs()
                &&& final(self).meter().spec_refund() == refund
                &&& final(self).meter().spec_used() == if can_charge(g, cost) { crate::gas::saturate(g.spec_used() + cost) } else { g.spec_used() as int }
                &&& r == charge_result(g, cost)
                &&& final(self).store().wf()
                &&& r is Ok ==> final(self).store().cache_view() == crate::state::storage_write(old(self).store().cache_view(), a, key@, value@)
                &&& r is Err ==> final(self).store().cache_view() == old(self).store().cache_view()
                &&& forall|x: Seq<u8>, k: Seq<u8>| #[trigger] final(self).store().warm_spec(x, k)
                    == (old(self).store().warm_spec(x, k) || (x == a && k == key@))
            }),
            final(self).spec_address() == old(self).spec_address(),
            final(self).spec_context() == old(self).spec_context(),
    {
        let current = self.storage.read(&self.address, &key);
        let is_warm = self.storage.is_warm(&self.address, &key);
        if !is_warm {
            self.storage.mark_warm(&self.address, key);
        }
        let zero = crate::state::zero_value();
        let current_zero = crate::digest::bytes32_eq(&current, &zero);
        let value_zero = crate::digest::bytes32_eq(&value, &zero);
        let cost = if current_zero && !value_zero {
            self.gas.costs().storage_write_new
        } else if !current_zero && value_zero {
            let refund = self.gas.costs().storage_clear_refund;
            self.gas.add_refund(refund);
            self.gas.costs().storage_write_existing
        } else {
            self.gas.costs().storage_write_existing
        };
        match self.gas.consume(cost) {
            Ok(()) => {},
            Err(e) => {
                return Err(e);
            },
        }
        self.storage.write(&self.address, key, value);
        Ok(())
    }

    /// The caller address.
    pub fn get_caller(&self) -> (r: ContractAddress)
        ensures
            r == self.spec_context().0,
    {
        self.caller
    }

    /// The origin address (the transaction sender).
    pub fn get_origin(&self) -> (r: ContractAddress)
        ensures
            r == self.spec_context().1,
    {
        self.origin
    }

    /// The current contract address.
    pub fn get_address(&self) -> (r: ContractAddress)
        ensures
            r == self.spec_address(),
    {
        self.address
    }

    /// The value sent with the call.
    pub fn get_value(&self) -> (r: u64)
        ensures
            r == self.spec_context().2,
    {
        self.value
    }

    /// The current block number.
    pub fn get_block_number(&self) -> (r: u64)
        ensures
            r == self.spec_context().3,
    {
        self.block_number
    }

    /// The current block timestamp.
    pub fn get_timestamp(&self) -> (r: u64)
        ensures
            r == self.spec_context().4,
    {
        self.timestamp
    }

    /// The current DAA score.
    pub fn get_daa_score(&self) -> (r: u64)
        ensures
            r == self.spec_context().5,
    {
        self.daa_score
    }

    /// The Keccak-256 hash of `data`, after charging the base cost plus the per-word cost.
    pub fn sha3(&mut self, data: &[u8]) -> (r: Result<[u8; 32], ContractError>)
        requires
            data@.len() + 31 <= usize::MAX,
            sha3_cost(old(self).meter(), data@.len() as int) <= u64::MAX,
        ensures
            ({
                let cost = sha3_cost(old(self).meter(), data@.len() as int);
                &&& charged(old(self).meter(), final(self).meter(), cost)
                &&& r is Ok <==> can_charge(old(self).meter(), cost)
                &&& r matches Ok(h) ==> h@ == keccak256_digest(data@)
                &&& r matches Err(e) ==> charge_result(old(self).meter(), cost) == Err::<(), ContractError>(e)
            }),
            final(self).store() == old(self).store(),
            final(self).spec_address() == old(self).spec_address(),
            final(self).spec_context() == old(self).spec_context(),
    {
        let w = (data.len() + 31) / 32;
        proof {
            assert(w == words(data@.len() as int));
            assert(0 <= w * self.gas.spec_costs().sha3_per_word) by (nonlinear_arith)
                requires
                    0 <= w,
                    0 <= self.gas.spec_costs().sha3_per_word,
            ;
        }
        let cost: Gas = self.gas.costs().sha3_base + (w as u64) * self.gas.costs().sha3_per_word;
        match self.gas.consume(cost) {
            Ok(()) => {},
            Err(e) => {
                return Err(e);
            },
        }
        Ok(keccak256(data))
    }

    /// Emits a log of the current contract: at most 4 topics and 8KB of data, then
    /// charges the log cost.
    pub fn emit_log(&mut self, topics: Vec<LogTopic>, data: Vec<u8>) -> (r: Result<Log, ContractError>)
        ensures
            topics@.len() > MAX_LOG_TOPICS ==> (r matches Err(ContractError::InvalidArguments(m))
                && m@ == too_many_topics_message(topics@.len())) && final(self).meter() == old(self).meter(),
            topics@.len() <= MAX_LOG_TOPICS && data@.len() > MAX_LOG_DATA_SIZE ==> (r matches Err(ContractError::InvalidArguments(m))
                && m@ == log_data_too_large_message(data@.len())) && final(self).meter() == old(self).meter(),
            topics@.len() <= MAX_LOG_TOPICS && data@.len() <= MAX_LOG_DATA_SIZE ==> ({
                let cost = log_cost_spec(old(self).meter().spec_costs(), topics@.len() as int, data@.len() as int);
                &&& charged(old(self).meter(), final(self).meter(), cost)
                &&& r is Ok <==> can_charge(old(self).meter(), cost)
                &&& r matches Ok(log) ==> log.address == old(self).spec_address() && log.topics@ == topics@ && log.data@ == data@
                &&& r matches Err(e) ==> charge_result(old(self).meter(), cost) == Err::<(), ContractError>(e)
            }),
            final(self).store() == old(self).store(),
            final(self).spec_address() == old(self).spec_address(),
            final(self).spec_context() == old(self).spec_context(),
    {
        if topics.len() > MAX_LOG_TOPICS {
            let mut m = String::from_str("Too many topics: ");
            push_decimal(&mut m, topics.len() as u64);
            m.append(" > ");
            push_decimal(&mut m, MAX_LOG_TOPICS as u64);
            return Err(ContractError::InvalidArguments(m));
        }
        if data.len() > MAX_LOG_DATA_SIZE {
            let mut m = String::from_str("Log data too large: ");
            push_decimal(&mut m, data.len() as u64);
            m.append(" > ");
            push_decimal(&mut m, MAX_LOG_DATA_SIZE as u64);
            return Err(ContractError::InvalidArguments(m));
        }
        let cost = self.gas.costs().log_cost(topics.len(), data.len());
        match self.gas.consume(cost) {
            Ok(()) => {},
            Err(e) => {
                return Err(e);
            },
        }
        Ok(Log::new(self.address, topics, data))
    }

    /// The balance of an address, after charging the balance query cost. No account
    /// storage is attached to host functions, so the answer is 0.
    pub fn get_balance(&mut self, _address: &ContractAddress) -> (r: Result<u64, ContractError>)
        ensures
            ({
                let cost = old(self).meter().spec_costs().balance as int;
                &&& charged(old(self).meter(), final(self).meter(), cost)
                &&& r is Ok <==> can_charge(old(self).meter(), cost)
                &&& r matches Ok(b) ==> b == 0
                &&& r matches Err(e) ==> charge_result(old(self).meter(), cost) == Err::<(), ContractError>(e)
            }),
            final(self).store() == old(self).store(),
            final(self).spec_address() == old(self).spec_address(),
            final(self).spec_context() == old(self).spec_context(),
    {
        let cost = self.gas.costs().balance;
        match self.gas.consume(cost) {
            Ok(()) => {},
            Err(e) => {
                return Err(e);
            },
        }
        Ok(0)
    }

    /// The balance of the current contract, after charging 5 gas; the answer is 0
    /// for the same reason as in `get_balance`.
    pub fn get_self_balance(&mut self) -> (r: Result<u64, ContractError>)
        ensures
            charged(old(self).meter(), final(self).meter(), 5),
            r is Ok <==> can_charge(old(self).meter(), 5),
            r matches Ok(b) ==> b == 0,
            r matches Err(e) ==> charge_result(old(self).meter(), 5) == Err::<(), ContractError>(e),
            final(self).store() == old(self).store(),
            final(self).spec_address() == old(self).spec_address(),
            final(self).spec_context() == old(self).spec_context(),
    {
        match self.gas.consume(5) {
            Ok(()) => {},
            Err(e) => {
                return Err(e);
            },
        }
        Ok(0)
    }

    /// The remaining gas.
    pub fn gas_remaining(&self) -> (r: Gas)
        ensures
            r == self.meter().spec_remaining(),
    {
        self.gas.remaining()
    }

    /// The gas used so far.
    pub fn gas_used(&self) -> (r: Gas)
        ensures
            r == self.meter().spec_used(),
    {
        self.gas.used()
    }

    /// The storage these host functions read and write.
    pub fn storage(&self) -> (r: &ContractStorage)
        ensures
            *r == self.store(),
    {
        &self.storage
    }

    /// The gas meter these host functions charge.
    pub fn gas(&self) -> (r: &GasMeter)
        ensures
            *r == self.meter(),
    {
        &self.gas
    }

    /// Ends the host functions, handing back the storage with every write made
    /// through them and the meter with every charge.
    pub fn into_parts(self) -> (r: (ContractStorage, GasMeter))
        ensures
            r.0 == self.store(),
            r.1 == self.meter(),
    {
        (self.storage, self.gas)
    }
}

} // verus!
