//! Security primitives: reentrancy guard, input validation and rate limiting.

use vstd::prelude::*;
use crate::address::ContractAddress;
use crate::digest::zero_bytes;
use crate::error::ContractError;
use crate::hexstr::hex_encode_spec;
use crate::text::{decimal, push_decimal};

verus! {

broadcast use {ContractAddress::lemma_view_len, vstd::seq_lib::seq_to_set_is_finite};

/// Tracks the contracts that are currently executing, so that none is entered twice.
#[derive(Debug)]
pub struct ReentrancyGuard {
    locked: Vec<ContractAddress>,
}

/// Proof that a contract was entered; hand it back with `ReentrancyGuard::release`.
#[derive(Debug)]
pub struct ReentrancyLock {
    address: ContractAddress,
}

impl ReentrancyLock {
    /// The address this lock holds.
    pub closed spec fn spec_address(&self) -> Seq<u8> {
        self.address@
    }

    /// The address this lock holds.
    pub fn address(&self) -> (r: ContractAddress)
        ensures
            r@ == self.spec_address(),
    {
        self.address
    }
}

impl ReentrancyGuard {
    /// The addresses of the locked contracts.
    pub closed spec fn locked_set(&self) -> Set<Seq<u8>> {
        self.locked@.map_values(|a: ContractAddress| a@).to_set()
    }

    /// No address is held twice.
    pub closed spec fn wf(&self) -> bool {
        forall|i: int, j: int|
            0 <= i < j < self.locked@.len() ==> #[trigger] self.locked@[i]@ != #[trigger] self.locked@[j]@
    }

    /// Creates a guard with no contract locked.
    pub fn new() -> (r: Self)
        ensures
            r.wf(),
            r.locked_set() == Set::<Seq<u8>>::empty(),
            r.locked_set().finite(),
    {
        let r = ReentrancyGuard { locked: Vec::new() };
        assert(r.locked_set() =~= Set::<Seq<u8>>::empty());
        r
    }

    fn position(&self, address: &ContractAddress) -> (r: Option<usize>)
        ensures
            match r {
                Some(i) => i < self.locked@.len() && self.locked@[i as int]@ == address@,
                None => forall|j: int| 0 <= j < self.locked@.len() ==> self.locked@[j]@ != address@,
            },
    {
        let mut i: usize = 0;
        while i < self.locked.len()
            invariant
                i <= self.locked@.len(),
                forall|j: int| 0 <= j < i ==> self.locked@[j]@ != address@,
            decreases self.locked@.len() - i,
        {
            if self.locked[i].equals(address) {
                return Some(i);
            }
            i = i + 1;
        }
        None
    }

    proof fn lemma_in_set(&self, i: int)
        requires
            0 <= i < self.locked@.len(),
        ensures
            self.locked_set().contains(self.locked@[i]@),
    {
        let s = self.locked@.map_values(|a: ContractAddress| a@);
        assert(s[i] == self.locked@[i]@);
    }

    proof fn lemma_not_in_set(&self, a: Seq<u8>)
        requires
            forall|j: int| 0 <= j < self.locked@.len() ==> self.locked@[j]@ != a,
        ensures
            !self.locked_set().contains(a),
    {
        let s = self.locked@.map_values(|x: ContractAddress| x@);
        if s.contains(a) {
            let k = choose|k: int| 0 <= k < s.len() && s[k] == a;
            assert(self.locked@[k]@ == a);
        }
    }

    /// Locks `address`; fails with a reentrancy error, changing nothing, when it is already locked.
    pub fn acquire(&mut self, address: &ContractAddress) -> (r: Result<ReentrancyLock, ContractError>)
        requires
            old(self).wf(),
        ensures
            final(self).wf(),
            final(self).locked_set().finite(),
            old(self).locked_set().contains(address@) ==> {
                &&& final(self).locked_set() == old(self).locked_set()
                &&& r matches Err(e) && e is Reentrancy
                &&& r matches Err(ContractError::Reentrancy(m)) && m@ == "0x"@ + hex_encode_spec(address@)
            },
            !old(self).locked_set().contains(address@) ==> {
                &&& final(self).locked_set() == old(self).locked_set().insert(address@)
                &&& final(self).locked_set().len() == old(self).locked_set().len() + 1
                &&& r matches Ok(lock) && lock.spec_address() == address@
            },
    {
        match self.position(address) {
            Some(i) => {
                proof {
                    self.lemma_in_set(i as int);
                }
                Err(ContractError::Reentrancy(address.to_string()))
            },
            None => {
                proof {
                    self.lemma_not_in_set(address@);
                }
                let ghost old_locked = self.locked@;
                self.locked.push(*address);
                proof {
                    let s_old = old_locked.map_values(|a: ContractAddress| a@);
                    let s_new = self.locked@.map_values(|a: ContractAddress| a@);
                    assert(s_new =~= s_old.push(address@));
                    assert(s_new.to_set() =~= s_old.to_set().insert(address@)) by {
                        assert forall|x: Seq<u8>| s_new.to_set().contains(x) <==> s_old.to_set().insert(address@).contains(x) by {
                            if s_new.contains(x) && x != address@ {
                                let k = choose|k: int| 0 <= k < s_new.len() && s_new[k] == x;
                                assert(k < s_old.len());
                                assert(s_old[k] == x);
                            }
                            if s_old.contains(x) {
                                let k = choose|k: int| 0 <= k < s_old.len() && s_old[k] == x;
                                assert(s_new[k] == x);
                            }
                            if x == address@ {
                                assert(s_new[s_old.len() as int] == x);
                            }
                        }
                    }
                }
                Ok(ReentrancyLock { address: *address })
            },
        }
    }

    /// Unlocks the address that `lock` holds.
    pub fn release(&mut self, lock: ReentrancyLock)
        requires
            old(self).wf(),
        ensures
            final(self).wf(),
            final(self).locked_set().finite(),
            final(self).locked_set() == old(self).locked_set().remove(lock.spec_address()),
    {
        match self.position(&lock.address) {
            Some(i) => {
                let ghost old_locked = self.locked@;
                self.locked.remove(i);
                proof {
                    let s_old = old_locked.map_values(|a: ContractAddress| a@);
                    let s_new = self.locked@.map_values(|a: ContractAddress| a@);
                    assert(self.locked@ =~= old_locked.remove(i as int));
                    assert forall|x: Seq<u8>| s_new.to_set().contains(x) <==> s_old.to_set().remove(lock.spec_address()).contains(x) by {
                        if s_new.contains(x) {
                            let k = choose|k: int| 0 <= k < s_new.len() && s_new[k] == x;
                            if k < i {
                                assert(s_old[k] == x);
                            } else {
                                assert(s_old[k + 1] == x);
                            }
                        }
                        if s_old.contains(x) && x != lock.spec_address() {
                            let k = choose|k: int| 0 <= k < s_old.len() && s_old[k] == x;
                            assert(k != i);
                            if k < i {
                                assert(s_new[k] == x);
                            } else {
                                assert(s_new[k - 1] == x);
                            }
                        }
                    }
                    assert(s_new.to_set() =~= s_old.to_set().remove(lock.spec_address()));
                }
            },
            None => {
                proof {
                    self.lemma_not_in_set(lock.address@);
                    assert(self.locked_set() =~= self.locked_set().remove(lock.spec_address()));
                }
            },
        }
    }

    /// Whether a contract is currently locked.
    pub fn is_locked(&self, address: &ContractAddress) -> (r: bool)
        ensures
            r == self.locked_set().contains(address@),
    {
        match self.position(address) {
            Some(i) => {
                proof {
                    self.lemma_in_set(i as int);
                }
                true
            },
            None => {
                proof {
                    self.lemma_not_in_set(address@);
                }
                false
            },
        }
    }

    /// The number of currently locked contracts.
    pub fn locked_count(&self) -> (r: usize)
        requires
            self.wf(),
        ensures
            r == self.locked_set().len(),
    {
        proof {
            let s = self.locked@.map_values(|a: ContractAddress| a@);
            assert(s.no_duplicates());
            s.unique_seq_to_set();
        }
        self.locked.len()
    }
}

/// Input validation limits and checks.
pub struct InputValidator;

/// Maximum allowed input data size (64KB).
pub const MAX_INPUT_SIZE: usize = 65536;

/// Maximum allowed return data size (64KB).
pub const MAX_RETURN_SIZE: usize = 65536;

/// Maximum number of log topics.
pub const MAX_LOG_TOPICS: usize = 4;

/// Maximum log data size (16KB).
pub const MAX_LOG_DATA_SIZE: usize = 16384;

/// The message of an oversized input.
pub open spec fn input_size_message(len: nat) -> Seq<char> {
    "Input size "@ + decimal(len) + " exceeds maximum "@ + decimal(MAX_INPUT_SIZE as nat)
}

/// The message of an oversized return value.
pub open spec fn return_size_message(len: nat) -> Seq<char> {
    "Return size "@ + decimal(len) + " exceeds maximum "@ + decimal(MAX_RETURN_SIZE as nat)
}

/// The message of a log with too many topics.
pub open spec fn log_topics_message(topics: nat) -> Seq<char> {
    "Too many log topics: "@ + decimal(topics) + " (max "@ + decimal(MAX_LOG_TOPICS as nat) + ")"@
}

/// The message of a log with too much data.
pub open spec fn log_data_message(size: nat) -> Seq<char> {
    "Log data size "@ + decimal(size) + " exceeds maximum "@ + decimal(MAX_LOG_DATA_SIZE as nat)
}

impl InputValidator {
    /// Maximum allowed input data size (64KB).
    pub const MAX_INPUT_SIZE: usize = 65536;

    /// Maximum allowed return data size (64KB).
    pub const MAX_RETURN_SIZE: usize = 65536;

    /// Maximum number of log topics.
    pub const MAX_LOG_TOPICS: usize = 4;

    /// Maximum log data size (16KB).
    pub const MAX_LOG_DATA_SIZE: usize = 16384;

    /// Accepts input data of at most 64KB.
    pub fn validate_input_size(data: &[u8]) -> (r: Result<(), ContractError>)
        ensures
            r is Ok <==> data@.len() <= MAX_INPUT_SIZE,
            r matches Err(ContractError::InvalidArguments(m)) ==> m@ == input_size_message(data@.len()),
            r matches Err(e) ==> e is InvalidArguments,
    {
        if data.len() > MAX_INPUT_SIZE {
            let mut m = String::from_str("Input size ");
            push_decimal(&mut m, data.len() as u64);
            m.append(" exceeds maximum ");
            push_decimal(&mut m, MAX_INPUT_SIZE as u64);
            return Err(ContractError::InvalidArguments(m));
        }
        Ok(())
    }

    /// Accepts return data of at most 64KB.
    pub fn validate_return_size(data: &[u8]) -> (r: Result<(), ContractError>)
        ensures
            r is Ok <==> data@.len() <= MAX_RETURN_SIZE,
            r matches Err(ContractError::InvalidArguments(m)) ==> m@ == return_size_message(data@.len()),
            r matches Err(e) ==> e is InvalidArguments,
    {
        if data.len() > MAX_RETURN_SIZE {
            let mut m = String::from_str("Return size ");
            push_decimal(&mut m, data.len() as u64);
            m.append(" exceeds maximum ");
            push_decimal(&mut m, MAX_RETURN_SIZE as u64);
            return Err(ContractError::InvalidArguments(m));
        }
        Ok(())
    }

    /// Accepts a log of at most 4 topics and at most 16KB of data; the topic
    /// count is checked first.
    pub fn validate_log(topics: usize, data_size: usize) -> (r: Result<(), ContractError>)
        ensures
            r is Ok <==> topics <= MAX_LOG_TOPICS && data_size <= MAX_LOG_DATA_SIZE,
            r matches Err(e) ==> e is InvalidArguments,
            topics > MAX_LOG_TOPICS ==> (r matches Err(ContractError::InvalidArguments(m)) && m@ == log_topics_message(topics as nat)),
            topics <= MAX_LOG_TOPICS && data_size > MAX_LOG_DATA_SIZE ==> (r matches Err(ContractError::InvalidArguments(m)) && m@ == log_data_message(data_size as nat)),
    {
        if topics > MAX_LOG_TOPICS {
            let mut m = String::from_str("Too many log topics: ");
            push_decimal(&mut m, topics as u64);
            m.append(" (max ");
            push_decimal(&mut m, MAX_LOG_TOPICS as u64);
            m.append(")");
            return Err(ContractError::InvalidArguments(m));
        }
        if data_size > MAX_LOG_DATA_SIZE {
            let mut m = String::from_str("Log data size ");
            push_decimal(&mut m, data_size as u64);
            m.append(" exceeds maximum ");
            push_decimal(&mut m, MAX_LOG_DATA_SIZE as u64);
            return Err(ContractError::InvalidArguments(m));
        }
        Ok(())
    }

    /// Rejects the zero address as a target.
    pub fn validate_address(address: &ContractAddress) -> (r: Result<(), ContractError>)
        ensures
            r is Ok <==> address@ != zero_bytes(20),
            r matches Err(e) ==> e matches ContractError::InvalidAddress(m) && m@ == "zero address"@,
    {
        if address.is_zero() {
            return Err(ContractError::InvalidAddress(String::from_str("zero address")));
        }
        Ok(())
    }

    /// Accepts a transfer of `value` when it does not exceed `balance`.
    pub fn validate_value(value: u64, balance: u64) -> (r: Result<(), ContractError>)
        ensures
            r is Ok <==> value <= balance,
            r matches Err(e) ==> e == (ContractError::InsufficientBalance { required: value, available: balance }),
    {
        if value > balance {
            return Err(ContractError::insufficient_balance(value, balance));
        }
        Ok(())
    }
}

/// Limits the number of operations per block.
#[derive(Debug)]
pub struct RateLimiter {
    max_ops_per_block: u32,
    current_ops: u32,
}

impl RateLimiter {
    /// The operations allowed per block.
    pub closed spec fn spec_max(&self) -> u32 {
        self.max_ops_per_block
    }

    /// The operations taken in the current block.
    pub closed spec fn spec_current(&self) -> u32 {
        self.current_ops
    }

    /// Operations taken never exceed the maximum.
    pub closed spec fn wf(&self) -> bool {
        self.current_ops <= self.max_ops_per_block
    }

    /// Creates a limiter that allows `max_ops_per_block` operations per block.
    pub fn new(max_ops_per_block: u32) -> (r: Self)
        ensures
            r.wf(),
            r.spec_max() == max_ops_per_block,
            r.spec_current() == 0,
    {
        RateLimiter { max_ops_per_block, current_ops: 0 }
    }

    /// Takes one operation slot; fails, changing nothing, when the block's slots are used up.
    pub fn try_consume(&mut self) -> (r: Result<(), ContractError>)
        requires
            old(self).wf(),
        ensures
            final(self).wf(),
            final(self).spec_max() == old(self).spec_max(),
            r is Ok <==> old(self).spec_current() < old(self).spec_max(),
            r is Ok ==> final(self).spec_current() == old(self).spec_current() + 1,
            r is Err ==> final(self).spec_current() == old(self).spec_current(),
            r matches Err(e) ==> e matches ContractError::Internal(m) && m@ == "Rate limit exceeded for block"@,
    {
        if self.current_ops >= self.max_ops_per_block {
            return Err(ContractError::Internal(String::from_str("Rate limit exceeded for block")));
        }
        self.current_ops = self.current_ops + 1;
        Ok(())
    }

    /// Resets the operation count for a new block.
    pub fn reset(&mut self)
        ensures
            final(self).wf(),
            final(self).spec_max() == old(self).spec_max(),
            final(self).spec_current() == 0,
    {
        self.current_ops = 0;
    }

    /// The number of operations still allowed in this block.
    pub fn remaining(&self) -> (r: u32)
        ensures
            r == if self.spec_current() <= self.spec_max() { self.spec_max() - self.spec_current() } else { 0 },
    {
        self.max_ops_per_block.saturating_sub(self.current_ops)
    }
}

impl Default for ReentrancyGuard {
    fn default() -> (r: Self)
        ensures
            r.wf(),
            r.locked_set() == Set::<Seq<u8>>::empty(),
    {
        Self::new()
    }
}

impl Default for RateLimiter {
    fn default() -> (r: Self)
        ensures
            r.wf(),
            r.spec_max() == 10000,
            r.spec_current() == 0,
    {
        Self::new(10000)
    }
}

} // verus!
