//! Contract transaction payloads, logs and receipts.

use vstd::prelude::*;
use crate::address::ContractAddress;
use crate::digest::{keccak256_digest};
use crate::gas::Gas;

verus! {

/// Payload of a contract transaction.
#[derive(Debug, Clone, PartialEq, Eq)]
pub enum ContractPayload {
    /// Deploy a new contract
    Deploy(ContractDeploy),
    /// Call an existing contract
    Call(ContractCall),
}

impl ContractPayload {
    /// Whether this is a deployment payload.
    pub fn is_deploy(&self) -> (r: bool)
        ensures
            r == (*self is Deploy),
    {
        match self {
            ContractPayload::Deploy(_) => true,
            _ => false,
        }
    }

    /// Whether this is a call payload.
    pub fn is_call(&self) -> (r: bool)
        ensures
            r == (*self is Call),
    {
        match self {
            ContractPayload::Call(_) => true,
            _ => false,
        }
    }

    /// The gas limit of the payload.
    pub fn gas_limit(&self) -> (r: Gas)
        ensures
            r == match *self {
                ContractPayload::Deploy(d) => d.gas_limit,
                ContractPayload::Call(c) => c.gas_limit,
            },
    {
        match self {
            ContractPayload::Deploy(d) => d.gas_limit,
            ContractPayload::Call(c) => c.gas_limit,
        }
    }
}

/// Contract deployment data.
#[derive(Debug, Clone, PartialEq, Eq)]
pub struct ContractDeploy {
    /// The WASM bytecode of the contract
    pub code: Vec<u8>,
    /// Constructor arguments (ABI encoded)
    pub init_data: Vec<u8>,
    /// Gas limit for deployment
    pub gas_limit: Gas,
    /// Value to send with deployment (in sompis)
    pub value: u64,
    /// Salt for CREATE2 deployment (optional)
    pub salt: Option<[u8; 32]>,
}

impl ContractDeploy {
    /// Creates a deployment payload without a salt.
    pub fn new(code: Vec<u8>, init_data: Vec<u8>, gas_limit: Gas, value: u64) -> (r: Self)
        ensures
            r.code@ == code@,
            r.init_data@ == init_data@,
            r.gas_limit == gas_limit,
            r.value == value,
            r.salt is None,
    {
        ContractDeploy { code, init_data, gas_limit, value, salt: None }
    }

    /// Creates a CREATE2 deployment payload.
    pub fn new_create2(code: Vec<u8>, init_data: Vec<u8>, gas_limit: Gas, value: u64, salt: [u8; 32]) -> (r: Self)
        ensures
            r.code@ == code@,
            r.init_data@ == init_data@,
            r.gas_limit == gas_limit,
            r.value == value,
            r.salt == Some(salt),
    {
        ContractDeploy { code, init_data, gas_limit, value, salt: Some(salt) }
    }

    /// The Keccak-256 hash of the code.
    pub fn code_hash(&self) -> (r: crate::digest::Hash)
        ensures
            r@ == keccak256_digest(self.code@),
    {
        crate::digest::Hash::keccak(self.code.as_slice())
    }
}

/// Contract call data.
#[derive(Debug, Clone, PartialEq, Eq)]
pub struct ContractCall {
    /// Target contract address
    pub to: ContractAddress,
    /// Function selector and arguments (ABI encoded)
    pub data: Vec<u8>,
    /// Gas limit for the call
    pub gas_limit: Gas,
    /// Value to send with the call (in sompis)
    pub value: u64,
}

impl ContractCall {
    /// Creates a call payload.
    pub fn new(to: ContractAddress, data: Vec<u8>, gas_limit: Gas, value: u64) -> (r: Self)
        ensures
            r.to == to,
            r.data@ == data@,
            r.gas_limit == gas_limit,
            r.value == value,
    {
        ContractCall { to, data, gas_limit, value }
    }

    /// The function selector: the first 4 bytes of the data, when there are 4.
    pub fn selector(&self) -> (r: Option<[u8; 4]>)
        ensures
            self.data@.len() >= 4 ==> (r matches Some(s) && s@ == self.data@.subrange(0, 4)),
            self.data@.len() < 4 ==> r is None,
    {
        if self.data.len() >= 4 {
            let s = [self.data[0], self.data[1], self.data[2], self.data[3]];
            assert(s@ =~= self.data@.subrange(0, 4));
            Some(s)
        } else {
            None
        }
    }

    /// The call arguments: the data after the selector, empty when there is no selector.
    pub fn arguments(&self) -> (r: &[u8])
        ensures
            self.data@.len() >= 4 ==> r@ == self.data@.subrange(4, self.data@.len() as int),
            self.data@.len() < 4 ==> r@.len() == 0,
    {
        let d = self.data.as_slice();
        if d.len() >= 4 {
            &d[4..d.len()]
        } else {
            &d[0..0]
        }
    }
}

/// Log topic (32 bytes).
pub type LogTopic = [u8; 32];

/// Event log emitted by a contract.
#[derive(Debug, PartialEq, Eq)]
pub struct Log {
    /// Address of the contract that emitted this log
    pub address: ContractAddress,
    /// Indexed topics (up to 4)
    pub topics: Vec<LogTopic>,
    /// Non-indexed data
    pub data: Vec<u8>,
}

impl Log {
    /// Creates a log.
    pub fn new(address: ContractAddress, topics: Vec<LogTopic>, data: Vec<u8>) -> (r: Self)
        ensures
            r.address == address,
            r.topics@ == topics@,
            r.data@ == data@,
    {
        Log { address, topics, data }
    }

    /// The first topic (usually the event signature).
    pub fn event_signature(&self) -> (r: Option<&LogTopic>)
        ensures
            self.topics@.len() > 0 ==> r == Some(&self.topics@[0]),
            self.topics@.len() == 0 ==> r is None,
    {
        if self.topics.len() > 0 {
            Some(&self.topics[0])
        } else {
            None
        }
    }
}

impl Clone for Log {
    fn clone(&self) -> (r: Self)
        ensures
            r.address == self.address,
            r.topics@ == self.topics@,
            r.data@ == self.data@,
    {
        let mut topics: Vec<LogTopic> = Vec::new();
        let mut i: usize = 0;
        while i < self.topics.len()
            invariant
                i <= self.topics@.len(),
                topics@ == self.topics@.subrange(0, i as int),
            decreases self.topics@.len() - i,
        {
            topics.push(self.topics[i]);
            i = i + 1;
        }
        let data = self.data.clone();
        assert(data@ =~= self.data@);
        assert(topics@ =~= self.topics@);
        Log { address: self.address, topics, data }
    }
}

/// Execution status of a transaction.
#[derive(Debug, Clone, Copy, PartialEq, Eq, Structural)]
pub enum ExecutionStatus {
    /// Execution succeeded
    Success,
    /// Execution reverted
    Reverted,
    /// Execution failed (out of gas, etc.)
    Failed,
}

/// Receipt for a contract transaction.
#[derive(Debug, Clone, PartialEq, Eq)]
pub struct ContractReceipt {
    /// Transaction hash
    pub tx_hash: crate::digest::Hash,
    /// Execution status
    pub status: ExecutionStatus,
    /// Gas used by this transaction
    pub gas_used: Gas,
    /// Contract address (for deployments)
    pub contract_address: Option<ContractAddress>,
    /// Return data from execution
    pub return_data: Vec<u8>,
    /// Logs emitted during execution
    pub logs: Vec<Log>,
    /// Error message (if failed/reverted)
    pub error: Option<String>,
}

impl ContractReceipt {
    /// A receipt of a successful execution.
    pub fn success(
        tx_hash: crate::digest::Hash,
        gas_used: Gas,
        contract_address: Option<ContractAddress>,
        return_data: Vec<u8>,
        logs: Vec<Log>,
    ) -> (r: Self)
        ensures
            r.tx_hash == tx_hash,
            r.status == ExecutionStatus::Success,
            r.gas_used == gas_used,
            r.contract_address == contract_address,
            r.return_data@ == return_data@,
            r.logs@ == logs@,
            r.error is None,
    {
        ContractReceipt {
            tx_hash,
            status: ExecutionStatus::Success,
            gas_used,
            contract_address,
            return_data,
            logs,
            error: None,
        }
    }

    /// A receipt of a reverted execution.
    pub fn reverted(tx_hash: crate::digest::Hash, gas_used: Gas, error: String, logs: Vec<Log>) -> (r: Self)
        ensures
            r.tx_hash == tx_hash,
            r.status == ExecutionStatus::Reverted,
            r.gas_used == gas_used,
            r.contract_address is None,
            r.return_data@.len() == 0,
            r.logs@ == logs@,
            r.error == Some(error),
    {
        ContractReceipt {
            tx_hash,
            status: ExecutionStatus::Reverted,
            gas_used,
            contract_address: None,
            return_data: Vec::new(),
            logs,
            error: Some(error),
        }
    }

    /// A receipt of a failed execution.
    pub fn failed(tx_hash: crate::digest::Hash, gas_used: Gas, error: String) -> (r: Self)
        ensures
            r.tx_hash == tx_hash,
            r.status == ExecutionStatus::Failed,
            r.gas_used == gas_used,
            r.contract_address is None,
            r.return_data@.len() == 0,
            r.logs@.len() == 0,
            r.error == Some(error),
    {
        ContractReceipt {
            tx_hash,
            status: ExecutionStatus::Failed,
            gas_used,
            contract_address: None,
            return_data: Vec::new(),
            logs: Vec::new(),
            error: Some(error),
        }
    }

    /// Whether execution was successful.
    pub fn is_success(&self) -> (r: bool)
        ensures
            r == (self.status == ExecutionStatus::Success),
    {
        self.status == ExecutionStatus::Success
    }

    /// Whether execution was reverted.
    pub fn is_reverted(&self) -> (r: bool)
        ensures
            r == (self.status == ExecutionStatus::Reverted),
    {
        self.status == ExecutionStatus::Reverted
    }

    /// Whether execution failed.
    pub fn is_failed(&self) -> (r: bool)
        ensures
            r == (self.status == ExecutionStatus::Failed),
    {
        self.status == ExecutionStatus::Failed
    }
}

} // verus!
