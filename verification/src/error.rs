//! Errors of contract execution.

use vstd::prelude::*;
use crate::text::{decimal, push_decimal};

verus! {

/// Errors that can occur during contract execution.
#[derive(Debug, Clone, PartialEq, Eq)]
pub enum ContractError {
    /// Ran out of gas during execution
    OutOfGas { used: u64, limit: u64 },
    /// Invalid contract bytecode
    InvalidBytecode(String),
    /// Contract not found at the given address
    ContractNotFound(String),
    /// Function not found in contract
    FunctionNotFound(String),
    /// Invalid function arguments
    InvalidArguments(String),
    /// Contract execution reverted
    Revert(String),
    /// Stack overflow during execution
    StackOverflow,
    /// Stack underflow during execution
    StackUnderflow,
    /// Invalid memory access
    InvalidMemoryAccess { offset: u64, size: u64 },
    /// Invalid storage access
    InvalidStorageAccess(String),
    /// Contract deployment failed
    DeploymentFailed(String),
    /// Reentrancy detected
    Reentrancy(String),
    /// Insufficient balance for value transfer
    InsufficientBalance { required: u64, available: u64 },
    /// Value transfer failed
    TransferFailed(String),
    /// Too many nested calls
    CallDepthExceeded(u32),
    /// WASM execution error
    WasmError(String),
    /// Serialization or deserialization error
    SerializationError(String),
    /// Storage error
    StorageError(String),
    /// Contract already exists at address
    ContractExists(String),
    /// Invalid contract address
    InvalidAddress(String),
    /// Code size exceeds maximum
    CodeSizeExceeded { size: usize, max: usize },
    /// Internal error
    Internal(String),
}

/// The human-readable message of an error.
pub open spec fn error_message(e: ContractError) -> Seq<char> {
    match e {
            ContractError::OutOfGas { used, limit } => "Out of gas: used "@ + decimal(used as nat) + ", limit "@ + decimal(limit as nat),
            ContractError::InvalidBytecode(m) => "Invalid bytecode: "@ + m@,
            ContractError::ContractNotFound(m) => "Contract not found: "@ + m@,
            ContractError::FunctionNotFound(m) => "Function not found: "@ + m@,
            ContractError::InvalidArguments(m) => "Invalid arguments: "@ + m@,
            ContractError::Revert(m) => "Execution reverted: "@ + m@,
            ContractError::StackOverflow => "Stack overflow"@,
            ContractError::StackUnderflow => "Stack underflow"@,
            ContractError::InvalidMemoryAccess { offset, size } => "Invalid memory access at offset "@ + decimal(offset as nat) + ", size "@ + decimal(size as nat),
            ContractError::InvalidStorageAccess(m) => "Invalid storage access: "@ + m@,
            ContractError::DeploymentFailed(m) => "Deployment failed: "@ + m@,
            ContractError::Reentrancy(m) => "Reentrancy detected for contract "@ + m@,
            ContractError::InsufficientBalance { required, available } => "Insufficient balance: required "@ + decimal(required as nat) + ", available "@ + decimal(available as nat),
            ContractError::TransferFailed(m) => "Transfer failed: "@ + m@,
            ContractError::CallDepthExceeded(d) => "Call depth exceeded: "@ + decimal(d as nat),
            ContractError::WasmError(m) => "WASM error: "@ + m@,
            ContractError::SerializationError(m) => "Serialization error: "@ + m@,
            ContractError::StorageError(m) => "Storage error: "@ + m@,
            ContractError::ContractExists(m) => "Contract already exists at address "@ + m@,
            ContractError::InvalidAddress(m) => "Invalid contract address: "@ + m@,
            ContractError::CodeSizeExceeded { size, max } => "Code size "@ + decimal(size as nat) + " exceeds maximum "@ + decimal(max as nat),
            ContractError::Internal(m) => "Internal error: "@ + m@,
    }
}

impl ContractError {
    /// Creates an out of gas error.
    pub fn out_of_gas(used: u64, limit: u64) -> (r: Self)
        ensures
            r == (ContractError::OutOfGas { used, limit }),
    {
        ContractError::OutOfGas { used, limit }
    }

    /// Creates an insufficient balance error.
    pub fn insufficient_balance(required: u64, available: u64) -> (r: Self)
        ensures
            r == (ContractError::InsufficientBalance { required, available }),
    {
        ContractError::InsufficientBalance { required, available }
    }

    /// Creates an invalid memory access error.
    pub fn invalid_memory(offset: u64, size: u64) -> (r: Self)
        ensures
            r == (ContractError::InvalidMemoryAccess { offset, size }),
    {
        ContractError::InvalidMemoryAccess { offset, size }
    }

    /// Creates a code size exceeded error.
    pub fn code_size_exceeded(size: usize, max: usize) -> (r: Self)
        ensures
            r == (ContractError::CodeSizeExceeded { size, max }),
    {
        ContractError::CodeSizeExceeded { size, max }
    }

    /// Whether this is a revert error.
    pub fn is_revert(&self) -> (r: bool)
        ensures
            r == (*self is Revert),
    {
        match self {
            ContractError::Revert(_) => true,
            _ => false,
        }
    }

    /// Whether this is an out of gas error.
    pub fn is_out_of_gas(&self) -> (r: bool)
        ensures
            r == (*self is OutOfGas),
    {
        match self {
            ContractError::OutOfGas { .. } => true,
            _ => false,
        }
    }

    /// The human-readable message of the error.
    pub fn to_string(&self) -> (r: String)
        ensures
            r@ == error_message(*self),
    {
        match self {
            ContractError::OutOfGas { used, limit } => {
                let mut s = String::from_str("Out of gas: used ");
                push_decimal(&mut s, *used);
                s.append(", limit ");
                push_decimal(&mut s, *limit);
                s
            },
            ContractError::InvalidBytecode(m) => {
                let mut s = String::from_str("Invalid bytecode: ");
                s.append(m.as_str());
                s
            },
            ContractError::ContractNotFound(m) => {
                let mut s = String::from_str("Contract not found: ");
                s.append(m.as_str());
                s
            },
            ContractError::FunctionNotFound(m) => {
                let mut s = String::from_str("Function not found: ");
                s.append(m.as_str());
                s
            },
            ContractError::InvalidArguments(m) => {
                let mut s = String::from_str("Invalid arguments: ");
                s.append(m.as_str());
                s
            },
            ContractError::Revert(m) => {
                let mut s = String::from_str("Execution reverted: ");
                s.append(m.as_str());
                s
            },
            ContractError::StackOverflow => String::from_str("Stack overflow"),
            ContractError::StackUnderflow => String::from_str("Stack underflow"),
            ContractError::InvalidMemoryAccess { offset, size } => {
                let mut s = String::from_str("Invalid memory access at offset ");
                push_decimal(&mut s, *offset);
                s.append(", size ");
                push_decimal(&mut s, *size);
                s
            },
            ContractError::InvalidStorageAccess(m) => {
                let mut s = String::from_str("Invalid storage access: ");
                s.append(m.as_str());
                s
            },
            ContractError::DeploymentFailed(m) => {
                let mut s = String::from_str("Deployment failed: ");
                s.append(m.as_str());
                s
            },
            ContractError::Reentrancy(m) => {
                let mut s = String::from_str("Reentrancy detected for contract ");
                s.append(m.as_str());
                s
            },
            ContractError::InsufficientBalance { required, available } => {
                let mut s = String::from_str("Insufficient balance: required ");
                push_decimal(&mut s, *required);
                s.append(", available ");
                push_decimal(&mut s, *available);
                s
            },
            ContractError::TransferFailed(m) => {
                let mut s = String::from_str("Transfer failed: ");
                s.append(m.as_str());
                s
            },
            ContractError::CallDepthExceeded(d) => {
                let mut s = String::from_str("Call depth exceeded: ");
                push_decimal(&mut s, *d as u64);
                s
            },
            ContractError::WasmError(m) => {
                let mut s = String::from_str("WASM error: ");
                s.append(m.as_str());
                s
            },
            ContractError::SerializationError(m) => {
                let mut s = String::from_str("Serialization error: ");
                s.append(m.as_str());
                s
            },
            ContractError::StorageError(m) => {
                let mut s = String::from_str("Storage error: ");
                s.append(m.as_str());
                s
            },
            ContractError::ContractExists(m) => {
                let mut s = String::from_str("Contract already exists at address ");
                s.append(m.as_str());
                s
            },
            ContractError::InvalidAddress(m) => {
                let mut s = String::from_str("Invalid contract address: ");
                s.append(m.as_str());
                s
            },
            ContractError::CodeSizeExceeded { size, max } => {
                let mut s = String::from_str("Code size ");
                push_decimal(&mut s, *size as u64);
                s.append(" exceeds maximum ");
                push_decimal(&mut s, *max as u64);
                s
            },
            ContractError::Internal(m) => {
                let mut s = String::from_str("Internal error: ");
                s.append(m.as_str());
                s
            },
        }
    }
}

/// Result type for contract operations.
pub type ContractResult<T> = Result<T, ContractError>;

} // verus!
