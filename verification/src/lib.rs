//! Verified core of a WASM smart-contract layer: addresses, ABI selectors,
//! gas metering, contract storage, accounts, memory, host functions, the
//! executor, the block-level runtime, transactions and events.

pub mod text;
pub mod assoc;
pub mod digest;
pub mod hexstr;
pub mod address;
pub mod error;
pub mod gas;
pub mod abi;
pub mod security;
pub mod types;
pub mod state;
pub mod account;
pub mod code;
pub mod memory;
pub mod host;
pub mod wasm;
pub mod executor;
pub mod runtime;
pub mod transaction;
pub mod events;
pub mod rpc;
