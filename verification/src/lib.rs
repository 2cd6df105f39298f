//! Acquiring handles to smart contracts: resolving the instance that an
//! artifact records for the connected network, and building the transaction
//! that deploys a new one.
//!
//! The library holds the decisions; whoever embeds it performs the requests
//! to the node and feeds their outcomes back in.

pub mod abi;
pub mod bytecode;
pub mod contract;
pub mod errors;
pub mod hex;
pub mod linking;
pub mod table;
pub mod transaction;
pub mod truffle;
pub mod types;
