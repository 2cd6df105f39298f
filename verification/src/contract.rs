//! Handles to contracts, and the ways to come by one.

use crate::abi::Abi;
use crate::types::Address;
use vstd::prelude::*;

pub mod deploy;

verus! {

/// A handle to a contract: the connection to the node, the contract's
/// interface, and the address at which it lives.
#[derive(Debug)]
pub struct Instance<W> {
    pub web3: W,
    pub abi: Abi,
    pub address: Address,
}

impl<W> Instance<W> {
    /// The handle to the contract with interface `abi` at `address`.
    pub fn at(web3: W, abi: Abi, address: Address) -> (res: Instance<W>)
        ensures
            res == (Instance { web3, abi, address }),
    {
        Instance { web3, abi, address }
    }
}

} // verus!
