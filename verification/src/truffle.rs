//! Artifacts: what compiling a contract leaves behind.

use crate::abi::Abi;
use crate::bytecode::Bytecode;
use crate::table::{lookup, Table};
use crate::types::Address;
use vstd::prelude::*;

verus! {

/// What an artifact records of a deployment on one network.
#[derive(Clone, Copy, Debug, PartialEq, Eq)]
pub struct Network {
    /// The address of the deployed contract.
    pub address: Address,
}

/// The artifact of a contract: its interface, its deployment code, and its
/// deployments by the identifier of their network.
#[derive(Debug)]
pub struct Artifact {
    pub abi: Abi,
    pub bytecode: Bytecode,
    pub networks: Table<Network>,
}

impl Artifact {
    /// The address at which the artifact records the contract on the network
    /// `network_id`, by exact match of the identifier.
    pub open spec fn deployed_at(self, network_id: Seq<char>) -> Option<Address> {
        match lookup(self.networks.pairs(), network_id) {
            Some(network) => Some(network.address),
            None => None,
        }
    }

    /// Looks up the address of the contract on the network `network_id`.
    pub fn address_on(&self, network_id: &String) -> (res: Option<Address>)
        ensures
            res == self.deployed_at(network_id@),
    {
        match self.networks.get(network_id) {
            Some(network) => Some(network.address),
            None => None,
        }
    }
}

} // verus!
