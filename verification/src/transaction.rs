//! The options of a transaction, and what comes back once it is mined.

use crate::types::{Address, U256};
use vstd::prelude::*;

verus! {

/// A transaction as its sender configures it. What is left open is for the
/// node to fill in.
#[derive(Debug, PartialEq, Eq)]
pub struct TransactionBuilder {
    /// The account that sends the transaction.
    pub from: Option<Address>,
    /// The most gas that the transaction may use.
    pub gas: Option<U256>,
    /// The value sent along.
    pub value: Option<U256>,
    /// The data: for a deployment, the code and the constructor's arguments.
    pub data: Vec<u8>,
}

/// A transaction as a plain value.
pub struct TransactionView {
    pub from: Option<Address>,
    pub gas: Option<U256>,
    pub value: Option<U256>,
    pub data: Seq<u8>,
}

impl View for TransactionBuilder {
    type V = TransactionView;

    open spec fn view(&self) -> TransactionView {
        TransactionView { from: self.from, gas: self.gas, value: self.value, data: self.data@ }
    }
}

impl TransactionBuilder {
    /// A transaction with nothing set and no data.
    pub fn new() -> (res: TransactionBuilder)
        ensures
            res@ == (TransactionView { from: None, gas: None, value: None, data: Seq::empty() }),
    {
        TransactionBuilder { from: None, gas: None, value: None, data: Vec::new() }
    }

    /// Sets the sender.
    pub fn from(self, address: Address) -> (res: TransactionBuilder)
        ensures
            res@ == (TransactionView { from: Some(address), ..self@ }),
    {
        let mut tx = self;
        tx.from = Some(address);
        tx
    }

    /// Sets the gas limit.
    pub fn gas(self, limit: U256) -> (res: TransactionBuilder)
        ensures
            res@ == (TransactionView { gas: Some(limit), ..self@ }),
    {
        let mut tx = self;
        tx.gas = Some(limit);
        tx
    }

    /// Sets the value sent along.
    pub fn value(self, value: U256) -> (res: TransactionBuilder)
        ensures
            res@ == (TransactionView { value: Some(value), ..self@ }),
    {
        let mut tx = self;
        tx.value = Some(value);
        tx
    }

    /// Sets the data.
    pub fn data(self, data: Vec<u8>) -> (res: TransactionBuilder)
        ensures
            res@ == (TransactionView { data: data@, ..self@ }),
    {
        let mut tx = self;
        tx.data = data;
        tx
    }
}

/// What the node reports of a mined transaction that created a contract.
#[derive(Clone, Copy, Debug, PartialEq, Eq)]
pub struct Receipt {
    /// The address of the contract that the transaction created.
    pub contract_address: Address,
}

} // verus!
