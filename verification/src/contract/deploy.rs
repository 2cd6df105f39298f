//! Coming by a handle: for a contract that an artifact records as deployed,
//! and for one that is deployed anew.
//!
//! Each of the two resolvers waits for one answer of the node. It holds what
//! it was made with until the answer comes, gives it up for the outcome, and
//! is spent from then on.

use crate::abi::{constructor_inputs, encodable, encode_constructor_call, spec_encode_input, Abi, Argument};
use crate::bytecode::{has_placeholder, link, linked, resolvable, valid, Bytecode};
use crate::contract::Instance;
use crate::errors::DeployError;
use crate::hex;
use crate::table::{put, Table};
use crate::transaction::{Receipt, TransactionBuilder, TransactionView};
use crate::truffle::Artifact;
use crate::types::{Address, U256};
use vstd::prelude::*;

verus! {

/// The outcome of resolving `artifact` once the node has answered the
/// request for its network's identifier with `network_id`: the handle at the
/// address that the artifact records for that network; `NotFound` with the
/// identifier where it records none; the node's error where the request
/// failed.
pub open spec fn deployed<W, E>(web3: W, artifact: Artifact, network_id: Result<String, E>) -> Result<
    Instance<W>,
    DeployError<E>,
> {
    match network_id {
        Ok(id) => match artifact.deployed_at(id@) {
            Some(address) => Ok(Instance { web3, abi: artifact.abi, address }),
            None => Err(DeployError::NotFound(id)),
        },
        Err(error) => Err(DeployError::TransportFailure(error)),
    }
}

/// Decides the outcome of resolving `artifact` from the node's answer.
pub fn resolve<W, E>(web3: W, artifact: Artifact, network_id: Result<String, E>) -> (res: Result<
    Instance<W>,
    DeployError<E>,
>)
    ensures
        res == deployed(web3, artifact, network_id),
{
    let id = match network_id {
        Ok(id) => id,
        Err(error) => {
            return Err(DeployError::TransportFailure(error));
        },
    };
    let address = match artifact.address_on(&id) {
        Some(address) => address,
        None => {
            return Err(DeployError::NotFound(id));
        },
    };
    Ok(Instance { web3, abi: artifact.abi, address })
}

/// The resolver of a deployed contract: it holds the connection and the
/// artifact while the node is asked for the identifier of its network.
#[derive(Debug)]
pub struct DeployedFuture<W> {
    /// The connection and the artifact, until the outcome is produced.
    args: Option<(W, Artifact)>,
}

impl<W> View for DeployedFuture<W> {
    type V = Option<(W, Artifact)>;

    closed spec fn view(&self) -> Option<(W, Artifact)> {
        self.args
    }
}

impl<W> DeployedFuture<W> {
    /// Whether the outcome is yet to be produced.
    pub open spec fn is_pending(&self) -> bool {
        self@ is Some
    }

    /// The resolver for `artifact` over the connection `web3`, pending.
    pub fn from_args(web3: W, artifact: Artifact) -> (res: DeployedFuture<W>)
        ensures
            res@ == Some((web3, artifact)),
    {
        DeployedFuture { args: Some((web3, artifact)) }
    }

    /// Tests whether the outcome is yet to be produced.
    pub fn pending(&self) -> (res: bool)
        ensures
            res == self.is_pending(),
    {
        self.args.is_some()
    }

    /// Takes the connection and the artifact out. They can be taken once.
    pub fn args(&mut self) -> (res: (W, Artifact))
        requires
            old(self).is_pending(),
        ensures
            old(self)@ == Some(res),
            !final(self).is_pending(),
    {
        self.args.take().unwrap()
    }

    /// Drives the resolver with what the request for the network's
    /// identifier has come to: `None` while the node has not answered, which
    /// leaves the resolver pending; the answer once it has, for which the
    /// resolver produces its outcome and is spent.
    pub fn poll<E>(&mut self, network_id: Option<Result<String, E>>) -> (res: Option<
        Result<Instance<W>, DeployError<E>>,
    >)
        requires
            old(self).is_pending(),
        ensures
            res == match network_id {
                Some(answer) => Some(deployed((old(self)@->0).0, (old(self)@->0).1, answer)),
                None => None,
            },
            final(self).is_pending() <==> network_id is None,
            network_id is None ==> final(self)@ == old(self)@,
    {
        match network_id {
            Some(answer) => {
                let (web3, artifact) = self.args();
                Some(resolve(web3, artifact, answer))
            },
            None => None,
        }
    }
}

/// A deployment as its builder holds it.
pub struct PendingDeployment<W> {
    /// The connection to the node.
    pub web3: W,
    /// The interface of the contract.
    pub abi: Abi,
    /// The deployment code, as the artifact gave it.
    pub code: Seq<u8>,
    /// The libraries to link in, in the order in which their names came.
    pub libs: Seq<(Seq<char>, Address)>,
    /// The encoded arguments of the constructor.
    pub params: Seq<u8>,
    /// The options of the transaction.
    pub tx: TransactionView,
}

/// The builder of a deployment.
#[derive(Debug)]
pub struct DeployBuilder<W> {
    /// The connection to the node.
    web3: W,
    /// The interface of the contract that is to be deployed.
    abi: Abi,
    /// The deployment code of the contract.
    code: Bytecode,
    /// The linked libraries.
    libs: Table<Address>,
    /// The encoded arguments of the constructor.
    params: Vec<u8>,
    /// The transaction that deploys the contract.
    tx: TransactionBuilder,
}

impl<W> View for DeployBuilder<W> {
    type V = PendingDeployment<W>;

    closed spec fn view(&self) -> PendingDeployment<W> {
        PendingDeployment {
            web3: self.web3,
            abi: self.abi,
            code: self.code@,
            libs: self.libs.pairs(),
            params: self.params@,
            tx: self.tx@,
        }
    }
}

/// The deployment of `artifact` with the encoded arguments `params`, before
/// anything is configured.
pub open spec fn fresh<W>(web3: W, artifact: Artifact, params: Seq<u8>) -> PendingDeployment<W> {
    PendingDeployment {
        web3,
        abi: artifact.abi,
        code: artifact.bytecode@,
        libs: Seq::empty(),
        params,
        tx: TransactionView { from: None, gas: None, value: None, data: Seq::empty() },
    }
}

/// The code of `deployment` with its libraries linked in.
pub open spec fn linked_code<W>(deployment: PendingDeployment<W>) -> Seq<u8> {
    linked(deployment.code, deployment.libs)
}

/// The data of the transaction that deploys `deployment`: the bytes that the
/// linked code spells out, and behind them the encoded arguments.
pub open spec fn deployment_data<W>(deployment: PendingDeployment<W>) -> Seq<u8> {
    hex::decoded(linked_code(deployment)) + deployment.params
}

impl<W> DeployBuilder<W> {
    /// The builder for deploying `artifact` with `params` as the arguments of
    /// its constructor. Fails with `AbiMismatch` where the arguments cannot
    /// be encoded for the constructor, as when they are not as many as it
    /// takes.
    pub fn new<E>(web3: W, artifact: Artifact, params: Vec<Argument>) -> (res: Result<
        DeployBuilder<W>,
        DeployError<E>,
    >)
        ensures
            res is Ok <==> encodable(constructor_inputs(artifact.abi), params@),
            res matches Ok(builder) ==> spec_encode_input(constructor_inputs(artifact.abi), params@)
                is Some && builder@ == fresh(
                web3,
                artifact,
                spec_encode_input(constructor_inputs(artifact.abi), params@)->0,
            ),
            res matches Err(error) ==> error is AbiMismatch,
            constructor_inputs(artifact.abi).len() != params@.len() ==> res is Err,
    {
        let encoded = encode_constructor_call(&artifact.abi, &params);
        DeployBuilder::from_encoded(web3, artifact, encoded)
    }

    /// The builder for deploying `artifact`, given what encoding the
    /// arguments of its constructor has come to.
    pub fn from_encoded<E>(web3: W, artifact: Artifact, encoded: Result<Vec<u8>, ethabi::Error>) -> (res:
        Result<DeployBuilder<W>, DeployError<E>>)
        ensures
            match encoded {
                Ok(params) => res matches Ok(builder) && builder@ == fresh(web3, artifact, params@),
                Err(error) => res matches Err(DeployError::AbiMismatch(e)) && e == error,
            },
    {
        match encoded {
            Ok(params) => Ok(
                DeployBuilder {
                    web3,
                    abi: artifact.abi,
                    code: artifact.bytecode,
                    libs: Table::new(),
                    params,
                    tx: TransactionBuilder::new(),
                },
            ),
            Err(error) => Err(DeployError::AbiMismatch(error)),
        }
    }

    /// Records that the library `name` lives at `address`, over what was
    /// recorded for the name before. The code is linked when the deployment
    /// is finalized.
    pub fn link(self, name: String, address: Address) -> (res: DeployBuilder<W>)
        ensures
            res@ == (PendingDeployment { libs: put(self@.libs, name@, address), ..self@ }),
    {
        let mut builder = self;
        builder.libs.insert(name, address);
        builder
    }

    /// Sets the account that sends the transaction.
    pub fn from(self, address: Address) -> (res: DeployBuilder<W>)
        ensures
            res@ == (PendingDeployment {
                tx: TransactionView { from: Some(address), ..self@.tx },
                ..self@
            }),
    {
        let DeployBuilder { web3, abi, code, libs, params, tx } = self;
        DeployBuilder { web3, abi, code, libs, params, tx: tx.from(address) }
    }

    /// Sets the most gas that the transaction may use.
    pub fn gas(self, limit: U256) -> (res: DeployBuilder<W>)
        ensures
            res@ == (PendingDeployment { tx: TransactionView { gas: Some(limit), ..self@.tx }, ..self@ }),
    {
        let DeployBuilder { web3, abi, code, libs, params, tx } = self;
        DeployBuilder { web3, abi, code, libs, params, tx: tx.gas(limit) }
    }

    /// Sets the value that the transaction sends to the new contract.
    pub fn value(self, value: U256) -> (res: DeployBuilder<W>)
        ensures
            res@ == (PendingDeployment { tx: TransactionView { value: Some(value), ..self@.tx }, ..self@ }),
    {
        let DeployBuilder { web3, abi, code, libs, params, tx } = self;
        DeployBuilder { web3, abi, code, libs, params, tx: tx.value(value) }
    }

    /// Finalizes the deployment: links the libraries into the code and puts
    /// the transaction together. Where the linked code still holds a
    /// placeholder, nothing is to be sent and the deployment fails with
    /// `UnresolvedLibraryPlaceholder`. Else the transaction to send comes
    /// back, its data the code's bytes and the encoded arguments behind them,
    /// with the resolver that waits for its receipt.
    pub fn deploy<E>(self) -> (res: Result<(DeployFuture<W>, TransactionBuilder), DeployError<E>>)
        ensures
            res is Ok <==> resolvable(self@.code, self@.libs),
            valid(linked_code(self@)),
            match res {
                Ok((future, tx)) => {
                    &&& !has_placeholder(linked_code(self@))
                    &&& hex::all_hex(linked_code(self@))
                    &&& future@ == Some((self@.web3, self@.abi))
                    &&& tx@ == (TransactionView { data: deployment_data(self@), ..self@.tx })
                },
                Err(error) => error is UnresolvedLibraryPlaceholder && has_placeholder(linked_code(self@)),
            },
    {
        let DeployBuilder { web3, abi, code, libs, params, tx } = self;
        let code = link(code, &libs);
        let mut data = match code.to_bytes() {
            Some(bytes) => bytes,
            None => {
                return Err(DeployError::UnresolvedLibraryPlaceholder);
            },
        };
        let mut params = params;
        data.append(&mut params);
        Ok((DeployFuture::from_args(web3, abi), tx.data(data)))
    }
}

/// The outcome of a deployment once the node has answered with `receipt`:
/// the handle at the address of the contract that the transaction created,
/// or the node's error.
pub open spec fn created<W, E>(web3: W, abi: Abi, receipt: Result<Receipt, E>) -> Result<
    Instance<W>,
    DeployError<E>,
> {
    match receipt {
        Ok(receipt) => Ok(Instance { web3, abi, address: receipt.contract_address }),
        Err(error) => Err(DeployError::TransportFailure(error)),
    }
}

/// Decides the outcome of a deployment from the node's answer.
pub fn confirm<W, E>(web3: W, abi: Abi, receipt: Result<Receipt, E>) -> (res: Result<Instance<W>, DeployError<E>>)
    ensures
        res == created(web3, abi, receipt),
{
    match receipt {
        Ok(receipt) => Ok(Instance { web3, abi, address: receipt.contract_address }),
        Err(error) => Err(DeployError::TransportFailure(error)),
    }
}

/// The resolver of a deployment: it holds the connection and the interface
/// while the transaction is sent and mined.
#[derive(Debug)]
pub struct DeployFuture<W> {
    /// The connection and the interface, until the outcome is produced.
    args: Option<(W, Abi)>,
}

impl<W> View for DeployFuture<W> {
    type V = Option<(W, Abi)>;

    closed spec fn view(&self) -> Option<(W, Abi)> {
        self.args
    }
}

impl<W> DeployFuture<W> {
    /// Whether the outcome is yet to be produced.
    pub open spec fn is_pending(&self) -> bool {
        self@ is Some
    }

    /// The resolver of a deployment that was handed over for sending.
    pub fn from_args(web3: W, abi: Abi) -> (res: DeployFuture<W>)
        ensures
            res@ == Some((web3, abi)),
    {
        DeployFuture { args: Some((web3, abi)) }
    }

    /// Tests whether the outcome is yet to be produced.
    pub fn pending(&self) -> (res: bool)
        ensures
            res == self.is_pending(),
    {
        self.args.is_some()
    }

    /// Takes the connection and the interface out. They can be taken once.
    pub fn args(&mut self) -> (res: (W, Abi))
        requires
            old(self).is_pending(),
        ensures
            old(self)@ == Some(res),
            !final(self).is_pending(),
    {
        self.args.take().unwrap()
    }

    /// Drives the resolver with what sending the transaction has come to:
    /// `None` while it is not mined, which leaves the resolver pending; the
    /// receipt or the failure once it is known, for which the resolver
    /// produces its outcome and is spent.
    pub fn poll<E>(&mut self, receipt: Option<Result<Receipt, E>>) -> (res: Option<
        Result<Instance<W>, DeployError<E>>,
    >)
        requires
            old(self).is_pending(),
        ensures
            res == match receipt {
                Some(answer) => Some(created((old(self)@->0).0, (old(self)@->0).1, answer)),
                None => None,
            },
            final(self).is_pending() <==> receipt is None,
            receipt is None ==> final(self)@ == old(self)@,
    {
        match receipt {
            Some(answer) => {
                let (web3, abi) = self.args();
                Some(confirm(web3, abi, answer))
            },
            None => None,
        }
    }
}

} // verus!
