//! Smart-contract building blocks: address derivation from natural keys, the
//! key-value view of transaction state, and the smart-contract capability.

pub mod address;
pub mod context;
pub mod engine;

use crate::contract::address::Addresser;
use crate::handler::ApplyError;
use std::hash::Hash;
use vstd::prelude::*;

verus! {

/// A smart contract: the business logic of a transaction family, applied
/// against a context of its own choosing.
pub trait SmartContract: Send {
    /// The natural keys of the contract's state.
    type Key: Eq + Hash;

    /// The addresser of those keys.
    type Addr: Addresser<Self::Key>;

    /// The context that the contract works against.
    type Context;

    /// The transactions that the contract applies.
    type Transaction;

    /// Applies `transaction`, reading and changing state through `context`.
    fn apply(&self, transaction: &Self::Transaction, context: &mut Self::Context) -> Result<
        (),
        ApplyError,
    >;
}

} // verus!
