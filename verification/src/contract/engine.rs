//! Running smart contracts as transaction handlers.

pub mod handler;

use crate::handler::ApplyError;
use vstd::prelude::*;

verus! {

/// Something that applies transactions by running a smart contract.
pub trait SmartContractEngine {
    /// The transactions that the contract applies.
    type Transaction;

    /// The context that the contract works against.
    type Context;

    /// Applies `transaction` by running the smart contract against `context`.
    fn apply_smart_contract(
        &self,
        transaction: &Self::Transaction,
        context: &mut Self::Context,
    ) -> Result<(), ApplyError>;
}

} // verus!
