//! The error of a natural-key context.

use crate::contract::address::AddresserError;
use crate::handler::ContextError;
use vstd::prelude::*;

verus! {

/// Why an operation on natural keys failed.
#[derive(Debug)]
pub enum ContractContextError {
    /// A natural key could not be turned into an address.
    AddresserError(AddresserError),
    /// The raw context failed.
    TransactionContextError(ContextError),
}

} // verus!
