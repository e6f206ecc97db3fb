//! Contexts that let a handler work with natural keys in place of radix
//! addresses.

pub mod error;
pub mod handler;
pub mod key_value;

use crate::contract::address::Addresser;
use crate::contract::context::error::ContractContextError;
use crate::contract::context::key_value::KeyValueTransactionContext;
use crate::handler::TransactionContext;
use vstd::prelude::*;

verus! {

/// A context over the raw context `C` that addresses state by natural keys of
/// type `K`, through an addresser `A`.
pub trait ContractContext<'a, C, A, K>: Sized where C: TransactionContext, A: Addresser<K> {
    /// What is stored under a natural key.
    type StateValue;

    /// Makes the context that asks `context` at the addresses that
    /// `addresser` gives.
    fn make_context(context: &'a mut C, addresser: A) -> Self;

    /// Writes each value of `entries` under its key.
    fn set_state_entries(&self, entries: Vec<(&K, Self::StateValue)>) -> Result<
        (),
        ContractContextError,
    >;

    /// Reads what is stored under `keys` and returns it by key.
    fn get_state_entries<'k>(&self, keys: Vec<&'k K>) -> Result<
        Vec<(&'k K, Self::StateValue)>,
        ContractContextError,
    >;

    /// Deletes what is stored under `keys` and returns the keys under which
    /// something was deleted.
    fn delete_state_entries(&self, keys: Vec<K>) -> Result<Vec<K>, ContractContextError>;
}

/// The key-value context stores bytes; each operation is the context's own
/// operation of the same name.
impl<'a, C, A, K> ContractContext<'a, C, A, K> for KeyValueTransactionContext<'a, C, A, K> where
    C: TransactionContext,
    A: Addresser<K>,
 {
    type StateValue = Vec<u8>;

    fn make_context(context: &'a mut C, addresser: A) -> (res: Self)
        ensures
            res.context() == *old(context),
            res.addresser() == addresser,
    {
        KeyValueTransactionContext::new(context, addresser)
    }

    fn set_state_entries(&self, entries: Vec<(&K, Vec<u8>)>) -> (res: Result<
        (),
        ContractContextError,
    >)
        ensures
            call_ensures(
                KeyValueTransactionContext::<'a, C, A, K>::set_state_entries,
                (self, entries),
                res,
            ),
    {
        KeyValueTransactionContext::set_state_entries(self, entries)
    }

    fn get_state_entries<'k>(&self, keys: Vec<&'k K>) -> (res: Result<
        Vec<(&'k K, Vec<u8>)>,
        ContractContextError,
    >)
        ensures
            call_ensures(
                KeyValueTransactionContext::<'a, C, A, K>::get_state_entries,
                (self, keys),
                res,
            ),
    {
        KeyValueTransactionContext::get_state_entries(self, keys)
    }

    fn delete_state_entries(&self, keys: Vec<K>) -> (res: Result<Vec<K>, ContractContextError>)
        ensures
            call_ensures(
                KeyValueTransactionContext::<'a, C, A, K>::delete_state_entries,
                (self, keys),
                res,
            ),
    {
        KeyValueTransactionContext::delete_state_entries(self, keys)
    }
}

} // verus!
