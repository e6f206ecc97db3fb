//! Transaction handlers that work with natural keys.

use crate::contract::address::Addresser;
use crate::contract::context::key_value::KeyValueTransactionContext;
use crate::handler::{ApplyError, TransactionContext, TransactionHandler};
use std::hash::Hash;
use vstd::prelude::*;

verus! {

/// A transaction family whose state is keyed by natural keys: it names
/// itself, supplies the addresser of its keys, and applies a transaction
/// against a key-value context.
pub trait KeyValueTransactionHandler: Send {
    /// The natural keys of the family.
    type Key: Eq + Hash;

    /// The addresser of those keys.
    type Addr: Addresser<Self::Key>;

    /// The transactions of the family.
    type Transaction;

    /// The raw context that the executor supplies.
    type Context: TransactionContext;

    /// Returns the name of the family.
    fn get_family_name(&self) -> &str;

    /// Returns the versions of the family that are accepted, in order.
    fn get_family_versions(&self) -> &[String];

    /// Returns the addresser of the family's keys.
    fn get_addresser(&self) -> Self::Addr;

    /// Applies `transaction`, reading and changing state by natural key
    /// through `context`.
    fn apply<'a>(
        &self,
        transaction: &Self::Transaction,
        context: KeyValueTransactionContext<'a, Self::Context, Self::Addr, Self::Key>,
    ) -> Result<(), ApplyError>;
}

/// Whether `res` is what `handler` may return for `transaction` against a
/// key-value context made of the raw context `context` and of an addresser
/// that the handler supplies.
pub open spec fn applies_with_key_value_context<T: KeyValueTransactionHandler>(
    handler: &T,
    transaction: &T::Transaction,
    context: &T::Context,
    res: Result<(), ApplyError>,
) -> bool {
    exists|key_value: KeyValueTransactionContext<T::Context, T::Addr, T::Key>|
        {
            &&& key_value.context() == context
            &&& call_ensures(T::get_addresser, (handler,), *key_value.addresser())
            &&& #[trigger] call_ensures(
                <T as KeyValueTransactionHandler>::apply,
                (handler, transaction, key_value),
                res,
            )
        }
}

/// Applies `transaction` with `handler` against a key-value context made of
/// the raw context `context` and of the handler's addresser.
pub fn apply_with_key_value_context<T: KeyValueTransactionHandler>(
    handler: &T,
    transaction: &T::Transaction,
    context: &mut T::Context,
) -> (res: Result<(), ApplyError>)
    ensures
        applies_with_key_value_context(handler, transaction, &*old(context), res),
{
    let addr = handler.get_addresser();
    let simple_context: KeyValueTransactionContext<T::Context, T::Addr, T::Key> =
        KeyValueTransactionContext::new(context, addr);
    KeyValueTransactionHandler::apply(handler, transaction, simple_context)
}

/// Every key-value handler is a transaction handler: it is applied against a
/// key-value context made of the raw context and of its own addresser.
impl<T> TransactionHandler for T where T: KeyValueTransactionHandler + Send {
    type Transaction = T::Transaction;

    type Context = T::Context;

    fn family_name(&self) -> (res: &str)
        ensures
            call_ensures(T::get_family_name, (self,), res),
    {
        self.get_family_name()
    }

    fn family_versions(&self) -> (res: &[String])
        ensures
            call_ensures(T::get_family_versions, (self,), res),
    {
        self.get_family_versions()
    }

    fn apply(&self, transaction: &Self::Transaction, context: &mut Self::Context) -> (res: Result<
        (),
        ApplyError,
    >) {
        apply_with_key_value_context(self, transaction, context)
    }

    /// A key-value handler returns what it returns against a key-value
    /// context made of the raw context and of its own addresser.
    open spec fn applies(
        &self,
        transaction: &Self::Transaction,
        context: &Self::Context,
        res: Result<(), ApplyError>,
    ) -> bool {
        applies_with_key_value_context(self, transaction, context, res)
    }
}

} // verus!
