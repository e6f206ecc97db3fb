//! The boundary to the executor: the raw, address-keyed transaction context
//! that it supplies, and the handler capability that it drives.

use vstd::prelude::*;

verus! {

/// A failure of the raw transaction context. It is passed on, never
/// interpreted.
#[derive(Debug)]
pub struct ContextError {
    pub message: String,
}

/// The failure of applying a transaction.
#[derive(Debug)]
pub enum ApplyError {
    /// The transaction itself is at fault.
    InvalidTransaction(String),
    /// Something else went wrong while it was applied.
    InternalError(String),
}

/// State, receipt data and events of one transaction, keyed by radix address.
/// What an implementation answers is its own affair: nothing is promised of it
/// here.
pub trait TransactionContext {
    /// Reads the entries at `addresses` that are set.
    fn get_state_entries(&self, addresses: &[String]) -> Result<
        Vec<(String, Vec<u8>)>,
        ContextError,
    >;

    /// Writes each of `entries` at its address.
    fn set_state_entries(&self, entries: Vec<(String, Vec<u8>)>) -> Result<(), ContextError>;

    /// Deletes the entries at `addresses` and returns the addresses deleted.
    fn delete_state_entries(&self, addresses: &[String]) -> Result<Vec<String>, ContextError>;

    /// Adds opaque data to the transaction's receipt.
    fn add_receipt_data(&self, data: Vec<u8>) -> Result<(), ContextError>;

    /// Adds an event to the transaction's receipt.
    fn add_event(
        &self,
        event_type: String,
        attributes: Vec<(String, String)>,
        data: Vec<u8>,
    ) -> Result<(), ContextError>;
}

/// Whether `context`, asked for the entries at `addresses`, may answer `raw`.
pub open spec fn may_read<C: TransactionContext>(
    context: &C,
    addresses: Seq<Seq<char>>,
    raw: Result<Vec<(String, Vec<u8>)>, ContextError>,
) -> bool {
    exists|handed: &[String]|
        handed.deep_view() == addresses && #[trigger] call_ensures(
            C::get_state_entries,
            (context, handed),
            raw,
        )
}

/// Whether `context`, told to write `entries`, may answer `raw`.
pub open spec fn may_write<C: TransactionContext>(
    context: &C,
    entries: Seq<(Seq<char>, Seq<u8>)>,
    raw: Result<(), ContextError>,
) -> bool {
    exists|handed: Vec<(String, Vec<u8>)>|
        handed.deep_view() == entries && #[trigger] call_ensures(
            C::set_state_entries,
            (context, handed),
            raw,
        )
}

/// Whether `context`, told to delete the entries at `addresses`, may answer
/// `raw`.
pub open spec fn may_delete<C: TransactionContext>(
    context: &C,
    addresses: Seq<Seq<char>>,
    raw: Result<Vec<String>, ContextError>,
) -> bool {
    exists|handed: &[String]|
        handed.deep_view() == addresses && #[trigger] call_ensures(
            C::delete_state_entries,
            (context, handed),
            raw,
        )
}

/// What the executor sees of a transaction family: its name, the versions it
/// accepts, and how it applies a transaction against a raw context.
pub trait TransactionHandler {
    /// The transactions of the family.
    type Transaction;

    /// The raw context that the executor supplies.
    type Context;

    /// Returns the name of the family.
    fn family_name(&self) -> &str;

    /// Returns the versions of the family that are accepted, in order.
    fn family_versions(&self) -> &[String];

    /// Whether `res` is what the handler may return for `transaction` against
    /// the raw context `context`. A handler that says nothing of itself may
    /// return anything.
    open spec fn applies(
        &self,
        transaction: &Self::Transaction,
        context: &Self::Context,
        res: Result<(), ApplyError>,
    ) -> bool {
        true
    }

    /// Applies `transaction`, reading and changing state through `context`.
    fn apply(&self, transaction: &Self::Transaction, context: &mut Self::Context) -> (res: Result<
        (),
        ApplyError,
    >)
        ensures
            self.applies(transaction, &*old(context), res),
    ;
}

} // verus!
