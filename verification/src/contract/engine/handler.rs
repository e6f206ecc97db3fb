//! The transaction handler that runs one smart contract.

use crate::contract::engine::SmartContractEngine;
use crate::contract::SmartContract;
use crate::handler::{ApplyError, TransactionHandler};
use vstd::prelude::*;

verus! {

/// A smart contract together with the family versions that it serves, of
/// which there is at least one.
pub struct SmartContractEngineTransactionHandler<S: SmartContract> {
    versions: Vec<String>,
    smart_contract: S,
}

impl<S: SmartContract> SmartContractEngineTransactionHandler<S> {
    /// The family versions that the handler serves, in order.
    pub closed spec fn versions(&self) -> Seq<String> {
        self.versions@
    }

    /// The smart contract that the handler runs.
    pub closed spec fn smart_contract(&self) -> &S {
        &self.smart_contract
    }

    #[verifier::type_invariant]
    spec fn serves_a_version(&self) -> bool {
        self.versions@.len() > 0
    }

    /// Makes the handler that runs `smart_contract` for `versions`, unless
    /// `versions` is empty.
    pub fn new(versions: Vec<String>, smart_contract: S) -> (res: Option<Self>)
        ensures
            res is Some <==> versions@.len() > 0,
            res matches Some(handler) ==> handler.versions() == versions@
                && handler.smart_contract() == smart_contract,
    {
        if versions.len() == 0 {
            None
        } else {
            Some(SmartContractEngineTransactionHandler { versions, smart_contract })
        }
    }
}

impl<S: SmartContract> SmartContractEngine for SmartContractEngineTransactionHandler<S> {
    type Transaction = S::Transaction;

    type Context = S::Context;

    fn apply_smart_contract(
        &self,
        transaction: &S::Transaction,
        context: &mut S::Context,
    ) -> (res: Result<(), ApplyError>)
        ensures
            exists|handed: &mut S::Context|
                {
                    &&& *handed == *old(context)
                    &&& *final(handed) == *final(context)
                    &&& #[trigger] call_ensures(
                        S::apply,
                        (self.smart_contract(), transaction, handed),
                        res,
                    )
                },
    {
        let res = self.smart_contract.apply(transaction, context);
        assert(*self.smart_contract() == self.smart_contract);
        res
    }
}

impl<S: SmartContract> TransactionHandler for SmartContractEngineTransactionHandler<S> {
    type Transaction = S::Transaction;

    type Context = S::Context;

    fn family_name(&self) -> (res: &str)
        ensures
            res@ == "smart_contract_engine_transaction_handler"@,
    {
        "smart_contract_engine_transaction_handler"
    }

    fn family_versions(&self) -> (res: &[String])
        ensures
            res@ == self.versions(),
            res@.len() > 0,
    {
        proof {
            use_type_invariant(self);
        }
        self.versions.as_slice()
    }

    fn apply(&self, transaction: &S::Transaction, context: &mut S::Context) -> (res: Result<
        (),
        ApplyError,
    >)
        ensures
            exists|handed: &mut S::Context|
                {
                    &&& *handed == *old(context)
                    &&& *final(handed) == *final(context)
                    &&& #[trigger] call_ensures(
                        S::apply,
                        (self.smart_contract(), transaction, handed),
                        res,
                    )
                },
    {
        self.apply_smart_contract(transaction, context)
    }
}

} // verus!
