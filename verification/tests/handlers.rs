use std::cell::RefCell;

use transact::contract::address::key_hash::KeyHashAddresser;
use transact::contract::context::handler::{
    apply_with_key_value_context, KeyValueTransactionHandler,
};
use transact::contract::context::key_value::KeyValueTransactionContext;
use transact::contract::engine::handler::SmartContractEngineTransactionHandler;
use transact::contract::engine::SmartContractEngine;
use transact::contract::SmartContract;
use transact::handler::{ApplyError, ContextError, TransactionContext, TransactionHandler};

/// A raw context that holds a single list of entries.
struct ListContext {
    entries: RefCell<Vec<(String, Vec<u8>)>>,
}

impl ListContext {
    fn new() -> Self {
        ListContext {
            entries: RefCell::new(Vec::new()),
        }
    }
}

impl TransactionContext for ListContext {
    fn get_state_entries(
        &self,
        addresses: &[String],
    ) -> Result<Vec<(String, Vec<u8>)>, ContextError> {
        Ok(self
            .entries
            .borrow()
            .iter()
            .filter(|entry| addresses.contains(&entry.0))
            .cloned()
            .collect())
    }

    fn set_state_entries(&self, entries: Vec<(String, Vec<u8>)>) -> Result<(), ContextError> {
        let mut held = self.entries.borrow_mut();
        for (address, value) in entries {
            held.retain(|entry| entry.0 != address);
            held.push((address, value));
        }
        Ok(())
    }

    fn delete_state_entries(&self, addresses: &[String]) -> Result<Vec<String>, ContextError> {
        let mut held = self.entries.borrow_mut();
        let mut deleted = Vec::new();
        for address in addresses {
            if held.iter().any(|entry| &entry.0 == address) {
                held.retain(|entry| &entry.0 != address);
                deleted.push(address.to_string());
            }
        }
        Ok(deleted)
    }

    fn add_receipt_data(&self, _data: Vec<u8>) -> Result<(), ContextError> {
        Ok(())
    }

    fn add_event(
        &self,
        _event_type: String,
        _attributes: Vec<(String, String)>,
        _data: Vec<u8>,
    ) -> Result<(), ContextError> {
        Ok(())
    }
}

/// Counts, under each name, how often the name was sent.
struct CounterHandler {
    versions: Vec<String>,
    prefix: String,
}

impl CounterHandler {
    fn new(prefix: &str) -> Self {
        CounterHandler {
            versions: vec!["1.0".to_string(), "1.1".to_string()],
            prefix: prefix.to_string(),
        }
    }
}

impl KeyValueTransactionHandler for CounterHandler {
    type Key = String;
    type Addr = KeyHashAddresser;
    type Transaction = String;
    type Context = ListContext;

    fn get_family_name(&self) -> &str {
        "counter"
    }

    fn get_family_versions(&self) -> &[String] {
        &self.versions
    }

    fn get_addresser(&self) -> KeyHashAddresser {
        KeyHashAddresser::new(self.prefix.clone())
    }

    fn apply<'a>(
        &self,
        transaction: &String,
        context: KeyValueTransactionContext<'a, ListContext, KeyHashAddresser, String>,
    ) -> Result<(), ApplyError> {
        if transaction.is_empty() {
            return Err(ApplyError::InvalidTransaction("no name".to_string()));
        }
        let found = context
            .get_state_entries(vec![transaction])
            .map_err(|_| ApplyError::InternalError("cannot read".to_string()))?;
        let count = match found.first() {
            Some((_, value)) => value[0] + 1,
            None => 1,
        };
        context
            .set_state_entries(vec![(transaction, vec![count])])
            .map_err(|_| ApplyError::InternalError("cannot write".to_string()))
    }
}

fn count_of(raw: &ListContext, prefix: &str, name: &str) -> Option<Vec<u8>> {
    let mut raw_copy = ListContext {
        entries: RefCell::new(raw.entries.borrow().clone()),
    };
    let context = KeyValueTransactionContext::new(
        &mut raw_copy,
        KeyHashAddresser::new(prefix.to_string()),
    );
    let key = name.to_string();
    let found = context.get_state_entries(vec![&key]).unwrap();
    found.first().map(|entry| entry.1.clone())
}

#[test]
fn a_key_value_handler_is_a_transaction_handler() {
    let handler = CounterHandler::new("c0ffee");
    assert_eq!(TransactionHandler::family_name(&handler), "counter");
    assert_eq!(
        TransactionHandler::family_versions(&handler),
        ["1.0".to_string(), "1.1".to_string()]
    );
}

#[test]
fn a_key_value_handler_is_applied_against_a_key_value_context() {
    let handler = CounterHandler::new("c0ffee");
    let mut raw = ListContext::new();
    TransactionHandler::apply(&handler, &"apple".to_string(), &mut raw).unwrap();
    TransactionHandler::apply(&handler, &"apple".to_string(), &mut raw).unwrap();
    TransactionHandler::apply(&handler, &"pear".to_string(), &mut raw).unwrap();
    assert_eq!(count_of(&raw, "c0ffee", "apple"), Some(vec![2]));
    assert_eq!(count_of(&raw, "c0ffee", "pear"), Some(vec![1]));
    assert_eq!(count_of(&raw, "c0ffee", "plum"), None);
    assert_eq!(raw.entries.borrow().len(), 2);
    assert!(raw
        .entries
        .borrow()
        .iter()
        .all(|entry| entry.0.len() == 70 && entry.0.starts_with("c0ffee")));
}

#[test]
fn the_error_of_a_key_value_handler_is_passed_on() {
    let handler = CounterHandler::new("c0ffee");
    let mut raw = ListContext::new();
    let error = TransactionHandler::apply(&handler, &String::new(), &mut raw).unwrap_err();
    assert!(matches!(error, ApplyError::InvalidTransaction(message) if message == "no name"));
    assert!(raw.entries.borrow().is_empty());
}

#[test]
fn a_key_value_handler_sees_the_error_of_its_addresser() {
    let handler = CounterHandler::new(&"0123456789".repeat(8));
    let mut raw = ListContext::new();
    let error = apply_with_key_value_context(&handler, &"apple".to_string(), &mut raw)
        .unwrap_err();
    assert!(matches!(error, ApplyError::InternalError(message) if message == "cannot read"));
    assert!(raw.entries.borrow().is_empty());
}

/// Appends each transaction to the context, and refuses the number 0.
struct Recorder;

impl SmartContract for Recorder {
    type Key = String;
    type Addr = KeyHashAddresser;
    type Context = Vec<u32>;
    type Transaction = u32;

    fn apply(&self, transaction: &u32, context: &mut Vec<u32>) -> Result<(), ApplyError> {
        if *transaction == 0 {
            return Err(ApplyError::InvalidTransaction("zero".to_string()));
        }
        context.push(*transaction);
        Ok(())
    }
}

#[test]
fn an_engine_handler_needs_a_version() {
    assert!(SmartContractEngineTransactionHandler::new(Vec::new(), Recorder).is_none());
    assert!(SmartContractEngineTransactionHandler::new(vec!["1.0".to_string()], Recorder).is_some());
}

#[test]
fn an_engine_handler_names_itself_and_its_versions() {
    let versions = vec!["1.0".to_string(), "2.0".to_string()];
    let handler = SmartContractEngineTransactionHandler::new(versions.clone(), Recorder).unwrap();
    assert_eq!(
        handler.family_name(),
        "smart_contract_engine_transaction_handler"
    );
    assert_eq!(handler.family_versions(), versions);
}

#[test]
fn an_engine_handler_applies_its_smart_contract() {
    let handler =
        SmartContractEngineTransactionHandler::new(vec!["1.0".to_string()], Recorder).unwrap();
    let mut context = Vec::new();
    handler.apply(&7, &mut context).unwrap();
    handler.apply_smart_contract(&8, &mut context).unwrap();
    let error = handler.apply(&0, &mut context).unwrap_err();
    assert!(matches!(error, ApplyError::InvalidTransaction(message) if message == "zero"));
    assert_eq!(context, vec![7, 8]);
}

/// A handler written against the raw context, with no natural keys.
struct RawHandler {
    versions: Vec<String>,
}

impl TransactionHandler for RawHandler {
    type Transaction = (String, Vec<u8>);
    type Context = ListContext;

    fn family_name(&self) -> &str {
        "raw"
    }

    fn family_versions(&self) -> &[String] {
        &self.versions
    }

    fn apply(
        &self,
        transaction: &(String, Vec<u8>),
        context: &mut ListContext,
    ) -> Result<(), ApplyError> {
        context
            .set_state_entries(vec![transaction.clone()])
            .map_err(|error| ApplyError::InternalError(error.message))
    }
}

#[test]
fn a_transaction_handler_can_be_written_against_the_raw_context() {
    let handler = RawHandler {
        versions: vec!["1.0".to_string()],
    };
    assert_eq!(handler.family_name(), "raw");
    assert_eq!(handler.family_versions(), ["1.0".to_string()]);
    let mut raw = ListContext::new();
    handler
        .apply(&("somewhere".to_string(), vec![1, 2]), &mut raw)
        .unwrap();
    assert_eq!(
        *raw.entries.borrow(),
        vec![("somewhere".to_string(), vec![1, 2])]
    );
}
