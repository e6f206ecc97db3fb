//! Radix addresses for a key-addressed state store, derived from natural keys,
//! and the key-value view of transaction state that is built on them.

pub mod contract;
pub mod handler;
