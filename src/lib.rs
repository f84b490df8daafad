//! The state layer of a fungible token kept in a contract's instance storage:
//! balances, the total supply, expiring allowances, the administrator and the
//! token's descriptor, each with its contract over a model of that storage.
pub mod storage_types;
pub mod store;
pub mod balance;
pub mod allowance;
pub mod admin;
pub mod metadata;
