//! A fungible-token ledger: tracks ownership of a divisible asset across
//! accounts and enforces conservation and authorization rules on every
//! balance-mutating operation.

pub mod account;
pub mod error;
pub mod event;
pub mod store;
pub mod ledger;
