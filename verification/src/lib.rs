//! A single-asset token ledger: account balances, fixed metadata, and an
//! atomic transfer operation that is proved to conserve value.
//!
//! The ledger itself is a plain value, injected into every operation; the
//! hosting process supplies durability for the record and the identity of
//! the caller.

pub mod account;
pub mod ledger;
pub mod model;
