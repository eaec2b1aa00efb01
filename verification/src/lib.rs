//! An account ledger: per-identity records with balances, delegated access
//! keys and aliases, kept in a store whose every operation is verified.

pub mod account;
pub mod laws;
pub mod layout;
pub mod ledger;
pub mod store;
pub mod table;
