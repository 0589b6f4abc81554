//! A small payment engine: per-client account balances, a ledger of
//! transactions and disputes, and the optimistic, revisioned writes that keep
//! them consistent in a key-value store.

pub mod api;
pub mod app;
pub mod cmd;
pub mod model;
pub mod store;
