//! The persisted entities: clients, transactions, disputes and their ids.

pub mod client;
pub mod clock;
pub mod dispute;
pub mod id;
pub mod transaction;

pub use client::{Amount, CSVClient, Client, ClientPatch, AMOUNT_SCALE};
pub use clock::Timestamp;
pub use dispute::{Dispute, DisputeView};
pub use id::{Id, ID_LENGTH};
pub use transaction::{CSVTransaction, RecordType, Transaction, TransactionPatch};
