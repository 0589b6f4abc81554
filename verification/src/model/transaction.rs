use crate::model::client::Amount;
use crate::model::clock::{now, Timestamp};
use vstd::prelude::*;

verus! {

/// The five kinds of record that the engine takes.
#[derive(Debug, Clone, Copy, PartialEq, Eq, Structural)]
pub enum RecordType {
    Deposit,
    Withdrawal,
    Dispute,
    Resolve,
    Chargeback,
}

/// A record as it is read from a batch file. Control records carry no amount.
#[derive(Debug, Clone, Copy, PartialEq, Eq, Structural)]
pub struct CSVTransaction {
    pub record_type: RecordType,
    pub client: u16,
    pub tx: u32,
    pub amount: Option<Amount>,
}

/// A record of the ledger. For a dispute, a resolve or a chargeback `tx` names
/// the transaction that the record is about, and `amount` is not read.
#[derive(Debug, Clone, Copy, PartialEq, Eq, Structural)]
pub struct Transaction {
    pub record_type: RecordType,
    pub client: u16,
    pub tx: u32,
    pub amount: Amount,
    pub creation_time: Timestamp,
    pub revision_number: u32,
    pub revision_time: Timestamp,
}

/// The fields of a transaction that a new revision may replace.
#[derive(Debug, Clone, Copy, PartialEq, Eq, Structural)]
pub struct TransactionPatch {
    pub is_disputed: Option<bool>,
}

impl Default for TransactionPatch {
    fn default() -> (p: TransactionPatch)
        ensures
            p == (TransactionPatch { is_disputed: None }),
    {
        TransactionPatch { is_disputed: None }
    }
}

impl RecordType {
    /// Whether records of this kind are stored in the ledger under their own
    /// id. The others refer to a stored one.
    pub open spec fn is_stored(self) -> bool {
        self == RecordType::Deposit || self == RecordType::Withdrawal
    }
}

impl Transaction {
    /// The ledger record for a record read at `now`: first revision, a missing
    /// amount read as zero.
    pub open spec fn recorded(csv_tx: CSVTransaction, now: Timestamp) -> Transaction {
        Transaction {
            record_type: csv_tx.record_type,
            client: csv_tx.client,
            tx: csv_tx.tx,
            amount: match csv_tx.amount {
                Some(x) => x,
                None => 0,
            },
            creation_time: now,
            revision_number: 1,
            revision_time: now,
        }
    }

    /// The ledger record for a record read at `now`.
    pub fn from_csv_at(csv_tx: CSVTransaction, now: Timestamp) -> (t: Transaction)
        ensures
            t == Transaction::recorded(csv_tx, now),
    {
        let amount: Amount = match csv_tx.amount {
            Some(x) => x,
            None => 0,
        };
        Transaction {
            record_type: csv_tx.record_type,
            client: csv_tx.client,
            tx: csv_tx.tx,
            amount,
            creation_time: now,
            revision_number: 1,
            revision_time: now,
        }
    }
}

impl From<CSVTransaction> for Transaction {
    /// The ledger record for a record read now.
    fn from(csv_tx: CSVTransaction) -> (t: Transaction)
        ensures
            t == Transaction::recorded(csv_tx, t.creation_time),
    {
        Transaction::from_csv_at(csv_tx, now())
    }
}

impl vstd::std_specs::convert::FromSpecImpl<CSVTransaction> for Transaction {
    open spec fn obeys_from_spec() -> bool {
        false
    }

    open spec fn from_spec(csv_tx: CSVTransaction) -> Transaction {
        arbitrary()
    }
}

} // verus!
