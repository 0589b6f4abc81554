use crate::app::dispatch::{Step, StepView};
use crate::app::{SanitizedError, SanitizedErrorView, Session};
use crate::model::client::Amount;
use crate::model::clock::{now, Timestamp};
use crate::model::transaction::{RecordType, Transaction};
use crate::store::text::{decimal_text, push_decimal_text};
use vstd::prelude::*;
use vstd::string::*;

verus! {

/// The path under which the routes of transactions are mounted.
pub const TRANSACTION_ROUTE_BASE: &'static str = "/transactions";

/// The routes of transactions.
pub struct TransactionRoute {}

/// A transaction as the API shows it.
#[derive(Debug, Clone, Copy, PartialEq, Eq, Structural)]
pub struct TransactionResponse {
    pub record_type: RecordType,
    pub client: u16,
    pub tx: u32,
    pub amount: Amount,
}

/// A record as the API takes it.
#[derive(Debug, Clone, Copy, PartialEq, Eq, Structural)]
pub struct PostTransaction {
    pub record_type: RecordType,
    pub client: u16,
    pub tx: u32,
    pub amount: Amount,
}

impl TransactionResponse {
    /// A transaction as the API shows it.
    pub open spec fn shown(tx: Transaction) -> TransactionResponse {
        TransactionResponse {
            record_type: tx.record_type,
            client: tx.client,
            tx: tx.tx,
            amount: tx.amount,
        }
    }
}

impl From<Transaction> for TransactionResponse {
    fn from(tx: Transaction) -> (r: TransactionResponse) {
        TransactionResponse {
            record_type: tx.record_type,
            client: tx.client,
            tx: tx.tx,
            amount: tx.amount,
        }
    }
}

impl vstd::std_specs::convert::FromSpecImpl<Transaction> for TransactionResponse {
    open spec fn obeys_from_spec() -> bool {
        true
    }

    open spec fn from_spec(tx: Transaction) -> TransactionResponse {
        TransactionResponse::shown(tx)
    }
}

impl PostTransaction {
    /// The ledger record for a record taken at `now`: first revision.
    pub open spec fn recorded(self, now: Timestamp) -> Transaction {
        Transaction {
            record_type: self.record_type,
            client: self.client,
            tx: self.tx,
            amount: self.amount,
            creation_time: now,
            revision_number: 1,
            revision_time: now,
        }
    }

    /// The ledger record for a record taken at `now`.
    pub fn into_transaction_at(self, now: Timestamp) -> (t: Transaction)
        ensures
            t == self.recorded(now),
    {
        Transaction {
            record_type: self.record_type,
            client: self.client,
            tx: self.tx,
            amount: self.amount,
            creation_time: now,
            revision_number: 1,
            revision_time: now,
        }
    }
}

impl From<PostTransaction> for Transaction {
    /// The ledger record for a record taken now.
    fn from(tx: PostTransaction) -> (t: Transaction)
        ensures
            t == tx.recorded(t.creation_time),
    {
        tx.into_transaction_at(now())
    }
}

impl vstd::std_specs::convert::FromSpecImpl<PostTransaction> for Transaction {
    open spec fn obeys_from_spec() -> bool {
        false
    }

    open spec fn from_spec(tx: PostTransaction) -> Transaction {
        arbitrary()
    }
}

impl From<Transaction> for PostTransaction {
    fn from(tx: Transaction) -> (r: PostTransaction) {
        PostTransaction {
            record_type: tx.record_type,
            client: tx.client,
            tx: tx.tx,
            amount: tx.amount,
        }
    }
}

impl vstd::std_specs::convert::FromSpecImpl<Transaction> for PostTransaction {
    open spec fn obeys_from_spec() -> bool {
        true
    }

    open spec fn from_spec(tx: Transaction) -> PostTransaction {
        PostTransaction {
            record_type: tx.record_type,
            client: tx.client,
            tx: tx.tx,
            amount: tx.amount,
        }
    }
}

/// The answer to a request for the transaction `id`, where `found` is what
/// the engine has under that id: the transaction, or that there is none.
pub fn get_transaction(id: u32, found: Option<Transaction>) -> (r: Result<
    TransactionResponse,
    SanitizedError,
>)
    ensures
        match found {
            Some(tx) => r == Ok::<TransactionResponse, SanitizedError>(
                TransactionResponse::shown(tx),
            ),
            None => r matches Err(e) && e@ == SanitizedErrorView::NotFound(
                "Trasaction "@ + decimal_text(id as nat) + " not found."@,
            ),
        },
{
    match found {
        Some(tx) => Ok(TransactionResponse::from(tx)),
        None => {
            let mut message = "Trasaction ".to_string();
            push_decimal_text(&mut message, id);
            message.append(" not found.");
            Err(SanitizedError::NotFound(message))
        },
    }
}

/// Begins to process a record that was posted at `now`.
pub fn post_transaction_at(
    session: &Session<'_>,
    tx: PostTransaction,
    now: Timestamp,
) -> (step: Step)
    ensures
        step@ == StepView::first(tx.recorded(now)),
{
    session.process_transaction(tx.into_transaction_at(now))
}

/// Begins to process a record that is posted now.
pub fn post_transaction(session: &Session<'_>, tx: PostTransaction) -> (step: Step)
    ensures
        exists|now: Timestamp| step@ == StepView::first(tx.recorded(now)),
{
    post_transaction_at(session, tx, now())
}

} // verus!
