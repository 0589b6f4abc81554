//! What each kind of record does to its client and to the dispute of its
//! transaction, and what a batch does with the outcome of a record.

use crate::app::error::{user_error, SanitizedError, SanitizedErrorView, SanitizedResult};
use crate::app::session::Session;
use crate::model::client::{is_amount, Amount, CSVClient, Client, ClientPatch};
use crate::model::clock::{now, Timestamp};
use crate::model::dispute::{Dispute, DisputeView};
use crate::model::id::{Id, ID_LENGTH};
use crate::model::transaction::Transaction;
use vstd::prelude::*;
use vstd::string::*;

verus! {

/// The next revision of `client` with the given balances, made at `now`. It
/// is refused where a balance or their sum cannot be held in an `Amount`, and
/// where the client has no revision number left.
pub open spec fn revision(
    client: Client,
    available: int,
    held: int,
    locked: bool,
    now: Timestamp,
) -> Result<Client, SanitizedErrorView> {
    if !(is_amount(available) && is_amount(held) && is_amount(available + held)) {
        Err(SanitizedErrorView::UserError("amount out of range"@))
    } else if client.revision_number == u32::MAX {
        Err(SanitizedErrorView::InternalError)
    } else {
        Ok(
            client.patched(
                ClientPatch {
                    available: Some(available as Amount),
                    held: Some(held as Amount),
                    locked: Some(locked),
                },
                now,
            ),
        )
    }
}

/// A deposit adds its amount to what is available.
pub open spec fn deposit_decision(
    client: Client,
    transaction: Transaction,
    now: Timestamp,
) -> Result<Client, SanitizedErrorView> {
    revision(client, client.available + transaction.amount, client.held as int, client.locked, now)
}

/// A withdrawal takes its amount from what is available, and is refused
/// where that is not enough.
pub open spec fn withdrawal_decision(
    client: Client,
    transaction: Transaction,
    now: Timestamp,
) -> Result<Client, SanitizedErrorView> {
    if client.available - transaction.amount < 0 {
        Err(SanitizedErrorView::UserError("not enough funds available"@))
    } else {
        revision(
            client,
            client.available - transaction.amount,
            client.held as int,
            client.locked,
            now,
        )
    }
}

/// A dispute holds the amount of the transaction that it is about, and opens
/// a dispute under the id `id`. It is refused where that transaction is not
/// in the ledger, and where a dispute against it is open.
pub open spec fn dispute_decision(
    client: Client,
    reference_tx: Option<Transaction>,
    existing: Option<DisputeView>,
    now: Timestamp,
    id: Seq<u8>,
) -> Result<(Client, DisputeView), SanitizedErrorView> {
    match reference_tx {
        None => Err(
            SanitizedErrorView::UserError("dispute referenced tx does not exist, skipping"@),
        ),
        Some(referenced) => if existing.is_some() && !existing.unwrap().is_deleted {
            Err(SanitizedErrorView::UserError("tx is already under dispute, skipping"@))
        } else {
            match revision(
                client,
                client.available - referenced.amount,
                client.held + referenced.amount,
                client.locked,
                now,
            ) {
                Ok(c) => Ok((c, DisputeView::opened(referenced, id, now))),
                Err(e) => Err(e),
            }
        },
    }
}

/// The next revision of an open dispute, which closes it. It is refused
/// where the dispute has no revision number left.
pub open spec fn closed(dispute: DisputeView, now: Timestamp) -> Result<
    DisputeView,
    SanitizedErrorView,
> {
    if dispute.revision_number == u32::MAX {
        Err(SanitizedErrorView::InternalError)
    } else {
        Ok(dispute.patched(true, now))
    }
}

/// A resolve gives back what the dispute held, and closes the dispute. It is
/// refused where no dispute against the transaction is open.
pub open spec fn resolve_decision(
    client: Client,
    existing: Option<DisputeView>,
    now: Timestamp,
) -> Result<(Client, DisputeView), SanitizedErrorView> {
    match existing {
        None => Err(SanitizedErrorView::UserError("resolve tx is not disputed, skipping"@)),
        Some(dispute) => if dispute.is_deleted {
            Err(SanitizedErrorView::UserError("resolve tx is no longer disputed, skipping"@))
        } else {
            match revision(
                client,
                client.available + dispute.referenced_tx.amount,
                client.held - dispute.referenced_tx.amount,
                client.locked,
                now,
            ) {
                Ok(c) => match closed(dispute, now) {
                    Ok(d) => Ok((c, d)),
                    Err(e) => Err(e),
                },
                Err(e) => Err(e),
            }
        },
    }
}

/// A chargeback takes what the dispute held out of the account, locks the
/// client and closes the dispute. It is refused where no dispute against the
/// transaction is open.
pub open spec fn chargeback_decision(
    client: Client,
    existing: Option<DisputeView>,
    now: Timestamp,
) -> Result<(Client, DisputeView), SanitizedErrorView> {
    match existing {
        None => Err(SanitizedErrorView::UserError("chargeback tx is not disputed, skipping"@)),
        Some(dispute) => if dispute.is_deleted {
            Err(SanitizedErrorView::UserError("chargeback tx is no longer disputed, skipping"@))
        } else {
            match revision(
                client,
                client.available as int,
                client.held - dispute.referenced_tx.amount,
                true,
                now,
            ) {
                Ok(c) => match closed(dispute, now) {
                    Ok(d) => Ok((c, d)),
                    Err(e) => Err(e),
                },
                Err(e) => Err(e),
            }
        },
    }
}

/// What an optional dispute holds.
pub open spec fn dispute_of(d: Option<Dispute>) -> Option<DisputeView> {
    match d {
        Some(d) => Some(d@),
        None => None,
    }
}

/// What the outcome of a decision on a client holds.
pub open spec fn client_outcome(r: SanitizedResult<Client>) -> Result<Client, SanitizedErrorView> {
    match r {
        Ok(c) => Ok(c),
        Err(e) => Err(e@),
    }
}

/// What the outcome of a decision on a client and a dispute holds.
pub open spec fn dispute_outcome(r: SanitizedResult<(Client, Dispute)>) -> Result<
    (Client, DisputeView),
    SanitizedErrorView,
> {
    match r {
        Ok((c, d)) => Ok((c, d@)),
        Err(e) => Err(e@),
    }
}

/// The next revision of `client` with the given balances.
fn revise(client: Client, available: i128, held: i128, locked: bool, now: Timestamp) -> (r:
    SanitizedResult<Client>)
    ensures
        client_outcome(r) == revision(client, available as int, held as int, locked, now),
        r matches Ok(c) ==> c.well_formed() && c.revision_number == client.revision_number + 1,
{
    let lowest: i128 = i64::MIN as i128;
    let highest: i128 = i64::MAX as i128;
    if available < lowest || available > highest || held < lowest || held > highest {
        return Err(user_error("amount out of range"));
    }
    let total: i128 = available + held;
    if total < lowest || total > highest {
        return Err(user_error("amount out of range"));
    }
    if client.revision_number == u32::MAX {
        return Err(SanitizedError::InternalError);
    }
    Ok(
        client.with_patch_at(
            ClientPatch {
                available: Some(available as Amount),
                held: Some(held as Amount),
                locked: Some(locked),
            },
            now,
        ),
    )
}

/// The next revision of an open dispute, which closes it.
fn close(dispute: Dispute, now: Timestamp) -> (r: SanitizedResult<Dispute>)
    ensures
        match r {
            Ok(d) => closed(dispute@, now) == Ok::<DisputeView, SanitizedErrorView>(d@),
            Err(e) => closed(dispute@, now) == Err::<DisputeView, SanitizedErrorView>(e@),
        },
{
    if dispute.revision_number == u32::MAX {
        Err(SanitizedError::InternalError)
    } else {
        Ok(dispute.with_patch_at(true, now))
    }
}

impl Session<'_> {
    /// The client after a deposit made at `now`.
    pub fn deposit_at(client: Client, transaction: Transaction, now: Timestamp) -> (r:
        SanitizedResult<Client>)
        ensures
            client_outcome(r) == deposit_decision(client, transaction, now),
            r matches Ok(c) ==> c.well_formed() && c.revision_number == client.revision_number
                + 1,
    {
        revise(
            client,
            client.available as i128 + transaction.amount as i128,
            client.held as i128,
            client.locked,
            now,
        )
    }

    /// The client after a deposit made now.
    pub fn deposit(&self, client: Client, transaction: Transaction) -> (r: SanitizedResult<Client>)
        ensures
            exists|now: Timestamp| client_outcome(r) == deposit_decision(client, transaction, now),
            r matches Ok(c) ==> c.well_formed() && c.revision_number == client.revision_number
                + 1,
    {
        Self::deposit_at(client, transaction, now())
    }

    /// The client after a withdrawal made at `now`.
    pub fn withdrawal_at(client: Client, transaction: Transaction, now: Timestamp) -> (r:
        SanitizedResult<Client>)
        ensures
            client_outcome(r) == withdrawal_decision(client, transaction, now),
            r matches Ok(c) ==> c.well_formed() && c.revision_number == client.revision_number
                + 1,
    {
        let available: i128 = client.available as i128 - transaction.amount as i128;
        if available < 0 {
            return Err(user_error("not enough funds available"));
        }
        revise(client, available, client.held as i128, client.locked, now)
    }

    /// The client after a withdrawal made now.
    pub fn withdrawal(&self, client: Client, transaction: Transaction) -> (r: SanitizedResult<
        Client,
    >)
        ensures
            exists|now: Timestamp|
                client_outcome(r) == withdrawal_decision(client, transaction, now),
            r matches Ok(c) ==> c.well_formed() && c.revision_number == client.revision_number
                + 1,
    {
        Self::withdrawal_at(client, transaction, now())
    }

    /// The client and the dispute after a dispute of `reference_tx` made at
    /// `now`, where `existing` is the dispute that is found for that
    /// transaction and `id` the id of the one to open.
    pub fn dispute_at(
        client: Client,
        reference_tx: Option<Transaction>,
        existing: Option<Dispute>,
        now: Timestamp,
        id: Id,
    ) -> (r: SanitizedResult<(Client, Dispute)>)
        ensures
            dispute_outcome(r) == dispute_decision(
                client,
                reference_tx,
                dispute_of(existing),
                now,
                id@,
            ),
            r matches Ok((c, d)) ==> c.well_formed() && c.revision_number
                == client.revision_number + 1,
    {
        let referenced = match reference_tx {
            Some(tx) => tx,
            None => {
                return Err(user_error("dispute referenced tx does not exist, skipping"));
            },
        };
        if let Some(d) = existing {
            if !d.is_deleted {
                return Err(user_error("tx is already under dispute, skipping"));
            }
        }
        let available: i128 = client.available as i128 - referenced.amount as i128;
        let held: i128 = client.held as i128 + referenced.amount as i128;
        match revise(client, available, held, client.locked, now) {
            Ok(client_revision) => Ok((client_revision, Dispute::new_at(referenced, id, now))),
            Err(e) => Err(e),
        }
    }

    /// The client and the dispute after a dispute made now, under a fresh
    /// random id.
    pub fn dispute(
        &self,
        client: Client,
        reference_tx: Option<Transaction>,
        existing: Option<Dispute>,
    ) -> (r: SanitizedResult<(Client, Dispute)>)
        ensures
            exists|now: Timestamp, id: Seq<u8>|
                id.len() == ID_LENGTH && dispute_outcome(r) == dispute_decision(
                    client,
                    reference_tx,
                    dispute_of(existing),
                    now,
                    id,
                ),
            r matches Ok((c, d)) ==> c.well_formed() && c.revision_number
                == client.revision_number + 1,
    {
        let t = now();
        Self::dispute_at(client, reference_tx, existing, t, Id::generate())
    }

    /// The client and the dispute after a resolve made at `now`, where
    /// `existing` is the dispute that is found for the transaction.
    pub fn resolve_at(client: Client, existing: Option<Dispute>, now: Timestamp) -> (r:
        SanitizedResult<(Client, Dispute)>)
        ensures
            dispute_outcome(r) == resolve_decision(client, dispute_of(existing), now),
            r matches Ok((c, d)) ==> c.well_formed() && c.revision_number
                == client.revision_number + 1,
    {
        let dispute = match existing {
            Some(d) => {
                if d.is_deleted {
                    return Err(user_error("resolve tx is no longer disputed, skipping"));
                }
                d
            },
            None => {
                return Err(user_error("resolve tx is not disputed, skipping"));
            },
        };
        let available: i128 = client.available as i128 + dispute.referenced_tx.amount as i128;
        let held: i128 = client.held as i128 - dispute.referenced_tx.amount as i128;
        match revise(client, available, held, client.locked, now) {
            Ok(client_revision) => match close(dispute, now) {
                Ok(dispute_revision) => Ok((client_revision, dispute_revision)),
                Err(e) => Err(e),
            },
            Err(e) => Err(e),
        }
    }

    /// The client and the dispute after a resolve made now.
    pub fn resolve(&self, client: Client, existing: Option<Dispute>) -> (r: SanitizedResult<
        (Client, Dispute),
    >)
        ensures
            exists|now: Timestamp|
                dispute_outcome(r) == resolve_decision(client, dispute_of(existing), now),
            r matches Ok((c, d)) ==> c.well_formed() && c.revision_number
                == client.revision_number + 1,
    {
        Self::resolve_at(client, existing, now())
    }

    /// The client and the dispute after a chargeback made at `now`, where
    /// `existing` is the dispute that is found for the transaction.
    pub fn chargeback_at(client: Client, existing: Option<Dispute>, now: Timestamp) -> (r:
        SanitizedResult<(Client, Dispute)>)
        ensures
            dispute_outcome(r) == chargeback_decision(client, dispute_of(existing), now),
            r matches Ok((c, d)) ==> c.well_formed() && c.locked && c.revision_number
                == client.revision_number + 1,
    {
        let dispute = match existing {
            Some(d) => {
                if d.is_deleted {
                    return Err(user_error("chargeback tx is no longer disputed, skipping"));
                }
                d
            },
            None => {
                return Err(user_error("chargeback tx is not disputed, skipping"));
            },
        };
        let held: i128 = client.held as i128 - dispute.referenced_tx.amount as i128;
        match revise(client, client.available as i128, held, true, now) {
            Ok(client_revision) => match close(dispute, now) {
                Ok(dispute_revision) => Ok((client_revision, dispute_revision)),
                Err(e) => Err(e),
            },
            Err(e) => Err(e),
        }
    }

    /// The client and the dispute after a chargeback made now.
    pub fn chargeback(&self, client: Client, existing: Option<Dispute>) -> (r: SanitizedResult<
        (Client, Dispute),
    >)
        ensures
            exists|now: Timestamp|
                dispute_outcome(r) == chargeback_decision(client, dispute_of(existing), now),
            r matches Ok((c, d)) ==> c.well_formed() && c.locked && c.revision_number
                == client.revision_number + 1,
    {
        Self::chargeback_at(client, existing, now())
    }
}

/// What a batch does once one of its records is dealt with.
#[derive(Debug)]
pub enum BatchStep {
    /// Go on with the next record.
    Continue,
    /// The record was refused: log why, and go on with the next record.
    Skip(String),
    /// Give the batch up with this error.
    Abort(SanitizedError),
}

/// What a `BatchStep` holds.
pub enum BatchStepView {
    Continue,
    Skip(Seq<char>),
    Abort(SanitizedErrorView),
}

impl View for BatchStep {
    type V = BatchStepView;

    open spec fn view(&self) -> BatchStepView {
        match self {
            BatchStep::Continue => BatchStepView::Continue,
            BatchStep::Skip(message) => BatchStepView::Skip(message@),
            BatchStep::Abort(e) => BatchStepView::Abort(e@),
        }
    }
}

impl Session<'_> {
    /// What a batch does with the outcome of one record: a record that was
    /// refused for what it asks is logged and skipped, any other error ends
    /// the batch.
    pub fn process_csv(&self, outcome: SanitizedResult<()>) -> (next: BatchStep)
        ensures
            next@ == match outcome {
                Ok(_) => BatchStepView::Continue,
                Err(SanitizedError::UserError(message)) => BatchStepView::Skip(message@),
                Err(e) => BatchStepView::Abort(e@),
            },
    {
        match outcome {
            Ok(_) => BatchStep::Continue,
            Err(SanitizedError::UserError(message)) => BatchStep::Skip(message),
            Err(e) => BatchStep::Abort(e),
        }
    }

    /// The rows of the account report: one for each client, in their order.
    pub fn output_all_accounts(&self, all_clients: Vec<Client>) -> (rows: Vec<CSVClient>)
        ensures
            rows@ == all_clients@.map_values(|c: Client| CSVClient::row(c)),
    {
        let mut rows: Vec<CSVClient> = Vec::new();
        let mut i: usize = 0;
        while i < all_clients.len()
            invariant
                i <= all_clients@.len(),
                rows@ == all_clients@.take(i as int).map_values(|c: Client| CSVClient::row(c)),
            decreases all_clients@.len() - i,
        {
            rows.push(CSVClient::from(all_clients[i]));
            proof {
                assert(rows@ =~= all_clients@.take(i + 1).map_values(
                    |c: Client| CSVClient::row(c),
                ));
            }
            i = i + 1;
        }
        proof {
            assert(all_clients@.take(all_clients@.len() as int) =~= all_clients@);
        }
        rows
    }
}

} // verus!
