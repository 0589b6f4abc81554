//! What holds of every decision and of every step of the engine.

use crate::app::error::SanitizedErrorView;
use crate::app::dispatch::{StepView, WriteView};
use crate::app::process_transaction::{
    chargeback_decision, closed, deposit_decision, dispute_decision, resolve_decision, revision,
    withdrawal_decision,
};
use crate::model::client::Client;
use crate::model::clock::Timestamp;
use crate::model::dispute::DisputeView;
use crate::model::id::numeric_id;
use crate::model::transaction::Transaction;
use crate::store::client::{client_steps, CLIENT_REVISION_KEY};
use crate::store::contents::{lemma_client_revision_is_written_once, Contents};
use crate::store::dispute::{process_dispute_steps, remove_dispute_steps};
use crate::store::store_key::revision_key;
use crate::store::transaction::process_transaction_steps;
use vstd::prelude::*;

verus! {

impl WriteView {
    /// The client revision that the write enters.
    pub open spec fn client(self) -> Client {
        match self {
            WriteView::ProcessTransaction { client, .. } => client,
            WriteView::ProcessDispute { client, .. } => client,
            WriteView::RemoveDispute { client, .. } => client,
        }
    }
}

impl StepView {
    /// The transaction that the step asks to be entered into the ledger, if
    /// it asks for one to be.
    pub open spec fn stored_transaction(self) -> Option<Transaction> {
        match self {
            StepView::Write { write: WriteView::ProcessTransaction { transaction, .. }, .. } => Some(
                transaction,
            ),
            _ => None,
        }
    }

    /// The client revision that the step asks to be written, if it asks for
    /// a write.
    pub open spec fn written_client(self) -> Option<Client> {
        match self {
            StepView::AddClient { client, .. } => Some(client),
            StepView::Write { write, .. } => Some(write.client()),
            _ => None,
        }
    }
}

/// Whether `next` is a revision that follows `client` directly, made at
/// `now`: its number is one above, and it is of the same client.
pub open spec fn follows(next: Client, client: Client, now: Timestamp) -> bool {
    &&& next.revision_number == client.revision_number + 1
    &&& next.revision_time == now
    &&& next.id == client.id
    &&& next.creation_time == client.creation_time
    &&& next.well_formed()
}

/// Every revision of a client has a total of what is available and what is
/// held, a number one above that of the revision before, and the id and the
/// time of creation of its client.
pub proof fn lemma_revision_follows(
    client: Client,
    available: int,
    held: int,
    locked: bool,
    now: Timestamp,
)
    ensures
        revision(client, available, held, locked, now) matches Ok(c) ==> {
            &&& c.well_formed()
            &&& c.available == available
            &&& c.held == held
            &&& c.locked == locked
            &&& c.revision_number == client.revision_number + 1
            &&& c.id == client.id
            &&& c.creation_time == client.creation_time
            &&& c.revision_time == now
        },
{
}

/// The revision that closes a dispute has a number one above that of the
/// open one, and is the same dispute otherwise.
pub proof fn lemma_closed_follows(dispute: DisputeView, now: Timestamp)
    ensures
        closed(dispute, now) matches Ok(d) ==> {
            &&& d.is_deleted
            &&& d.revision_number == dispute.revision_number + 1
            &&& d.id == dispute.id
            &&& d.referenced_tx == dispute.referenced_tx
            &&& d.creation_time == dispute.creation_time
        },
{
}

/// Whatever a step asks to be written for a client, its total is what is
/// available and what is held.
pub proof fn lemma_written_clients_are_balanced(
    transaction: Transaction,
    attempt: u8,
    client: Client,
    reference: Option<Transaction>,
    found_client: Result<Option<Client>, SanitizedErrorView>,
    found_dispute: Result<Option<DisputeView>, SanitizedErrorView>,
    added: Result<(), SanitizedErrorView>,
    now: Timestamp,
    id: Seq<u8>,
)
    ensures
        StepView::after_client(transaction, attempt, found_client, now).written_client() matches Some(
            c,
        ) ==> c.well_formed(),
        StepView::after_add(transaction, attempt, client, added, now).written_client() matches Some(
            c,
        ) ==> c.well_formed(),
        StepView::after_dispute(
            transaction,
            attempt,
            client,
            reference,
            found_dispute,
            now,
            id,
        ).written_client() matches Some(c) ==> c.well_formed(),
{
}

/// Every client revision that a step asks to be written follows the one
/// that the record was decided on: its number is one above, it is stamped
/// with the time of the decision, and it is of the same client, created at
/// the same time. A client that was not there is entered as its first
/// revision, with nothing on its account.
pub proof fn lemma_written_client_follows_the_one_read(
    transaction: Transaction,
    attempt: u8,
    client: Client,
    reference: Option<Transaction>,
    found_dispute: Result<Option<DisputeView>, SanitizedErrorView>,
    added: Result<(), SanitizedErrorView>,
    now: Timestamp,
    id: Seq<u8>,
)
    ensures
        StepView::after_client(transaction, attempt, Ok(None), now) == (StepView::AddClient {
            transaction,
            attempt,
            client: Client::created(transaction.client, None, now),
        }),
        Client::created(transaction.client, None, now).revision_number == 1,
        StepView::after_client(transaction, attempt, Ok(Some(client)), now).written_client() matches Some(
            w,
        ) ==> follows(w, client, now),
        StepView::after_add(transaction, attempt, client, added, now).written_client() matches Some(
            w,
        ) ==> follows(w, client, now),
        StepView::after_dispute(
            transaction,
            attempt,
            client,
            reference,
            found_dispute,
            now,
            id,
        ).written_client() matches Some(w) ==> follows(w, client, now),
{
}

/// Only deposits and withdrawals are entered into the ledger as
/// transactions of their own, and each under its own record.
pub proof fn lemma_only_deposits_and_withdrawals_are_stored(
    transaction: Transaction,
    attempt: u8,
    client: Client,
    reference: Option<Transaction>,
    found_client: Result<Option<Client>, SanitizedErrorView>,
    found_dispute: Result<Option<DisputeView>, SanitizedErrorView>,
    added: Result<(), SanitizedErrorView>,
    now: Timestamp,
    id: Seq<u8>,
)
    ensures
        StepView::after_client(transaction, attempt, found_client, now).stored_transaction() matches Some(
            t,
        ) ==> t == transaction && t.record_type.is_stored(),
        StepView::after_add(transaction, attempt, client, added, now).stored_transaction() matches Some(
            t,
        ) ==> t == transaction && t.record_type.is_stored(),
        StepView::after_dispute(
            transaction,
            attempt,
            client,
            reference,
            found_dispute,
            now,
            id,
        ).stored_transaction().is_none(),
{
}

/// A locked client is never written again: a record for a client that is
/// found locked is refused before anything is decided.
pub proof fn lemma_locked_client_is_refused(
    transaction: Transaction,
    attempt: u8,
    client: Client,
    now: Timestamp,
)
    requires
        client.locked,
    ensures
        StepView::after_client(transaction, attempt, Ok(Some(client)), now) == StepView::Done(
            Err(SanitizedErrorView::UserError("client is locked"@)),
        ),
        !StepView::after_client(transaction, attempt, Ok(Some(client)), now).writes(),
{
}

/// A chargeback locks its client and closes its dispute; no other record
/// changes whether a client is locked.
pub proof fn lemma_only_chargeback_locks(
    client: Client,
    transaction: Transaction,
    reference: Option<Transaction>,
    existing: Option<DisputeView>,
    now: Timestamp,
    id: Seq<u8>,
)
    ensures
        chargeback_decision(client, existing, now) matches Ok((c, d)) ==> c.locked && d.is_deleted,
        deposit_decision(client, transaction, now) matches Ok(c) ==> c.locked == client.locked,
        withdrawal_decision(client, transaction, now) matches Ok(c) ==> c.locked == client.locked,
        dispute_decision(client, reference, existing, now, id) matches Ok((c, d)) ==> c.locked
            == client.locked,
        resolve_decision(client, existing, now) matches Ok((c, d)) ==> c.locked == client.locked,
{
}

/// While a dispute against a transaction is open, no other can be opened.
pub proof fn lemma_open_dispute_refuses_dispute(
    client: Client,
    reference: Option<Transaction>,
    existing: DisputeView,
    now: Timestamp,
    id: Seq<u8>,
)
    requires
        !existing.is_deleted,
    ensures
        dispute_decision(client, reference, Some(existing), now, id).is_err(),
        reference.is_some() ==> dispute_decision(client, reference, Some(existing), now, id) == Err::<
            (Client, DisputeView),
            SanitizedErrorView,
        >(SanitizedErrorView::UserError("tx is already under dispute, skipping"@)),
{
}

/// A dispute that was closed cannot be closed again.
pub proof fn lemma_closed_dispute_refuses_resolve_and_chargeback(
    client: Client,
    existing: DisputeView,
    now: Timestamp,
)
    requires
        existing.is_deleted,
    ensures
        resolve_decision(client, Some(existing), now).is_err(),
        chargeback_decision(client, Some(existing), now).is_err(),
{
}

/// What each record does to the balances of its client.
pub proof fn lemma_effects_on_balances(
    client: Client,
    transaction: Transaction,
    referenced: Transaction,
    existing: Option<DisputeView>,
    open: DisputeView,
    now: Timestamp,
    id: Seq<u8>,
)
    ensures
        deposit_decision(client, transaction, now) matches Ok(c) ==> c.available
            == client.available + transaction.amount && c.held == client.held,
        withdrawal_decision(client, transaction, now) matches Ok(c) ==> c.available
            == client.available - transaction.amount && c.held == client.held && c.available >= 0,
        dispute_decision(client, Some(referenced), existing, now, id) matches Ok((c, d)) ==> {
            &&& c.available == client.available - referenced.amount
            &&& c.held == client.held + referenced.amount
            &&& c.available + c.held == client.available + client.held
            &&& d == DisputeView::opened(referenced, id, now)
        },
        resolve_decision(client, Some(open), now) matches Ok((c, d)) ==> {
            &&& c.available == client.available + open.referenced_tx.amount
            &&& c.held == client.held - open.referenced_tx.amount
            &&& c.available + c.held == client.available + client.held
        },
        chargeback_decision(client, Some(open), now) matches Ok((c, d)) ==> {
            &&& c.available == client.available
            &&& c.held == client.held - open.referenced_tx.amount
            &&& c.available + c.held == client.available + client.held
                - open.referenced_tx.amount
        },
{
}

/// A resolve gives back exactly what the dispute held: after a dispute and
/// its resolve the balances are what they were before. The resolve is
/// carried out wherever the client has a revision number left.
pub proof fn lemma_resolve_undoes_dispute(
    client: Client,
    referenced: Transaction,
    existing: Option<DisputeView>,
    disputed_at: Timestamp,
    id: Seq<u8>,
    disputed: Client,
    dispute: DisputeView,
    resolved_at: Timestamp,
)
    requires
        client.well_formed(),
        dispute_decision(client, Some(referenced), existing, disputed_at, id) == Ok::<
            (Client, DisputeView),
            SanitizedErrorView,
        >((disputed, dispute)),
    ensures
        disputed.revision_number < u32::MAX ==> resolve_decision(
            disputed,
            Some(dispute),
            resolved_at,
        ).is_ok(),
        resolve_decision(disputed, Some(dispute), resolved_at) matches Ok((c, d)) ==> {
            &&& c.available == client.available
            &&& c.held == client.held
            &&& c.total == client.total
            &&& c.locked == client.locked
            &&& d.is_deleted
        },
{
}

/// A chargeback takes a disputed deposit back out of the account: after a
/// deposit, its dispute and its chargeback, what is available and what is
/// held are what they were before the deposit, and the client is locked.
/// The chargeback is carried out wherever the client has a revision number
/// left.
pub proof fn lemma_chargeback_undoes_deposit(
    client: Client,
    deposit: Transaction,
    deposited_at: Timestamp,
    deposited: Client,
    disputed_at: Timestamp,
    id: Seq<u8>,
    disputed: Client,
    dispute: DisputeView,
    charged_back_at: Timestamp,
)
    requires
        client.well_formed(),
        deposit_decision(client, deposit, deposited_at) == Ok::<Client, SanitizedErrorView>(
            deposited,
        ),
        dispute_decision(deposited, Some(deposit), None, disputed_at, id) == Ok::<
            (Client, DisputeView),
            SanitizedErrorView,
        >((disputed, dispute)),
    ensures
        disputed.revision_number < u32::MAX ==> chargeback_decision(
            disputed,
            Some(dispute),
            charged_back_at,
        ).is_ok(),
        chargeback_decision(disputed, Some(dispute), charged_back_at) matches Ok((c, d)) ==> {
            &&& c.available == client.available
            &&& c.held == client.held
            &&& c.total == client.total
            &&& c.locked
            &&& d.is_deleted
        },
{
}

/// A record is given up after `MAX_ATTEMPTS` attempts at most, and no more
/// than fifteen requests are made for it.
pub proof fn lemma_attempts_are_bounded(transaction: Transaction, attempt: u8, write: WriteView)
    ensures
        StepView::first(transaction).remaining() == 15,
        StepView::retry(transaction, attempt).remaining() < (StepView::Write {
            transaction,
            attempt,
            write,
        }).remaining(),
        attempt >= 3 ==> StepView::retry(transaction, attempt) == StepView::Done(
            Err(SanitizedErrorView::UserError("transaction contention"@)),
        ),
{
}

/// Contention within an attempt is never the outcome of a record: it leads to
/// the next attempt, or, after the last, to an error that tells the caller to
/// try again.
pub proof fn lemma_contention_is_absorbed(
    transaction: Transaction,
    attempt: u8,
    client: Client,
    reference: Option<Transaction>,
    found_transaction: Result<Option<Transaction>, SanitizedErrorView>,
    found_dispute: Result<Option<DisputeView>, SanitizedErrorView>,
    answer: Result<(), SanitizedErrorView>,
    now: Timestamp,
    id: Seq<u8>,
)
    ensures
        StepView::after_add(transaction, attempt, client, answer, now) != StepView::Done(
            Err(SanitizedErrorView::Contention),
        ),
        StepView::after_reference(transaction, attempt, client, found_transaction)
            != StepView::Done(Err(SanitizedErrorView::Contention)),
        StepView::after_dispute(transaction, attempt, client, reference, found_dispute, now, id)
            != StepView::Done(Err(SanitizedErrorView::Contention)),
        StepView::after_write(transaction, attempt, answer) != StepView::Done(
            Err(SanitizedErrorView::Contention),
        ),
        answer == Err::<(), SanitizedErrorView>(SanitizedErrorView::Contention) ==> {
            &&& StepView::after_write(transaction, attempt, answer) == StepView::retry(
                transaction,
                attempt,
            )
            &&& StepView::after_add(transaction, attempt, client, answer, now) == StepView::retry(
                transaction,
                attempt,
            )
        },
{
}

/// Two writers never both follow one revision of a client: where the
/// revision that a decision was made on has been followed already, every
/// write of what was decided is refused, so that the record is tried again on
/// what is then the latest revision.
pub proof fn lemma_stale_decision_is_refused(
    contents: Contents,
    client: Client,
    available: int,
    held: int,
    locked: bool,
    now: Timestamp,
    revised: Client,
    serialized_client: Seq<u8>,
    transaction: Transaction,
    serialized_transaction: Seq<u8>,
    listed_at: Timestamp,
    dispute: DisputeView,
    serialized_dispute: Seq<u8>,
)
    requires
        client.revision_number < u32::MAX,
        contents.values.contains_key(
            revision_key(
                CLIENT_REVISION_KEY,
                numeric_id(client.id as u32),
                (client.revision_number + 1) as u32,
            ),
        ),
        revision(client, available, held, locked, now) == Ok::<Client, SanitizedErrorView>(
            revised,
        ),
    ensures
        contents.commit(client_steps(revised, serialized_client, false)).is_none(),
        contents.commit(
            process_transaction_steps(
                revised,
                serialized_client,
                transaction,
                serialized_transaction,
                listed_at,
            ),
        ).is_none(),
        contents.commit(
            process_dispute_steps(revised, serialized_client, dispute, serialized_dispute),
        ).is_none(),
        contents.commit(
            remove_dispute_steps(revised, serialized_client, dispute, serialized_dispute),
        ).is_none(),
{
    lemma_revision_follows(client, available, held, locked, now);
    lemma_client_revision_is_written_once(
        contents,
        revised,
        serialized_client,
        false,
        transaction,
        serialized_transaction,
        listed_at,
        dispute,
        serialized_dispute,
    );
}

} // verus!
