//! The dispatch of one record, step by step.
//!
//! The engine does not wait for a backend. `Session::process_transaction`
//! gives the first step; each step that is not `Step::Done` names one request
//! (`request`), and its `resume` takes the answer and gives the next step. A
//! caller carries out the request, however long that takes, and goes on:
//!
//! ```text
//! GetClient -> AddClient -> GetTransaction -> GetDispute -> Write -> Done
//! ```
//!
//! Steps are skipped where a record does not need them. Contention sends the
//! record back to `GetClient` for the next attempt, `MAX_ATTEMPTS` times at
//! most.

use crate::app::error::{user_error, SanitizedError, SanitizedErrorView, SanitizedResult};
use crate::app::process_transaction::{
    chargeback_decision, client_outcome, deposit_decision, dispute_decision, dispute_of,
    dispute_outcome, resolve_decision, withdrawal_decision,
};
use crate::app::session::Session;
use crate::model::client::Client;
use crate::model::clock::{now, Timestamp};
use crate::model::dispute::{Dispute, DisputeView};
use crate::model::id::{numeric_id, Id, ID_LENGTH};
use crate::model::transaction::{RecordType, Transaction};
use crate::store;
use crate::store::atomic_write::{AtomicWriteOperation, WriteOpView};
use crate::store::client::{client_steps, CLIENT_KEY};
use crate::store::dispute::{process_dispute_steps, remove_dispute_steps, REFERENCE_TX_DISPUTE_KEY};
use crate::store::store_key::entity_key;
use crate::store::transaction::{process_transaction_steps, TRANSACTION_KEY};
use crate::store::{can_be_framed, frame_of, gunzip_stream, Store};
use vstd::prelude::*;
use vstd::string::*;

verus! {

/// How often a record is tried before contention is reported.
pub const MAX_ATTEMPTS: u8 = 3;

/// A record that waits for its client to be read.
#[derive(Debug)]
pub struct AwaitClient {
    pub transaction: Transaction,
    pub attempt: u8,
}

/// A record that waits for its client, which was not there, to be entered.
#[derive(Debug)]
pub struct AwaitAdd {
    pub transaction: Transaction,
    pub attempt: u8,
    pub client: Client,
}

/// A dispute that waits for the transaction that it is about to be read.
#[derive(Debug)]
pub struct AwaitReference {
    pub transaction: Transaction,
    pub attempt: u8,
    pub client: Client,
}

/// A dispute, a resolve or a chargeback that waits for the dispute against
/// its transaction to be read. `reference` is that transaction, where it was
/// read.
#[derive(Debug)]
pub struct AwaitDispute {
    pub transaction: Transaction,
    pub attempt: u8,
    pub client: Client,
    pub reference: Option<Transaction>,
}

/// What is to be written for a record, as one atomic write.
#[derive(Debug)]
pub enum Write {
    /// The client's next revision and the transaction.
    ProcessTransaction { client: Client, transaction: Transaction },
    /// The client's next revision and the dispute that is opened.
    ProcessDispute { client: Client, dispute: Dispute },
    /// The client's next revision and the dispute that is closed.
    RemoveDispute { client: Client, dispute: Dispute },
}

/// A record that waits for its write to be answered.
#[derive(Debug)]
pub struct AwaitWrite {
    pub transaction: Transaction,
    pub attempt: u8,
    pub write: Write,
}

/// What the engine asks for next while it processes one record, or the
/// outcome. Each request holds what is needed to go on once it is answered.
#[derive(Debug)]
pub enum Step {
    /// Read the client of the record.
    GetClient(AwaitClient),
    /// Enter a new client.
    AddClient(AwaitAdd),
    /// Read the transaction that the record is about.
    GetTransaction(AwaitReference),
    /// Read the dispute against the transaction that the record is about.
    GetDispute(AwaitDispute),
    /// Carry out a write.
    Write(AwaitWrite),
    /// The record is dealt with.
    Done(SanitizedResult<()>),
}

/// What a `Write` holds.
pub enum WriteView {
    ProcessTransaction { client: Client, transaction: Transaction },
    ProcessDispute { client: Client, dispute: DisputeView },
    RemoveDispute { client: Client, dispute: DisputeView },
}

/// What a `Step` holds.
pub enum StepView {
    GetClient { transaction: Transaction, attempt: u8 },
    AddClient { transaction: Transaction, attempt: u8, client: Client },
    GetTransaction { transaction: Transaction, attempt: u8, client: Client },
    GetDispute {
        transaction: Transaction,
        attempt: u8,
        client: Client,
        reference: Option<Transaction>,
    },
    Write { transaction: Transaction, attempt: u8, write: WriteView },
    Done(Result<(), SanitizedErrorView>),
}

impl View for Write {
    type V = WriteView;

    open spec fn view(&self) -> WriteView {
        match self {
            Write::ProcessTransaction { client, transaction } => WriteView::ProcessTransaction {
                client: *client,
                transaction: *transaction,
            },
            Write::ProcessDispute { client, dispute } => WriteView::ProcessDispute {
                client: *client,
                dispute: dispute@,
            },
            Write::RemoveDispute { client, dispute } => WriteView::RemoveDispute {
                client: *client,
                dispute: dispute@,
            },
        }
    }
}

impl WriteView {
    /// The steps of the write, where `client_frame` is the stored record of
    /// the client revision, `frame` that of the transaction or of the
    /// dispute, and `listed_at` the time at which a transaction is listed.
    pub open spec fn steps(
        self,
        client_frame: Seq<u8>,
        frame: Seq<u8>,
        listed_at: Timestamp,
    ) -> Seq<WriteOpView> {
        match self {
            WriteView::ProcessTransaction { client, transaction } => process_transaction_steps(
                client,
                client_frame,
                transaction,
                frame,
                listed_at,
            ),
            WriteView::ProcessDispute { client, dispute } => process_dispute_steps(
                client,
                client_frame,
                dispute,
                frame,
            ),
            WriteView::RemoveDispute { client, dispute } => remove_dispute_steps(
                client,
                client_frame,
                dispute,
                frame,
            ),
        }
    }
}

impl View for AwaitClient {
    type V = StepView;

    open spec fn view(&self) -> StepView {
        StepView::GetClient { transaction: self.transaction, attempt: self.attempt }
    }
}

impl View for AwaitAdd {
    type V = StepView;

    open spec fn view(&self) -> StepView {
        StepView::AddClient {
            transaction: self.transaction,
            attempt: self.attempt,
            client: self.client,
        }
    }
}

impl View for AwaitReference {
    type V = StepView;

    open spec fn view(&self) -> StepView {
        StepView::GetTransaction {
            transaction: self.transaction,
            attempt: self.attempt,
            client: self.client,
        }
    }
}

impl View for AwaitDispute {
    type V = StepView;

    open spec fn view(&self) -> StepView {
        StepView::GetDispute {
            transaction: self.transaction,
            attempt: self.attempt,
            client: self.client,
            reference: self.reference,
        }
    }
}

impl View for AwaitWrite {
    type V = StepView;

    open spec fn view(&self) -> StepView {
        StepView::Write {
            transaction: self.transaction,
            attempt: self.attempt,
            write: self.write@,
        }
    }
}

impl View for Step {
    type V = StepView;

    open spec fn view(&self) -> StepView {
        match self {
            Step::GetClient(s) => s@,
            Step::AddClient(s) => s@,
            Step::GetTransaction(s) => s@,
            Step::GetDispute(s) => s@,
            Step::Write(s) => s@,
            Step::Done(Ok(_)) => StepView::Done(Ok(())),
            Step::Done(Err(e)) => StepView::Done(Err(e@)),
        }
    }
}

/// What an answer without a value holds.
pub open spec fn unit_answer(r: SanitizedResult<()>) -> Result<(), SanitizedErrorView> {
    match r {
        Ok(_) => Ok(()),
        Err(e) => Err(e@),
    }
}

/// What the answer to the read of a client or of a transaction holds.
pub open spec fn read_answer<T>(r: SanitizedResult<Option<T>>) -> Result<
    Option<T>,
    SanitizedErrorView,
> {
    match r {
        Ok(found) => Ok(found),
        Err(e) => Err(e@),
    }
}

/// What the answer to the read of a dispute holds.
pub open spec fn dispute_answer(r: SanitizedResult<Option<Dispute>>) -> Result<
    Option<DisputeView>,
    SanitizedErrorView,
> {
    match r {
        Ok(found) => Ok(dispute_of(found)),
        Err(e) => Err(e@),
    }
}

impl StepView {
    /// The first step for a record: read its client, first attempt.
    pub open spec fn first(transaction: Transaction) -> StepView {
        StepView::GetClient { transaction, attempt: 1 }
    }

    /// The step after contention in attempt `attempt`: the next attempt from
    /// the top, or, after the last, the error that says so.
    pub open spec fn retry(transaction: Transaction, attempt: u8) -> StepView {
        if attempt < MAX_ATTEMPTS {
            StepView::GetClient { transaction, attempt: (attempt + 1) as u8 }
        } else {
            StepView::Done(Err(SanitizedErrorView::UserError("transaction contention"@)))
        }
    }

    /// The step after a request within an attempt failed with `e`:
    /// contention is retried, any other error is the outcome.
    pub open spec fn failed(
        transaction: Transaction,
        attempt: u8,
        e: SanitizedErrorView,
    ) -> StepView {
        if e is Contention {
            StepView::retry(transaction, attempt)
        } else {
            StepView::Done(Err(e))
        }
    }

    /// The step that follows a decision on a client: its write, or the error.
    pub open spec fn decided(
        transaction: Transaction,
        attempt: u8,
        decision: Result<Client, SanitizedErrorView>,
    ) -> StepView {
        match decision {
            Ok(client) => StepView::Write {
                transaction,
                attempt,
                write: WriteView::ProcessTransaction { client, transaction },
            },
            Err(e) => StepView::failed(transaction, attempt, e),
        }
    }

    /// The step for a record whose client is known and not locked: deposits
    /// and withdrawals are decided at once, a dispute first reads the
    /// transaction that it is about, a resolve and a chargeback the dispute.
    pub open spec fn dispatch(
        transaction: Transaction,
        attempt: u8,
        client: Client,
        now: Timestamp,
    ) -> StepView {
        match transaction.record_type {
            RecordType::Deposit => StepView::decided(
                transaction,
                attempt,
                deposit_decision(client, transaction, now),
            ),
            RecordType::Withdrawal => StepView::decided(
                transaction,
                attempt,
                withdrawal_decision(client, transaction, now),
            ),
            RecordType::Dispute => StepView::GetTransaction { transaction, attempt, client },
            RecordType::Resolve => StepView::GetDispute {
                transaction,
                attempt,
                client,
                reference: None,
            },
            RecordType::Chargeback => StepView::GetDispute {
                transaction,
                attempt,
                client,
                reference: None,
            },
        }
    }

    /// The step after the client was read. A failure of the read is the
    /// outcome; a locked client refuses the record; a client that is not
    /// there is entered, with nothing on its account.
    pub open spec fn after_client(
        transaction: Transaction,
        attempt: u8,
        found: Result<Option<Client>, SanitizedErrorView>,
        now: Timestamp,
    ) -> StepView {
        match found {
            Err(e) => StepView::Done(Err(e)),
            Ok(Some(client)) => if client.locked {
                StepView::Done(Err(SanitizedErrorView::UserError("client is locked"@)))
            } else {
                StepView::dispatch(transaction, attempt, client, now)
            },
            Ok(None) => StepView::AddClient {
                transaction,
                attempt,
                client: Client::created(transaction.client, None, now),
            },
        }
    }

    /// The step after the new client was entered.
    pub open spec fn after_add(
        transaction: Transaction,
        attempt: u8,
        client: Client,
        added: Result<(), SanitizedErrorView>,
        now: Timestamp,
    ) -> StepView {
        match added {
            Ok(_) => StepView::dispatch(transaction, attempt, client, now),
            Err(e) => StepView::failed(transaction, attempt, e),
        }
    }

    /// The step after the transaction that a dispute is about was read.
    pub open spec fn after_reference(
        transaction: Transaction,
        attempt: u8,
        client: Client,
        found: Result<Option<Transaction>, SanitizedErrorView>,
    ) -> StepView {
        match found {
            Err(e) => StepView::failed(transaction, attempt, e),
            Ok(None) => StepView::Done(
                Err(
                    SanitizedErrorView::UserError(
                        "dispute referenced tx does not exist, skipping"@,
                    ),
                ),
            ),
            Ok(Some(referenced)) => StepView::GetDispute {
                transaction,
                attempt,
                client,
                reference: Some(referenced),
            },
        }
    }

    /// The step that follows a decision on a client and a dispute.
    pub open spec fn decided_dispute(
        transaction: Transaction,
        attempt: u8,
        decision: Result<(Client, DisputeView), SanitizedErrorView>,
        open: bool,
    ) -> StepView {
        match decision {
            Ok((client, dispute)) => StepView::Write {
                transaction,
                attempt,
                write: if open {
                    WriteView::ProcessDispute { client, dispute }
                } else {
                    WriteView::RemoveDispute { client, dispute }
                },
            },
            Err(e) => StepView::failed(transaction, attempt, e),
        }
    }

    /// The step after the dispute against the transaction was read. A record
    /// that is neither a dispute, a resolve nor a chargeback never waits for
    /// one; for such a record the outcome is an internal error.
    pub open spec fn after_dispute(
        transaction: Transaction,
        attempt: u8,
        client: Client,
        reference: Option<Transaction>,
        found: Result<Option<DisputeView>, SanitizedErrorView>,
        now: Timestamp,
        id: Seq<u8>,
    ) -> StepView {
        match found {
            Err(e) => StepView::failed(transaction, attempt, e),
            Ok(existing) => match transaction.record_type {
                RecordType::Dispute => StepView::decided_dispute(
                    transaction,
                    attempt,
                    dispute_decision(client, reference, existing, now, id),
                    true,
                ),
                RecordType::Resolve => StepView::decided_dispute(
                    transaction,
                    attempt,
                    resolve_decision(client, existing, now),
                    false,
                ),
                RecordType::Chargeback => StepView::decided_dispute(
                    transaction,
                    attempt,
                    chargeback_decision(client, existing, now),
                    false,
                ),
                _ => StepView::Done(Err(SanitizedErrorView::InternalError)),
            },
        }
    }

    /// The step after the write was answered.
    pub open spec fn after_write(
        transaction: Transaction,
        attempt: u8,
        written: Result<(), SanitizedErrorView>,
    ) -> StepView {
        match written {
            Ok(_) => StepView::Done(Ok(())),
            Err(e) => StepView::failed(transaction, attempt, e),
        }
    }

    /// An upper bound on the requests that can still follow this step.
    pub open spec fn remaining(self) -> nat {
        match self {
            StepView::GetClient { attempt, .. } => StepView::attempts_after(attempt) * 5 + 5,
            StepView::AddClient { attempt, .. } => StepView::attempts_after(attempt) * 5 + 4,
            StepView::GetTransaction { attempt, .. } => StepView::attempts_after(attempt) * 5 + 3,
            StepView::GetDispute { attempt, .. } => StepView::attempts_after(attempt) * 5 + 2,
            StepView::Write { attempt, .. } => StepView::attempts_after(attempt) * 5 + 1,
            StepView::Done(_) => 0,
        }
    }

    /// How many attempts can follow attempt `attempt`.
    pub open spec fn attempts_after(attempt: u8) -> nat {
        if attempt < MAX_ATTEMPTS {
            (MAX_ATTEMPTS - attempt) as nat
        } else {
            0
        }
    }

    /// Whether the step asks for something to be written.
    pub open spec fn writes(self) -> bool {
        self is AddClient || self is Write
    }
}

/// The step after contention in attempt `attempt`.
fn retry(transaction: Transaction, attempt: u8) -> (next: Step)
    ensures
        next@ == StepView::retry(transaction, attempt),
{
    if attempt < MAX_ATTEMPTS {
        Step::GetClient(AwaitClient { transaction, attempt: attempt + 1 })
    } else {
        Step::Done(Err(user_error("transaction contention")))
    }
}

/// The step after a request within an attempt failed.
fn failed(transaction: Transaction, attempt: u8, e: SanitizedError) -> (next: Step)
    ensures
        next@ == StepView::failed(transaction, attempt, e@),
{
    match e {
        SanitizedError::Contention => retry(transaction, attempt),
        e => Step::Done(Err(e)),
    }
}

/// The step that follows a decision on a client.
fn decided(transaction: Transaction, attempt: u8, decision: SanitizedResult<Client>) -> (next: Step)
    ensures
        next@ == StepView::decided(transaction, attempt, client_outcome(decision)),
{
    match decision {
        Ok(client) => Step::Write(
            AwaitWrite {
                transaction,
                attempt,
                write: Write::ProcessTransaction { client, transaction },
            },
        ),
        Err(e) => failed(transaction, attempt, e),
    }
}

/// The step that follows a decision on a client and a dispute.
fn decided_dispute(
    transaction: Transaction,
    attempt: u8,
    decision: SanitizedResult<(Client, Dispute)>,
    open: bool,
) -> (next: Step)
    ensures
        next@ == StepView::decided_dispute(transaction, attempt, dispute_outcome(decision), open),
{
    match decision {
        Ok((client, dispute)) => Step::Write(
            AwaitWrite {
                transaction,
                attempt,
                write: if open {
                    Write::ProcessDispute { client, dispute }
                } else {
                    Write::RemoveDispute { client, dispute }
                },
            },
        ),
        Err(e) => failed(transaction, attempt, e),
    }
}

impl Session<'_> {
    /// Begins to process a record: the first step is to read its client.
    /// The record is tried up to `MAX_ATTEMPTS` times; what to do and how to
    /// go on is in each step.
    pub fn process_transaction(&self, transaction: Transaction) -> (step: Step)
        ensures
            step@ == StepView::first(transaction),
    {
        Step::GetClient(AwaitClient { transaction, attempt: 1 })
    }

    /// The step for a record whose client is known and not locked.
    pub fn dispatch_at(
        transaction: Transaction,
        attempt: u8,
        client: Client,
        now: Timestamp,
    ) -> (next: Step)
        ensures
            next@ == StepView::dispatch(transaction, attempt, client, now),
    {
        match transaction.record_type {
            RecordType::Deposit => decided(
                transaction,
                attempt,
                Self::deposit_at(client, transaction, now),
            ),
            RecordType::Withdrawal => decided(
                transaction,
                attempt,
                Self::withdrawal_at(client, transaction, now),
            ),
            RecordType::Dispute => Step::GetTransaction(
                AwaitReference { transaction, attempt, client },
            ),
            RecordType::Resolve => Step::GetDispute(
                AwaitDispute { transaction, attempt, client, reference: None },
            ),
            RecordType::Chargeback => Step::GetDispute(
                AwaitDispute { transaction, attempt, client, reference: None },
            ),
        }
    }
}

impl AwaitClient {
    /// The id of the client to read.
    pub fn client_id(&self) -> (id: u16)
        ensures
            id == self.transaction.client,
    {
        self.transaction.client
    }

    /// The key to read: that of the client of the record.
    pub fn request(&self) -> (key: Vec<u8>)
        ensures
            key@ == entity_key(CLIENT_KEY, numeric_id(self.transaction.client as u32)),
    {
        Store::get_client_by_id(self.transaction.client)
    }

    /// Goes on at `now` with what the read of the client gave.
    pub fn resume_at(
        self,
        found: SanitizedResult<Option<Client>>,
        now: Timestamp,
    ) -> (next: Step)
        ensures
            next@ == StepView::after_client(
                self.transaction,
                self.attempt,
                read_answer(found),
                now,
            ),
            next@.remaining() < self@.remaining(),
    {
        match found {
            Err(e) => Step::Done(Err(e)),
            Ok(Some(client)) => {
                if client.locked {
                    Step::Done(Err(user_error("client is locked")))
                } else {
                    Session::dispatch_at(self.transaction, self.attempt, client, now)
                }
            },
            Ok(None) => Step::AddClient(
                AwaitAdd {
                    transaction: self.transaction,
                    attempt: self.attempt,
                    client: Client::new_at(self.transaction.client, None, now),
                },
            ),
        }
    }

    /// Goes on with what the read of the client gave, at the current time.
    pub fn resume(self, found: SanitizedResult<Option<Client>>) -> (next: Step)
        ensures
            exists|now: Timestamp|
                next@ == StepView::after_client(
                    self.transaction,
                    self.attempt,
                    read_answer(found),
                    now,
                ),
            next@.remaining() < self@.remaining(),
    {
        self.resume_at(found, now())
    }
}

impl AwaitAdd {
    /// The client to enter.
    pub fn client(&self) -> (c: Client)
        ensures
            c == self.client,
    {
        self.client
    }

    /// The write to carry out: that of the new client, whose encoded record
    /// is `encoded`.
    pub fn request(&self, encoded: &Vec<u8>) -> (r: store::Result<AtomicWriteOperation>)
        ensures
            match r {
                Ok(tx) => can_be_framed(encoded@) && tx@ == client_steps(
                    self.client,
                    frame_of(encoded@),
                    true,
                ) && gunzip_stream(frame_of(encoded@)) == Some(encoded@),
                Err(e) => !can_be_framed(encoded@) && e@ is Other,
            },
    {
        Store::add_client(&self.client, encoded)
    }

    /// Goes on at `now` with the answer to the write of the new client.
    pub fn resume_at(self, added: SanitizedResult<()>, now: Timestamp) -> (next: Step)
        ensures
            next@ == StepView::after_add(
                self.transaction,
                self.attempt,
                self.client,
                unit_answer(added),
                now,
            ),
            next@.remaining() < self@.remaining(),
    {
        match added {
            Ok(_) => Session::dispatch_at(self.transaction, self.attempt, self.client, now),
            Err(e) => failed(self.transaction, self.attempt, e),
        }
    }

    /// Goes on with the answer to the write of the new client, at the
    /// current time.
    pub fn resume(self, added: SanitizedResult<()>) -> (next: Step)
        ensures
            exists|now: Timestamp|
                next@ == StepView::after_add(
                    self.transaction,
                    self.attempt,
                    self.client,
                    unit_answer(added),
                    now,
                ),
            next@.remaining() < self@.remaining(),
    {
        self.resume_at(added, now())
    }
}

impl AwaitReference {
    /// The id of the transaction to read.
    pub fn tx_id(&self) -> (id: u32)
        ensures
            id == self.transaction.tx,
    {
        self.transaction.tx
    }

    /// The key to read: that of the transaction that the dispute is about.
    pub fn request(&self) -> (key: Vec<u8>)
        ensures
            key@ == entity_key(TRANSACTION_KEY, numeric_id(self.transaction.tx)),
    {
        Store::get_transaction_by_id(self.transaction.tx)
    }

    /// Goes on with what the read of the transaction gave.
    pub fn resume(self, found: SanitizedResult<Option<Transaction>>) -> (next: Step)
        ensures
            next@ == StepView::after_reference(
                self.transaction,
                self.attempt,
                self.client,
                read_answer(found),
            ),
            next@.remaining() < self@.remaining(),
    {
        match found {
            Err(e) => failed(self.transaction, self.attempt, e),
            Ok(None) => Step::Done(
                Err(user_error("dispute referenced tx does not exist, skipping")),
            ),
            Ok(Some(referenced)) => Step::GetDispute(
                AwaitDispute {
                    transaction: self.transaction,
                    attempt: self.attempt,
                    client: self.client,
                    reference: Some(referenced),
                },
            ),
        }
    }
}

impl AwaitDispute {
    /// The id of the transaction whose dispute is to be read.
    pub fn tx_id(&self) -> (id: u32)
        ensures
            id == self.transaction.tx,
    {
        self.transaction.tx
    }

    /// The key to read: the one that leads from the transaction that the
    /// record is about to the dispute against it.
    pub fn request(&self) -> (key: Vec<u8>)
        ensures
            key@ == entity_key(REFERENCE_TX_DISPUTE_KEY, numeric_id(self.transaction.tx)),
    {
        Store::get_dispute_by_reference_tx_id(self.transaction.tx)
    }

    /// Goes on at `now` with what the read of the dispute gave. A dispute
    /// that is opened gets the id `id`.
    pub fn resume_at(
        self,
        found: SanitizedResult<Option<Dispute>>,
        now: Timestamp,
        id: Id,
    ) -> (next: Step)
        ensures
            next@ == StepView::after_dispute(
                self.transaction,
                self.attempt,
                self.client,
                self.reference,
                dispute_answer(found),
                now,
                id@,
            ),
            next@.remaining() < self@.remaining(),
    {
        match found {
            Err(e) => failed(self.transaction, self.attempt, e),
            Ok(existing) => match self.transaction.record_type {
                RecordType::Dispute => decided_dispute(
                    self.transaction,
                    self.attempt,
                    Session::dispute_at(self.client, self.reference, existing, now, id),
                    true,
                ),
                RecordType::Resolve => decided_dispute(
                    self.transaction,
                    self.attempt,
                    Session::resolve_at(self.client, existing, now),
                    false,
                ),
                RecordType::Chargeback => decided_dispute(
                    self.transaction,
                    self.attempt,
                    Session::chargeback_at(self.client, existing, now),
                    false,
                ),
                _ => Step::Done(Err(SanitizedError::InternalError)),
            },
        }
    }

    /// Goes on with what the read of the dispute gave, at the current time.
    /// A dispute that is opened gets a fresh random id.
    pub fn resume(self, found: SanitizedResult<Option<Dispute>>) -> (next: Step)
        ensures
            exists|now: Timestamp, id: Seq<u8>|
                id.len() == ID_LENGTH && next@ == StepView::after_dispute(
                    self.transaction,
                    self.attempt,
                    self.client,
                    self.reference,
                    dispute_answer(found),
                    now,
                    id,
                ),
            next@.remaining() < self@.remaining(),
    {
        let t = now();
        self.resume_at(found, t, Id::generate())
    }
}

impl AwaitWrite {
    /// What is to be written.
    pub fn write(&self) -> (w: &Write)
        ensures
            w == &self.write,
    {
        &self.write
    }

    /// The write to carry out, with a transaction listed at `listed_at`,
    /// where `encoded_client` is the encoded record of the client revision
    /// and `encoded` that of the transaction or of the dispute.
    pub fn request_at(
        &self,
        encoded_client: &Vec<u8>,
        encoded: &Vec<u8>,
        listed_at: Timestamp,
    ) -> (r: store::Result<AtomicWriteOperation>)
        ensures
            match r {
                Ok(tx) => {
                    &&& can_be_framed(encoded_client@)
                    &&& can_be_framed(encoded@)
                    &&& tx@ == self.write@.steps(
                        frame_of(encoded_client@),
                        frame_of(encoded@),
                        listed_at,
                    )
                    &&& gunzip_stream(frame_of(encoded_client@)) == Some(encoded_client@)
                    &&& gunzip_stream(frame_of(encoded@)) == Some(encoded@)
                },
                Err(e) => {
                    &&& !can_be_framed(encoded_client@) || !can_be_framed(encoded@)
                    &&& e@ is Other
                },
            },
    {
        match &self.write {
            Write::ProcessTransaction { client, transaction } => Store::process_transaction_at(
                client,
                encoded_client,
                transaction,
                encoded,
                listed_at,
            ),
            Write::ProcessDispute { client, dispute } => Store::process_dispute(
                client,
                encoded_client,
                dispute,
                encoded,
            ),
            Write::RemoveDispute { client, dispute } => Store::remove_dispute(
                client,
                encoded_client,
                dispute,
                encoded,
            ),
        }
    }

    /// The write to carry out, with a transaction listed at the current
    /// time.
    pub fn request(&self, encoded_client: &Vec<u8>, encoded: &Vec<u8>) -> (r: store::Result<
        AtomicWriteOperation,
    >)
        ensures
            match r {
                Ok(tx) => {
                    &&& can_be_framed(encoded_client@)
                    &&& can_be_framed(encoded@)
                    &&& exists|listed_at: Timestamp|
                        tx@ == self.write@.steps(
                            frame_of(encoded_client@),
                            frame_of(encoded@),
                            listed_at,
                        )
                    &&& gunzip_stream(frame_of(encoded_client@)) == Some(encoded_client@)
                    &&& gunzip_stream(frame_of(encoded@)) == Some(encoded@)
                },
                Err(e) => {
                    &&& !can_be_framed(encoded_client@) || !can_be_framed(encoded@)
                    &&& e@ is Other
                },
            },
    {
        self.request_at(encoded_client, encoded, now())
    }

    /// Goes on with the answer to the write.
    pub fn resume(self, written: SanitizedResult<()>) -> (next: Step)
        ensures
            next@ == StepView::after_write(self.transaction, self.attempt, unit_answer(written)),
            next@.remaining() < self@.remaining(),
    {
        match written {
            Ok(_) => Step::Done(Ok(())),
            Err(e) => failed(self.transaction, self.attempt, e),
        }
    }
}

} // verus!
