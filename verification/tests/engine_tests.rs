use payment_engine::app::process_transaction::BatchStep;
use payment_engine::app::{
    distant_future, distant_past, sanitize, App, SanitizedError, SanitizedResult, Session, Step,
    Write,
};
use payment_engine::model::{
    Amount, CSVTransaction, Client, Dispute, Id, RecordType, Transaction, AMOUNT_SCALE,
};
use payment_engine::store::{
    AtomicWriteOperation, BackendError, Error, RangeRequest, Store, WriteOp,
};
use std::collections::HashMap;

// A backend in memory that carries out the requests of the store.
struct Memory {
    values: HashMap<Vec<u8>, Vec<u8>>,
    sets: HashMap<Vec<u8>, Vec<(i64, Vec<u8>)>>,
    refuse_writes: bool,
    writes: usize,
}

impl Memory {
    fn new() -> Memory {
        Memory { values: HashMap::new(), sets: HashMap::new(), refuse_writes: false, writes: 0 }
    }

    fn get(&self, key: &[u8]) -> Result<Option<Vec<u8>>, BackendError> {
        Ok(self.values.get(key).cloned())
    }

    fn exec_atomic_write(&mut self, tx: &AtomicWriteOperation) -> Result<bool, BackendError> {
        self.writes += 1;
        if self.refuse_writes {
            return Ok(false);
        }
        for op in &tx.ops {
            if let WriteOp::SetNx { key, .. } = op {
                if self.values.contains_key(key) {
                    return Ok(false);
                }
            }
        }
        for op in &tx.ops {
            match op {
                WriteOp::SetKey { key, value } | WriteOp::SetNx { key, value } => {
                    self.values.insert(key.clone(), value.clone());
                }
                WriteOp::ZAdd { key, member, score } => {
                    let set = self.sets.entry(key.clone()).or_default();
                    set.retain(|(_, m)| m != member);
                    set.push((*score, member.clone()));
                    set.sort();
                }
                WriteOp::ZRem { key, member } => {
                    let set = self.sets.entry(key.clone()).or_default();
                    set.retain(|(_, m)| m != member);
                }
            }
        }
        Ok(true)
    }

    fn range(&self, request: &RangeRequest) -> Vec<Vec<u8>> {
        let mut members: Vec<Vec<u8>> = self
            .sets
            .get(&request.key)
            .map(|set| {
                set.iter()
                    .filter(|(score, _)| request.min <= *score && *score <= request.max)
                    .map(|(_, member)| member.clone())
                    .collect()
            })
            .unwrap_or_default();
        if request.reverse {
            members.reverse();
        }
        if request.limit > 0 {
            members.truncate(request.limit);
        }
        members
    }

    fn batch_get(&self, keys: &[Vec<u8>]) -> Vec<Option<Vec<u8>>> {
        keys.iter().map(|key| self.values.get(key).cloned()).collect()
    }
}

fn record_type_code(kind: RecordType) -> u8 {
    match kind {
        RecordType::Deposit => 0,
        RecordType::Withdrawal => 1,
        RecordType::Dispute => 2,
        RecordType::Resolve => 3,
        RecordType::Chargeback => 4,
    }
}

fn record_type_of(code: u8) -> RecordType {
    match code {
        0 => RecordType::Deposit,
        1 => RecordType::Withdrawal,
        2 => RecordType::Dispute,
        3 => RecordType::Resolve,
        _ => RecordType::Chargeback,
    }
}

type ClientRecord = (u16, i64, i64, i64, bool, i64, u32, i64);
type TransactionRecord = (u8, u16, u32, i64, i64, u32, i64);
type DisputeRecord = (Vec<u8>, TransactionRecord, bool, i64, u32, i64);

fn transaction_record(t: &Transaction) -> TransactionRecord {
    (
        record_type_code(t.record_type),
        t.client,
        t.tx,
        t.amount,
        t.creation_time,
        t.revision_number,
        t.revision_time,
    )
}

fn transaction_of(r: TransactionRecord) -> Transaction {
    Transaction {
        record_type: record_type_of(r.0),
        client: r.1,
        tx: r.2,
        amount: r.3,
        creation_time: r.4,
        revision_number: r.5,
        revision_time: r.6,
    }
}

fn encode_client(c: &Client) -> Vec<u8> {
    let record: ClientRecord = (
        c.id,
        c.available,
        c.held,
        c.total,
        c.locked,
        c.creation_time,
        c.revision_number,
        c.revision_time,
    );
    rmp_serde::to_vec(&record).unwrap()
}

fn decode_client(bytes: &[u8]) -> Client {
    let r: ClientRecord = rmp_serde::from_slice(bytes).unwrap();
    Client {
        id: r.0,
        available: r.1,
        held: r.2,
        total: r.3,
        locked: r.4,
        creation_time: r.5,
        revision_number: r.6,
        revision_time: r.7,
    }
}

fn encode_transaction(t: &Transaction) -> Vec<u8> {
    rmp_serde::to_vec(&transaction_record(t)).unwrap()
}

fn decode_transaction(bytes: &[u8]) -> Transaction {
    transaction_of(rmp_serde::from_slice(bytes).unwrap())
}

fn encode_dispute(d: &Dispute) -> Vec<u8> {
    let record: DisputeRecord = (
        d.id.as_bytes().to_vec(),
        transaction_record(&d.referenced_tx),
        d.is_deleted,
        d.creation_time,
        d.revision_number,
        d.revision_time,
    );
    rmp_serde::to_vec(&record).unwrap()
}

fn decode_dispute(bytes: &[u8]) -> Dispute {
    let r: DisputeRecord = rmp_serde::from_slice(bytes).unwrap();
    Dispute {
        id: Id::from_vec(r.0),
        referenced_tx: transaction_of(r.1),
        is_deleted: r.2,
        creation_time: r.3,
        revision_number: r.4,
        revision_time: r.5,
    }
}

fn read(memory: &Memory, key: Vec<u8>) -> SanitizedResult<Option<Vec<u8>>> {
    sanitize(Store::fetched(memory.get(&key)))
}

fn commit(
    memory: &mut Memory,
    tx: Result<AtomicWriteOperation, Error>,
) -> SanitizedResult<()> {
    let answer = match tx {
        Ok(tx) => Store::committed(memory.exec_atomic_write(&tx)),
        Err(e) => Err(e),
    };
    sanitize(answer)
}

// The encoded records of what a write holds: that of the client, and that of
// the transaction or of the dispute.
fn encoded(write: &Write) -> (Vec<u8>, Vec<u8>) {
    match write {
        Write::ProcessTransaction { client, transaction } => {
            (encode_client(client), encode_transaction(transaction))
        }
        Write::ProcessDispute { client, dispute } => (encode_client(client), encode_dispute(dispute)),
        Write::RemoveDispute { client, dispute } => (encode_client(client), encode_dispute(dispute)),
    }
}

// Carries out one request and hands the answer back to the engine.
fn advance(memory: &mut Memory, step: Step) -> Step {
    match step {
        Step::GetClient(waiting) => {
            let found = read(memory, waiting.request())
                .map(|found| found.map(|bytes| decode_client(&bytes)));
            waiting.resume(found)
        }
        Step::AddClient(waiting) => {
            let added = commit(memory, waiting.request(&encode_client(&waiting.client())));
            waiting.resume(added)
        }
        Step::GetTransaction(waiting) => {
            let found = read(memory, waiting.request())
                .map(|found| found.map(|bytes| decode_transaction(&bytes)));
            waiting.resume(found)
        }
        Step::GetDispute(waiting) => {
            let found = read(memory, waiting.request())
                .map(|found| found.map(|bytes| decode_dispute(&bytes)));
            waiting.resume(found)
        }
        Step::Write(waiting) => {
            let (encoded_client, encoded) = encoded(waiting.write());
            let written = commit(memory, waiting.request(&encoded_client, &encoded));
            waiting.resume(written)
        }
        Step::Done(outcome) => Step::Done(outcome),
    }
}

fn process(memory: &mut Memory, session: &Session, transaction: Transaction) -> SanitizedResult<()> {
    let mut step = session.process_transaction(transaction);
    loop {
        step = match step {
            Step::Done(outcome) => return outcome,
            step => advance(memory, step),
        };
    }
}

fn units(tenths: i64) -> Amount {
    tenths * (AMOUNT_SCALE / 10)
}

fn record(kind: RecordType, client: u16, tx: u32, amount: Option<Amount>) -> Transaction {
    Transaction::from(CSVTransaction { record_type: kind, client, tx, amount })
}

fn deposit(client: u16, tx: u32, tenths: i64) -> Transaction {
    record(RecordType::Deposit, client, tx, Some(units(tenths)))
}

fn withdrawal(client: u16, tx: u32, tenths: i64) -> Transaction {
    record(RecordType::Withdrawal, client, tx, Some(units(tenths)))
}

fn all_clients(memory: &Memory, session: &Session) -> Vec<Client> {
    let request = session.get_all_clients();
    let members = memory.range(&request);
    let keys = Store::get_by_score_keys(&members, request.type_key);
    let found = memory.batch_get(&keys);
    let mut clients: Vec<Client> = Store::get_by_score_members(&members, &found)
        .unwrap()
        .iter()
        .map(|bytes| decode_client(bytes))
        .collect();
    clients.sort_by_key(|c| c.id);
    clients
}

fn balances(c: &Client) -> (u16, Amount, Amount, Amount, bool) {
    (c.id, c.available, c.held, c.total, c.locked)
}

fn user_error_text(outcome: SanitizedResult<()>) -> String {
    match outcome {
        Err(SanitizedError::UserError(message)) => message,
        other => panic!("not a user error: {:?}", other),
    }
}

#[test]
fn test_deposit_withdrawal() {
    let app = App::new_test_app();
    let session = app.new_session();
    let mut memory = Memory::new();

    assert!(process(&mut memory, &session, deposit(1, 1, 10)).is_ok());
    assert!(process(&mut memory, &session, deposit(2, 2, 20)).is_ok());
    assert!(process(&mut memory, &session, deposit(1, 3, 20)).is_ok());
    assert!(process(&mut memory, &session, withdrawal(1, 4, 15)).is_ok());
    let refused = process(&mut memory, &session, withdrawal(2, 5, 30));
    assert_eq!(user_error_text(refused), "not enough funds available");

    let clients = all_clients(&memory, &session);
    assert_eq!(clients.len(), 2);
    assert_eq!(balances(&clients[0]), (1, units(15), 0, units(15), false));
    assert_eq!(balances(&clients[1]), (2, units(20), 0, units(20), false));
}

#[test]
fn test_dispute() {
    let app = App::new_test_app();
    let session = app.new_session();
    let mut memory = Memory::new();

    assert!(process(&mut memory, &session, deposit(1, 1, 50)).is_ok());
    assert!(process(&mut memory, &session, record(RecordType::Dispute, 1, 1, None)).is_ok());

    let clients = all_clients(&memory, &session);
    assert_eq!(clients.len(), 1);
    assert_eq!(balances(&clients[0]), (1, 0, units(50), units(50), false));
}

#[test]
fn test_dispute_resolve() {
    let app = App::new_test_app();
    let session = app.new_session();
    let mut memory = Memory::new();

    assert!(process(&mut memory, &session, deposit(1, 1, 50)).is_ok());
    assert!(process(&mut memory, &session, record(RecordType::Dispute, 1, 1, None)).is_ok());
    assert!(process(&mut memory, &session, record(RecordType::Resolve, 1, 1, None)).is_ok());

    let clients = all_clients(&memory, &session);
    assert_eq!(clients.len(), 1);
    assert_eq!(balances(&clients[0]), (1, units(50), 0, units(50), false));
}

#[test]
fn test_dispute_chargeback() {
    let app = App::new_test_app();
    let session = app.new_session();
    let mut memory = Memory::new();

    assert!(process(&mut memory, &session, deposit(1, 1, 50)).is_ok());
    assert!(process(&mut memory, &session, record(RecordType::Dispute, 1, 1, None)).is_ok());
    assert!(process(&mut memory, &session, record(RecordType::Chargeback, 1, 1, None)).is_ok());
    let refused = process(&mut memory, &session, deposit(1, 2, 10));
    assert_eq!(user_error_text(refused), "client is locked");

    let clients = all_clients(&memory, &session);
    assert_eq!(clients.len(), 1);
    assert_eq!(balances(&clients[0]), (1, 0, 0, 0, true));
}

#[test]
fn dispute_of_unknown_transaction_is_skipped() {
    let app = App::new_test_app();
    let session = app.new_session();
    let mut memory = Memory::new();

    assert!(process(&mut memory, &session, deposit(1, 1, 50)).is_ok());
    let writes = memory.writes;
    let refused = process(&mut memory, &session, record(RecordType::Dispute, 1, 999, None));
    assert_eq!(user_error_text(refused), "dispute referenced tx does not exist, skipping");
    assert_eq!(memory.writes, writes);

    let clients = all_clients(&memory, &session);
    assert_eq!(clients.len(), 1);
    assert_eq!(balances(&clients[0]), (1, units(50), 0, units(50), false));
    assert_eq!(clients[0].revision_number, 2);
}

#[test]
fn control_records_ignore_their_own_amount() {
    let app = App::new_test_app();
    let session = app.new_session();
    let mut memory = Memory::new();

    assert!(process(&mut memory, &session, deposit(1, 1, 50)).is_ok());
    let dispute = record(RecordType::Dispute, 1, 1, Some(units(7)));
    assert!(process(&mut memory, &session, dispute).is_ok());

    let clients = all_clients(&memory, &session);
    assert_eq!(balances(&clients[0]), (1, 0, units(50), units(50), false));
}

#[test]
fn a_new_client_is_created_for_any_record() {
    let app = App::new_test_app();
    let session = app.new_session();
    let mut memory = Memory::new();

    let refused = process(&mut memory, &session, record(RecordType::Resolve, 9, 1, None));
    assert_eq!(user_error_text(refused), "resolve tx is not disputed, skipping");

    let clients = all_clients(&memory, &session);
    assert_eq!(clients.len(), 1);
    assert_eq!(balances(&clients[0]), (9, 0, 0, 0, false));
    assert_eq!(clients[0].revision_number, 1);
}

#[test]
fn open_dispute_refuses_a_second_dispute() {
    let app = App::new_test_app();
    let session = app.new_session();
    let mut memory = Memory::new();

    assert!(process(&mut memory, &session, deposit(1, 1, 50)).is_ok());
    assert!(process(&mut memory, &session, record(RecordType::Dispute, 1, 1, None)).is_ok());
    let refused = process(&mut memory, &session, record(RecordType::Dispute, 1, 1, None));
    assert_eq!(user_error_text(refused), "tx is already under dispute, skipping");
}

#[test]
fn closed_dispute_refuses_resolve_and_chargeback() {
    let app = App::new_test_app();
    let session = app.new_session();
    let mut memory = Memory::new();

    assert!(process(&mut memory, &session, deposit(1, 1, 50)).is_ok());
    let refused = process(&mut memory, &session, record(RecordType::Chargeback, 1, 1, None));
    assert_eq!(user_error_text(refused), "chargeback tx is not disputed, skipping");
    assert!(process(&mut memory, &session, record(RecordType::Dispute, 1, 1, None)).is_ok());
    assert!(process(&mut memory, &session, record(RecordType::Resolve, 1, 1, None)).is_ok());
    let refused = process(&mut memory, &session, record(RecordType::Resolve, 1, 1, None));
    assert_eq!(user_error_text(refused), "resolve tx is no longer disputed, skipping");
    let refused = process(&mut memory, &session, record(RecordType::Chargeback, 1, 1, None));
    assert_eq!(user_error_text(refused), "chargeback tx is no longer disputed, skipping");
}

#[test]
fn dispute_after_resolve_meets_the_old_entry_and_gives_up() {
    let app = App::new_test_app();
    let session = app.new_session();
    let mut memory = Memory::new();

    assert!(process(&mut memory, &session, deposit(1, 1, 50)).is_ok());
    assert!(process(&mut memory, &session, record(RecordType::Dispute, 1, 1, None)).is_ok());
    assert!(process(&mut memory, &session, record(RecordType::Resolve, 1, 1, None)).is_ok());
    let writes = memory.writes;
    let refused = process(&mut memory, &session, record(RecordType::Dispute, 1, 1, None));
    assert_eq!(user_error_text(refused), "transaction contention");
    assert_eq!(memory.writes, writes + 3);

    let clients = all_clients(&memory, &session);
    assert_eq!(balances(&clients[0]), (1, units(50), 0, units(50), false));
}

#[test]
fn contention_is_retried_three_times_then_reported() {
    let app = App::new_test_app();
    let session = app.new_session();
    let mut memory = Memory::new();

    assert!(process(&mut memory, &session, deposit(1, 1, 10)).is_ok());
    memory.refuse_writes = true;
    let writes = memory.writes;
    let refused = process(&mut memory, &session, deposit(1, 2, 10));
    assert_eq!(user_error_text(refused), "transaction contention");
    assert_eq!(memory.writes, writes + 3);
}

#[test]
fn contention_on_creating_the_client_is_retried() {
    let app = App::new_test_app();
    let session = app.new_session();
    let mut memory = Memory::new();
    memory.refuse_writes = true;

    let refused = process(&mut memory, &session, deposit(1, 1, 10));
    assert_eq!(user_error_text(refused), "transaction contention");
    assert_eq!(memory.writes, 3);
    assert!(all_clients(&memory, &session).is_empty());
}

#[test]
fn a_transaction_id_is_entered_once() {
    let app = App::new_test_app();
    let session = app.new_session();
    let mut memory = Memory::new();

    assert!(process(&mut memory, &session, deposit(1, 1, 10)).is_ok());
    let refused = process(&mut memory, &session, deposit(1, 1, 10));
    assert_eq!(user_error_text(refused), "transaction contention");

    let clients = all_clients(&memory, &session);
    assert_eq!(balances(&clients[0]), (1, units(10), 0, units(10), false));
}

#[test]
fn two_writers_on_one_revision_one_wins_and_the_other_retries() {
    let app = App::new_test_app();
    let session = app.new_session();
    let mut memory = Memory::new();
    assert!(process(&mut memory, &session, deposit(1, 1, 10)).is_ok());

    // both read the client at revision 2
    let first = advance(&mut memory, session.process_transaction(deposit(1, 2, 10)));
    let second = advance(&mut memory, session.process_transaction(deposit(1, 3, 10)));
    assert!(matches!(first, Step::Write(_)));
    assert!(matches!(second, Step::Write(_)));

    // the first write is carried out, the second is refused and starts again
    let first = advance(&mut memory, first);
    assert!(matches!(first, Step::Done(Ok(()))));
    let second = advance(&mut memory, second);
    match &second {
        Step::GetClient(waiting) => assert_eq!(waiting.attempt, 2),
        other => panic!("no retry: {:?}", other),
    }
    let mut step = second;
    let outcome = loop {
        step = match step {
            Step::Done(outcome) => break outcome,
            step => advance(&mut memory, step),
        };
    };
    assert!(outcome.is_ok());

    let clients = all_clients(&memory, &session);
    assert_eq!(balances(&clients[0]), (1, units(30), 0, units(30), false));
    assert_eq!(clients[0].revision_number, 4);
}

#[test]
fn many_deposits_add_up_and_every_revision_is_kept() {
    let app = App::new_test_app();
    let session = app.new_session();
    let mut memory = Memory::new();
    let n: u32 = 25;
    for k in 1..=n {
        assert!(process(&mut memory, &session, deposit(1, k, 10)).is_ok());
    }
    let clients = all_clients(&memory, &session);
    assert_eq!(balances(&clients[0]), (1, units(10 * n as i64), 0, units(10 * n as i64), false));
    assert_eq!(clients[0].revision_number, n + 1);

    let id = Id::from_u32(1);
    for revision in 1..=(n + 1) {
        let mut key = b"client_revision:".to_vec();
        key.extend_from_slice(id.as_bytes());
        key.extend_from_slice(format!(":{}", revision).as_bytes());
        let frame = memory.values.get(&key).expect("revision is kept");
        let kept = decode_client(&Store::deserialize(frame).unwrap());
        assert_eq!(kept.revision_number, revision);
        assert_eq!(kept.total, kept.available + kept.held);
        assert_eq!(kept.available, units(10 * (revision as i64 - 1)));
    }
}

#[test]
fn backend_failure_is_an_internal_error_and_is_not_retried() {
    let app = App::new_test_app();
    let session = app.new_session();
    let step = session.process_transaction(deposit(1, 1, 10));
    let failure: Result<Option<Vec<u8>>, BackendError> =
        Err(BackendError::Other("connection reset".to_string()));
    let found = sanitize(Store::fetched(failure)).map(|found| found.map(|b| decode_client(&b)));
    let next = match step {
        Step::GetClient(waiting) => waiting.resume(found),
        other => panic!("unexpected first step: {:?}", other),
    };
    assert!(matches!(next, Step::Done(Err(SanitizedError::InternalError))));
}

#[test]
fn deposit_beyond_what_an_amount_holds_is_refused() {
    let client = Client::new_at(1, Some(i64::MAX - 5), 10);
    let tx = Transaction::from_csv_at(
        CSVTransaction { record_type: RecordType::Deposit, client: 1, tx: 1, amount: Some(6) },
        20,
    );
    match Session::deposit_at(client, tx, 30) {
        Err(SanitizedError::UserError(message)) => assert_eq!(message, "amount out of range"),
        other => panic!("accepted: {:?}", other),
    }
    let tx = Transaction::from_csv_at(
        CSVTransaction { record_type: RecordType::Deposit, client: 1, tx: 1, amount: Some(5) },
        20,
    );
    let revised = Session::deposit_at(client, tx, 30).unwrap();
    assert_eq!(revised.available, i64::MAX);
    assert_eq!(revised.total, i64::MAX);
    assert_eq!(revised.revision_number, 2);
    assert_eq!(revised.revision_time, 30);
    assert_eq!(revised.creation_time, 10);
}

#[test]
fn last_revision_number_cannot_be_followed() {
    let mut client = Client::new_at(1, Some(100), 10);
    client.revision_number = u32::MAX;
    let tx = Transaction::from_csv_at(
        CSVTransaction { record_type: RecordType::Deposit, client: 1, tx: 1, amount: Some(5) },
        20,
    );
    assert!(matches!(Session::deposit_at(client, tx, 30), Err(SanitizedError::InternalError)));
}

#[test]
fn withdrawal_to_exactly_zero_is_accepted() {
    let client = Client::new_at(1, Some(100), 10);
    let tx = Transaction::from_csv_at(
        CSVTransaction { record_type: RecordType::Withdrawal, client: 1, tx: 1, amount: Some(100) },
        20,
    );
    let revised = Session::withdrawal_at(client, tx, 30).unwrap();
    assert_eq!((revised.available, revised.held, revised.total), (0, 0, 0));
    let tx = Transaction::from_csv_at(
        CSVTransaction { record_type: RecordType::Withdrawal, client: 1, tx: 2, amount: Some(101) },
        20,
    );
    assert!(matches!(
        Session::withdrawal_at(client, tx, 30),
        Err(SanitizedError::UserError(_))
    ));
}

#[test]
fn dispute_may_leave_less_than_nothing_available() {
    let client = Client::new_at(1, Some(30), 10);
    let referenced = Transaction::from_csv_at(
        CSVTransaction { record_type: RecordType::Deposit, client: 1, tx: 1, amount: Some(100) },
        5,
    );
    let (revised, dispute) = Session::dispute_at(client, Some(referenced), None, 40, Id::from_vec(vec![7u8; 20]))
        .unwrap();
    assert_eq!((revised.available, revised.held, revised.total), (-70, 100, 30));
    assert_eq!(dispute.id.as_bytes(), vec![7u8; 20].as_slice());
    assert_eq!(dispute.revision_number, 1);
    assert!(!dispute.is_deleted);
    assert_eq!(dispute.referenced_tx, referenced);
    assert_eq!((dispute.creation_time, dispute.revision_time), (40, 40));

    let (resolved, closed) = Session::resolve_at(revised, Some(dispute.clone()), 50).unwrap();
    assert_eq!((resolved.available, resolved.held, resolved.total), (30, 0, 30));
    assert!(closed.is_deleted);
    assert_eq!(closed.revision_number, 2);
    assert_eq!((closed.creation_time, closed.revision_time), (40, 50));

    let (charged, closed) = Session::chargeback_at(revised, Some(dispute), 60).unwrap();
    assert_eq!((charged.available, charged.held, charged.total), (-70, 0, -70));
    assert!(charged.locked);
    assert!(closed.is_deleted);
}

#[test]
fn batch_goes_on_after_a_refused_record_and_stops_on_other_errors() {
    let app = App::new_test_app();
    let session = app.new_session();
    assert!(matches!(session.process_csv(Ok(())), BatchStep::Continue));
    match session.process_csv(Err(SanitizedError::UserError("client is locked".to_string()))) {
        BatchStep::Skip(message) => assert_eq!(message, "client is locked"),
        other => panic!("not skipped: {:?}", other),
    }
    assert!(matches!(
        session.process_csv(Err(SanitizedError::InternalError)),
        BatchStep::Abort(SanitizedError::InternalError)
    ));
    assert!(matches!(
        session.process_csv(Err(SanitizedError::Contention)),
        BatchStep::Abort(SanitizedError::Contention)
    ));
}

#[test]
fn account_report_has_one_row_for_each_client() {
    let app = App::new_test_app();
    let session = app.new_session();
    let mut memory = Memory::new();
    assert!(process(&mut memory, &session, deposit(2, 1, 10)).is_ok());
    assert!(process(&mut memory, &session, deposit(1, 2, 25)).is_ok());
    let rows = session.output_all_accounts(all_clients(&memory, &session));
    assert_eq!(rows.len(), 2);
    assert_eq!(
        (rows[0].client, rows[0].available, rows[0].held, rows[0].total, rows[0].locked),
        (1, units(25), 0, units(25), false)
    );
    assert_eq!(rows[1].client, 2);
}

fn client_ids(memory: &Memory, session: &Session, limit: i32) -> Vec<u16> {
    let request = session.get_clients_by_time_range(distant_past(), distant_future(), limit);
    let members = memory.range(&request);
    let keys = Store::get_by_score_keys(&members, request.type_key);
    let found = memory.batch_get(&keys);
    Store::get_by_score_members(&members, &found)
        .unwrap()
        .iter()
        .map(|bytes| decode_client(bytes).id)
        .collect()
}

// Returns once the clock has moved on, so that what follows is later.
fn wait_for_the_clock() {
    let start = Client::new(0, None).creation_time;
    while Client::new(0, None).creation_time <= start {}
}

#[test]
fn negative_limit_reads_the_last_clients_latest_first() {
    let app = App::new_test_app();
    let session = app.new_session();
    let mut memory = Memory::new();
    for id in 1..=4u16 {
        assert!(process(&mut memory, &session, deposit(id, id as u32, 10)).is_ok());
        wait_for_the_clock();
    }
    assert_eq!(client_ids(&memory, &session, 0), vec![1, 2, 3, 4]);
    assert_eq!(client_ids(&memory, &session, 2), vec![1, 2]);
    assert_eq!(client_ids(&memory, &session, -2), vec![4, 3]);
    assert_eq!(client_ids(&memory, &session, -9), vec![4, 3, 2, 1]);

    // a client that is revised moves to the end
    wait_for_the_clock();
    assert!(process(&mut memory, &session, deposit(2, 9, 10)).is_ok());
    assert_eq!(client_ids(&memory, &session, 0), vec![1, 3, 4, 2]);
    assert_eq!(client_ids(&memory, &session, -1), vec![2]);
}

#[test]
fn decisions_made_now_are_stamped_with_the_current_time() {
    let app = App::new_test_app();
    let session = app.new_session();
    let client = Client::new_at(1, Some(100), 10);
    let tx = Transaction::from_csv_at(
        CSVTransaction { record_type: RecordType::Deposit, client: 1, tx: 1, amount: Some(5) },
        20,
    );
    let deposited = session.deposit(client, tx).unwrap();
    assert_eq!((deposited.available, deposited.total, deposited.revision_number), (105, 105, 2));
    assert!(deposited.revision_time > 1_577_836_800_000_000);
    let withdrawn = session.withdrawal(client, tx).unwrap();
    assert_eq!((withdrawn.available, withdrawn.total, withdrawn.revision_number), (95, 95, 2));
    let (disputed, dispute) = session.dispute(client, Some(tx), None).unwrap();
    assert_eq!((disputed.available, disputed.held, disputed.total), (95, 5, 100));
    assert_eq!(dispute.id.as_bytes().len(), 20);
    assert!(dispute.revision_time > 1_577_836_800_000_000);
    let (resolved, closed) = session.resolve(disputed, Some(dispute.clone())).unwrap();
    assert_eq!((resolved.available, resolved.held, resolved.total), (100, 0, 100));
    assert!(closed.is_deleted);
    let (charged, closed) = session.chargeback(disputed, Some(dispute)).unwrap();
    assert_eq!((charged.available, charged.held, charged.total, charged.locked), (95, 0, 95, true));
    assert_eq!(closed.revision_number, 2);
}

#[test]
fn records_read_back_as_they_were_written() {
    let client = Client {
        id: 65_535,
        available: -1,
        held: i64::MAX,
        total: i64::MAX - 1,
        locked: true,
        creation_time: -5,
        revision_number: u32::MAX,
        revision_time: i64::MAX,
    };
    let frame = Store::serialize(&encode_client(&client)).unwrap();
    assert_eq!(decode_client(&Store::deserialize(&frame).unwrap()), client);

    let transaction = withdrawal(7, u32::MAX, 123);
    let frame = Store::serialize(&encode_transaction(&transaction)).unwrap();
    assert_eq!(decode_transaction(&Store::deserialize(&frame).unwrap()), transaction);

    let dispute = Dispute::new(transaction).with_patch_at(true, 99);
    let frame = Store::serialize(&encode_dispute(&dispute)).unwrap();
    let back = decode_dispute(&Store::deserialize(&frame).unwrap());
    assert_eq!(back.id, dispute.id);
    assert_eq!(back.referenced_tx, dispute.referenced_tx);
    assert_eq!(
        (back.is_deleted, back.creation_time, back.revision_number, back.revision_time),
        (true, dispute.creation_time, 2, 99)
    );
}

fn client_transactions(memory: &Memory, session: &Session, client_id: u16) -> Vec<Transaction> {
    let request = session.get_all_client_transactions(client_id);
    let members = memory.range(&request);
    let keys = Store::get_by_score_keys(&members, request.type_key);
    let found = memory.batch_get(&keys);
    Store::get_by_score_members(&members, &found)
        .unwrap()
        .iter()
        .map(|bytes| decode_transaction(bytes))
        .collect()
}

#[test]
fn all_transactions_of_a_client_are_read() {
    let app = App::new_test_app();
    let session = app.new_session();
    let mut memory = Memory::new();
    assert!(process(&mut memory, &session, deposit(1, 1, 100)).is_ok());
    assert!(process(&mut memory, &session, deposit(2, 2, 30)).is_ok());

    let of_one = client_transactions(&memory, &session, 1);
    assert_eq!(of_one.len(), 1);
    assert_eq!((of_one[0].tx, of_one[0].client, of_one[0].amount), (1, 1, units(100)));
    assert_eq!(of_one[0].record_type, RecordType::Deposit);
    assert!(client_transactions(&memory, &session, 3).is_empty());

    wait_for_the_clock();
    assert!(process(&mut memory, &session, withdrawal(1, 3, 40)).is_ok());
    // a record that is refused leaves no transaction, nor does a dispute
    assert!(process(&mut memory, &session, withdrawal(1, 4, 900)).is_err());
    assert!(process(&mut memory, &session, record(RecordType::Dispute, 1, 1, None)).is_ok());
    let of_one = client_transactions(&memory, &session, 1);
    assert_eq!(of_one.iter().map(|t| t.tx).collect::<Vec<u32>>(), vec![1, 3]);
    let of_two = client_transactions(&memory, &session, 2);
    assert_eq!(of_two.iter().map(|t| t.tx).collect::<Vec<u32>>(), vec![2]);
}
