use payment_engine::model::{
    CSVClient, CSVTransaction, Client, ClientPatch, Dispute, Id, RecordType, Transaction,
    TransactionPatch, AMOUNT_SCALE, ID_LENGTH,
};

fn deposit_record(amount: Option<i64>) -> CSVTransaction {
    CSVTransaction { record_type: RecordType::Deposit, client: 3, tx: 11, amount }
}

#[test]
fn numeric_id_is_big_endian_and_zero_padded() {
    let id = Id::from_u32(0x0102_0304);
    let mut expected = vec![1u8, 2, 3, 4];
    expected.resize(ID_LENGTH, 0);
    assert_eq!(id.as_bytes(), expected.as_slice());
    assert_eq!(Id::from(0x0102_0304u32), id);
}

#[test]
fn numeric_id_of_the_extremes() {
    assert_eq!(Id::from_u32(0).as_bytes(), vec![0u8; 20].as_slice());
    let mut expected = vec![0xffu8; 4];
    expected.resize(ID_LENGTH, 0);
    assert_eq!(Id::from_u32(u32::MAX).as_bytes(), expected.as_slice());
    assert_eq!(Id::from_u32(65535).as_bytes()[..4], [0u8, 0, 0xff, 0xff]);
}

#[test]
fn id_keeps_the_bytes_it_is_made_of() {
    let id = Id::from(vec![9u8, 8, 7]);
    assert_eq!(id.as_bytes(), &[9u8, 8, 7]);
    assert_eq!(id.clone().into_vec(), vec![9u8, 8, 7]);
    assert_eq!(Id::from_vec(Vec::new()).as_bytes().len(), 0);
}

#[test]
fn generated_ids_are_twenty_random_bytes() {
    let a = Id::generate();
    let b = Id::generate();
    assert_eq!(a.as_bytes().len(), ID_LENGTH);
    assert_eq!(b.as_bytes().len(), ID_LENGTH);
    assert_ne!(a.as_bytes(), vec![0u8; ID_LENGTH].as_slice());
    assert_ne!(a, b);
}

#[test]
fn new_client_starts_at_revision_one() {
    let c = Client::new_at(7, Some(15_000), 42);
    assert_eq!(
        c,
        Client {
            id: 7,
            available: 15_000,
            held: 0,
            total: 15_000,
            locked: false,
            creation_time: 42,
            revision_number: 1,
            revision_time: 42,
        }
    );
    let empty = Client::new_at(7, None, 42);
    assert_eq!((empty.available, empty.held, empty.total), (0, 0, 0));
}

#[test]
fn new_client_is_stamped_with_the_current_time() {
    let c = Client::new(1, None);
    // later than the first of January 2020, in microseconds
    assert!(c.creation_time > 1_577_836_800_000_000);
    assert_eq!(c.creation_time, c.revision_time);
    assert_eq!(c.revision_number, 1);
}

#[test]
fn patch_replaces_what_it_names_and_recomputes_the_total() {
    let c = Client::new_at(7, Some(100), 1);
    let patched = c.with_patch_at(ClientPatch { available: None, held: Some(30), locked: None }, 2);
    assert_eq!((patched.available, patched.held, patched.total), (100, 30, 130));
    assert_eq!(patched.revision_number, 2);
    assert_eq!((patched.creation_time, patched.revision_time), (1, 2));
    assert!(!patched.locked);

    let locked = patched.with_patch_at(
        ClientPatch { available: Some(-5), held: None, locked: Some(true) },
        3,
    );
    assert_eq!((locked.available, locked.held, locked.total), (-5, 30, 25));
    assert_eq!(locked.revision_number, 3);
    assert!(locked.locked);
    assert_eq!(locked.id, 7);
}

#[test]
fn empty_patch_only_makes_a_new_revision() {
    let c = Client::new_at(7, Some(100), 1);
    let next = c.with_patch_at(ClientPatch::default(), 9);
    assert_eq!((next.available, next.held, next.total, next.locked), (100, 0, 100, false));
    assert_eq!(next.revision_number, 2);
    let later = c.with_patch(ClientPatch::default());
    assert!(later.revision_time > 1_577_836_800_000_000);
    assert_eq!(later.revision_number, 2);
}

#[test]
fn defaults_are_empty() {
    let c = Client::default();
    assert_eq!((c.id, c.available, c.held, c.total, c.locked, c.revision_number), (0, 0, 0, 0, false, 0));
    assert_eq!(CSVClient::default(), CSVClient { client: 0, available: 0, held: 0, total: 0, locked: false });
    assert_eq!(ClientPatch::default(), ClientPatch { available: None, held: None, locked: None });
    assert_eq!(TransactionPatch::default(), TransactionPatch { is_disputed: None });
}

#[test]
fn report_row_of_a_client() {
    let c = Client {
        id: 4,
        available: 3 * AMOUNT_SCALE / 2,
        held: AMOUNT_SCALE,
        total: 5 * AMOUNT_SCALE / 2,
        locked: true,
        creation_time: 1,
        revision_number: 6,
        revision_time: 2,
    };
    assert_eq!(
        CSVClient::from(c),
        CSVClient { client: 4, available: 15_000, held: 10_000, total: 25_000, locked: true }
    );
}

#[test]
fn report_rows_sort_by_client() {
    let mut rows = vec![
        CSVClient { client: 2, available: 0, held: 0, total: 0, locked: false },
        CSVClient { client: 1, available: 9, held: 0, total: 9, locked: false },
    ];
    rows.sort();
    assert_eq!(rows[0].client, 1);
    assert_eq!(rows[1].client, 2);
}

#[test]
fn record_without_amount_is_recorded_with_zero() {
    let t = Transaction::from_csv_at(deposit_record(None), 5);
    assert_eq!(
        t,
        Transaction {
            record_type: RecordType::Deposit,
            client: 3,
            tx: 11,
            amount: 0,
            creation_time: 5,
            revision_number: 1,
            revision_time: 5,
        }
    );
    let t = Transaction::from_csv_at(deposit_record(Some(25_000)), 5);
    assert_eq!(t.amount, 25_000);
    let now = Transaction::from(deposit_record(Some(1)));
    assert!(now.creation_time > 1_577_836_800_000_000);
    assert_eq!(now.creation_time, now.revision_time);
    assert_eq!(now.revision_number, 1);
}

#[test]
fn dispute_is_opened_and_closed_by_revisions() {
    let referenced = Transaction::from_csv_at(deposit_record(Some(7)), 5);
    let d = Dispute::new_at(referenced, Id::from_vec(vec![1u8; 20]), 8);
    assert_eq!(d.id.as_bytes(), vec![1u8; 20].as_slice());
    assert_eq!(d.referenced_tx, referenced);
    assert!(!d.is_deleted);
    assert_eq!((d.creation_time, d.revision_number, d.revision_time), (8, 1, 8));

    let closed = d.clone().with_patch_at(true, 9);
    assert!(closed.is_deleted);
    assert_eq!((closed.creation_time, closed.revision_number, closed.revision_time), (8, 2, 9));
    assert_eq!(closed.id, d.id);
    assert_eq!(closed.referenced_tx, referenced);

    let reopened = closed.with_patch(false);
    assert!(!reopened.is_deleted);
    assert_eq!(reopened.revision_number, 3);
}

#[test]
fn new_dispute_gets_a_fresh_id() {
    let referenced = Transaction::from_csv_at(deposit_record(Some(7)), 5);
    let a = Dispute::new(referenced);
    let b = Dispute::new(referenced);
    assert_eq!(a.id.as_bytes().len(), ID_LENGTH);
    assert_ne!(a.id, b.id);
    assert_eq!(a.revision_number, 1);
    assert_eq!(a.creation_time, a.revision_time);
    assert!(a.creation_time > 1_577_836_800_000_000);
}
