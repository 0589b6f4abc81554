use payment_engine::model::{Client, Dispute, Id, RecordType, Transaction};
use payment_engine::store::store_key::{
    copy_bytes, make_entity_key, make_member_set_key, make_revision_key, push_key,
};
use payment_engine::store::{
    AsKey, AtomicWriteOperation, Backend, BackendError, Conditionals, Config, DynamoDBConfig,
    Error, Store, WriteOp,
};

fn id_of(n: u32) -> Vec<u8> {
    let mut id = n.to_be_bytes().to_vec();
    id.resize(20, 0);
    id
}

fn key(parts: &[&[u8]]) -> Vec<u8> {
    parts.concat()
}

fn client() -> Client {
    Client {
        id: 258,
        available: 10,
        held: 5,
        total: 15,
        locked: false,
        creation_time: 100,
        revision_number: 12,
        revision_time: 777,
    }
}

fn transaction() -> Transaction {
    Transaction {
        record_type: RecordType::Deposit,
        client: 258,
        tx: 70_000,
        amount: 10,
        creation_time: 700,
        revision_number: 1,
        revision_time: 700,
    }
}

fn dispute() -> Dispute {
    Dispute {
        id: Id::from_vec(vec![0xabu8; 20]),
        referenced_tx: transaction(),
        is_deleted: false,
        creation_time: 800,
        revision_number: 1,
        revision_time: 800,
    }
}

fn set(k: Vec<u8>, v: &[u8]) -> (u8, Vec<u8>, Vec<u8>, i64) {
    (0, k, v.to_vec(), 0)
}

fn set_nx(k: Vec<u8>, v: &[u8]) -> (u8, Vec<u8>, Vec<u8>, i64) {
    (1, k, v.to_vec(), 0)
}

fn z_add(k: Vec<u8>, member: &[u8], score: i64) -> (u8, Vec<u8>, Vec<u8>, i64) {
    (2, k, member.to_vec(), score)
}

fn z_rem(k: Vec<u8>, member: &[u8]) -> (u8, Vec<u8>, Vec<u8>, i64) {
    (3, k, member.to_vec(), 0)
}

fn steps(tx: &AtomicWriteOperation) -> Vec<(u8, Vec<u8>, Vec<u8>, i64)> {
    tx.ops
        .iter()
        .map(|op| match op {
            WriteOp::SetKey { key, value } => (0, key.clone(), value.clone(), 0),
            WriteOp::SetNx { key, value } => (1, key.clone(), value.clone(), 0),
            WriteOp::ZAdd { key, member, score } => (2, key.clone(), member.clone(), *score),
            WriteOp::ZRem { key, member } => (3, key.clone(), member.clone(), 0),
        })
        .collect()
}

fn client_steps(frame: &[u8], create: bool) -> Vec<(u8, Vec<u8>, Vec<u8>, i64)> {
    let id = id_of(258);
    vec![
        z_add(b"clients".to_vec(), &id, 777),
        if create {
            set_nx(key(&[b"client:", &id]), frame)
        } else {
            set(key(&[b"client:", &id]), frame)
        },
        set_nx(key(&[b"client_revision:", &id, b":12"]), frame),
    ]
}

#[test]
fn numbers_are_written_in_decimal_in_keys() {
    assert_eq!(0u32.as_key(), b"0".to_vec());
    assert_eq!(7u32.as_key(), b"7".to_vec());
    assert_eq!(10u32.as_key(), b"10".to_vec());
    assert_eq!(4_294_967_295u32.as_key(), b"4294967295".to_vec());
    assert_eq!(65_535u16.as_key(), b"65535".to_vec());
    assert_eq!(100u16.as_key(), b"100".to_vec());
}

#[test]
fn text_bytes_and_ids_are_their_own_key_parts() {
    assert_eq!("client".as_key(), b"client".to_vec());
    assert_eq!(vec![1u8, 2, 3].as_key(), vec![1u8, 2, 3]);
    let bytes: &[u8] = &[4u8, 5];
    assert_eq!(bytes.as_key(), vec![4u8, 5]);
    assert_eq!(Id::from_u32(1).as_key(), id_of(1));
    assert_eq!(copy_bytes(&[9u8, 9]), vec![9u8, 9]);
}

#[test]
fn keys_are_parts_joined_by_colons() {
    let id = Id::from_u32(513);
    assert_eq!(make_entity_key("client", &id), key(&[b"client:", &id_of(513)]));
    assert_eq!(
        make_revision_key("client_revision", &id, 40),
        key(&[b"client_revision:", &id_of(513), b":40"])
    );
    assert_eq!(
        make_member_set_key("transactions", "client", &id),
        key(&[b"transactions:client:", &id_of(513)])
    );
    let mut k = b"a".to_vec();
    push_key(&mut k, ":");
    push_key(&mut k, &12u32);
    assert_eq!(k, b"a:12".to_vec());
}

#[test]
fn keys_to_read() {
    assert_eq!(Store::get_client_by_id(258), key(&[b"client:", &id_of(258)]));
    assert_eq!(Store::get_transaction_by_id(70_000), key(&[b"transaction:", &id_of(70_000)]));
    assert_eq!(
        Store::get_dispute_by_reference_tx_id(70_000),
        key(&[b"reference_tx_dispute:", &id_of(70_000)])
    );
}

#[test]
fn write_of_a_new_client() {
    let tx = Store::write_client(&client(), &vec![1u8, 2, 3], true);
    assert_eq!(steps(&tx), client_steps(&[1, 2, 3], true));
}

#[test]
fn write_of_a_client_revision() {
    let tx = Store::write_client(&client(), &vec![1u8, 2, 3], false);
    assert_eq!(steps(&tx), client_steps(&[1, 2, 3], false));
}

#[test]
fn add_client_stores_the_frame_of_the_record() {
    let encoded = b"an encoded client".to_vec();
    let frame = Store::serialize(&encoded).unwrap();
    let tx = Store::add_client(&client(), &encoded).unwrap();
    assert_eq!(steps(&tx), client_steps(&frame, true));
    let tx = Store::add_client_revision(&client(), &encoded).unwrap();
    assert_eq!(steps(&tx), client_steps(&frame, false));
}

#[test]
fn write_of_a_transaction() {
    let tx = Store::write_transaction(&client(), &vec![1u8], &transaction(), &vec![2u8], 900);
    let tx_id = id_of(70_000);
    let mut expected = client_steps(&[1], false);
    expected.extend(vec![
        z_add(b"transactions".to_vec(), &tx_id, 900),
        set_nx(key(&[b"transaction:", &tx_id]), &[2]),
        set_nx(key(&[b"transaction_revision:", &tx_id, b":1"]), &[2]),
        z_add(key(&[b"transactions:client:", &id_of(258)]), &tx_id, 900),
    ]);
    assert_eq!(steps(&tx), expected);
}

#[test]
fn process_transaction_frames_both_records() {
    let tx = Store::process_transaction_at(&client(), &vec![1u8], &transaction(), &vec![2u8], 900)
        .unwrap();
    let expected = Store::write_transaction(
        &client(),
        &Store::serialize(&vec![1u8]).unwrap(),
        &transaction(),
        &Store::serialize(&vec![2u8]).unwrap(),
        900,
    );
    assert_eq!(steps(&tx), steps(&expected));

    let now = Store::process_transaction(&client(), &vec![1u8], &transaction(), &vec![2u8]).unwrap();
    let listed = steps(&now);
    assert_eq!(listed.len(), 7);
    assert!(listed[3].3 > 1_577_836_800_000_000);
    assert_eq!(listed[3].3, listed[6].3);
    assert_eq!(listed[..3], steps(&expected)[..3]);
}

#[test]
fn write_of_a_dispute() {
    let tx = Store::write_dispute(&client(), &vec![1u8], &dispute(), &vec![3u8]);
    let dispute_id = vec![0xabu8; 20];
    let mut expected = client_steps(&[1], false);
    expected.extend(vec![
        set_nx(key(&[b"dispute:", &dispute_id]), &[3]),
        set_nx(key(&[b"dispute_revision:", &dispute_id, b":1"]), &[3]),
        set_nx(key(&[b"reference_tx_dispute:", &id_of(70_000)]), &[3]),
        z_add(key(&[b"client_disputes:", &id_of(258)]), &dispute_id, 800),
    ]);
    assert_eq!(steps(&tx), expected);
    let framed = Store::process_dispute(&client(), &vec![1u8], &dispute(), &vec![3u8]).unwrap();
    let client_frame = Store::serialize(&vec![1u8]).unwrap();
    let dispute_frame = Store::serialize(&vec![3u8]).unwrap();
    assert_eq!(
        steps(&framed),
        steps(&Store::write_dispute(&client(), &client_frame, &dispute(), &dispute_frame))
    );
}

#[test]
fn write_of_a_closed_dispute() {
    let closed = dispute().with_patch_at(true, 950);
    let tx = Store::write_closed_dispute(&client(), &vec![1u8], &closed, &vec![4u8]);
    let dispute_id = vec![0xabu8; 20];
    let mut expected = client_steps(&[1], false);
    expected.extend(vec![
        set(key(&[b"dispute:", &dispute_id]), &[4]),
        set_nx(key(&[b"dispute_revision:", &dispute_id, b":2"]), &[4]),
        set(key(&[b"reference_tx_dispute:", &id_of(70_000)]), &[4]),
        z_rem(key(&[b"client_disputes:", &id_of(258)]), &dispute_id),
    ]);
    assert_eq!(steps(&tx), expected);
    let framed = Store::remove_dispute(&client(), &vec![1u8], &closed, &vec![4u8]).unwrap();
    let client_frame = Store::serialize(&vec![1u8]).unwrap();
    let dispute_frame = Store::serialize(&vec![4u8]).unwrap();
    assert_eq!(
        steps(&framed),
        steps(&Store::write_closed_dispute(&client(), &client_frame, &closed, &dispute_frame))
    );
}

#[test]
fn atomic_write_keeps_its_steps_in_order() {
    let mut tx = AtomicWriteOperation::new();
    assert!(tx.ops.is_empty());
    tx.set(vec![1], vec![2]);
    tx.set_nx(vec![3], vec![4]);
    tx.z_add(vec![5], vec![6], -7);
    tx.z_rem(vec![8], vec![9]);
    assert_eq!(
        steps(&tx),
        vec![set(vec![1], &[2]), set_nx(vec![3], &[4]), z_add(vec![5], &[6], -7), z_rem(vec![8], &[9])]
    );
}

#[test]
fn frame_is_a_gzip_stream_that_reads_back() {
    let encoded: Vec<u8> = (0..2000u32).map(|i| (i % 7) as u8).collect();
    let frame = Store::serialize(&encoded).unwrap();
    assert_ne!(frame, encoded);
    assert_eq!(frame[..3], [0x1fu8, 0x8b, 8]);
    assert!(frame.len() < encoded.len());
    assert_eq!(Store::deserialize(&frame).unwrap(), encoded);
    assert_eq!(Store::serialize(&encoded).unwrap(), frame);
    let empty = Store::serialize(&Vec::new()).unwrap();
    assert_eq!(Store::deserialize(&empty).unwrap(), Vec::<u8>::new());
}

#[test]
fn bytes_that_are_no_frame_cannot_be_read() {
    match Store::deserialize(b"not a frame at all") {
        Err(Error::Other(message)) => assert!(!message.is_empty()),
        other => panic!("read: {:?}", other),
    }
    let frame = Store::serialize(&vec![1u8, 2, 3]).unwrap();
    assert!(Store::deserialize(&frame[..frame.len() - 4]).is_err());
}

#[test]
fn answers_to_writes() {
    assert!(Store::committed(Ok(true)).is_ok());
    assert!(matches!(Store::committed(Ok(false)), Err(Error::Contention)));
    assert!(matches!(
        Store::committed(Err(BackendError::AtomicWriteConflict)),
        Err(Error::Contention)
    ));
    match Store::committed(Err(BackendError::Other("timeout".to_string()))) {
        Err(Error::Other(message)) => assert_eq!(message, "timeout"),
        other => panic!("{:?}", other),
    }
}

#[test]
fn answers_to_reads() {
    assert_eq!(Store::fetched(Ok(None)).unwrap(), None);
    let frame = Store::serialize(&vec![5u8, 6]).unwrap();
    assert_eq!(Store::fetched(Ok(Some(frame))).unwrap(), Some(vec![5u8, 6]));
    assert!(matches!(Store::fetched(Ok(Some(vec![1u8, 2, 3]))), Err(Error::Other(_))));
    match Store::fetched(Err(BackendError::Other("down".to_string()))) {
        Err(Error::Other(message)) => assert_eq!(message, "down"),
        other => panic!("{:?}", other),
    }
    assert!(matches!(
        Store::fetched(Err(BackendError::AtomicWriteConflict)),
        Err(Error::Contention)
    ));
}

#[test]
fn limit_of_a_range_by_its_sign() {
    let all = Store::get_by_score(b"k".to_vec(), -5, 9, 0, "client");
    assert_eq!((all.key.clone(), all.min, all.max, all.limit, all.reverse), (b"k".to_vec(), -5, 9, 0, false));
    assert_eq!(all.type_key, "client");
    let first = Store::get_by_score(b"k".to_vec(), -5, 9, 3, "client");
    assert_eq!((first.limit, first.reverse), (3, false));
    let last = Store::get_by_score(b"k".to_vec(), -5, 9, -3, "client");
    assert_eq!((last.limit, last.reverse), (3, true));
    let most = Store::get_by_score(b"k".to_vec(), -5, 9, i32::MIN, "client");
    assert_eq!((most.limit, most.reverse), (2_147_483_648, true));
    let many = Store::get_by_time_range(b"k".to_vec(), 1, 2, i32::MAX, "transaction");
    assert_eq!((many.min, many.max, many.limit, many.reverse), (1, 2, 2_147_483_647, false));
}

#[test]
fn ranges_of_clients_and_of_their_transactions() {
    let clients = Store::get_clients_by_time_range(10, 20, -2);
    assert_eq!(clients.key, b"clients".to_vec());
    assert_eq!((clients.min, clients.max, clients.limit, clients.reverse), (10, 20, 2, true));
    assert_eq!(clients.type_key, "client");
    let transactions = Store::get_client_transactions_by_time_range(258, 10, 20, 4);
    assert_eq!(transactions.key, key(&[b"transactions:client:", &id_of(258)]));
    assert_eq!(
        (transactions.min, transactions.max, transactions.limit, transactions.reverse),
        (10, 20, 4, false)
    );
    assert_eq!(transactions.type_key, "transaction");
    assert_eq!(Store::time_microsecond_score(&1_000_444), 1_000_444);
}

#[test]
fn members_that_are_ids_are_looked_up() {
    let inline = Store::serialize(&b"inline".to_vec()).unwrap();
    let members = vec![id_of(1), inline.clone(), id_of(2), id_of(3)];
    let keys = Store::get_by_score_keys(&members, "client");
    assert_eq!(
        keys,
        vec![
            key(&[b"client:", &id_of(1)]),
            key(&[b"client:", &id_of(2)]),
            key(&[b"client:", &id_of(3)]),
        ]
    );
    let found = vec![
        Some(Store::serialize(&b"one".to_vec()).unwrap()),
        None,
        Some(Store::serialize(&b"three".to_vec()).unwrap()),
    ];
    let records = Store::get_by_score_members(&members, &found).unwrap();
    assert_eq!(records, vec![b"one".to_vec(), b"inline".to_vec(), b"three".to_vec()]);
}

#[test]
fn members_keep_the_order_of_the_range() {
    let members = vec![id_of(3), id_of(1), id_of(2)];
    let found: Vec<Option<Vec<u8>>> = [b"c", b"a", b"b"]
        .iter()
        .map(|r| Some(Store::serialize(&r.to_vec()).unwrap()))
        .collect();
    let records = Store::get_by_score_members(&members, &found).unwrap();
    assert_eq!(records, vec![b"c".to_vec(), b"a".to_vec(), b"b".to_vec()]);
    assert!(Store::get_by_score_members(&Vec::new(), &Vec::new()).unwrap().is_empty());
    assert!(Store::get_by_score_keys(&Vec::new(), "client").is_empty());
    // an answer that is too short leaves the last ids out
    let records = Store::get_by_score_members(&members, &found[..1].to_vec()).unwrap();
    assert_eq!(records, vec![b"c".to_vec()]);
}

#[test]
fn a_member_that_cannot_be_read_fails_the_read() {
    let members = vec![id_of(1), b"no frame".to_vec()];
    let found = vec![Some(Store::serialize(&b"one".to_vec()).unwrap())];
    assert!(matches!(Store::get_by_score_members(&members, &found), Err(Error::Other(_))));
    let members = vec![id_of(1)];
    let found = vec![Some(b"no frame".to_vec())];
    assert!(matches!(Store::get_by_score_members(&members, &found), Err(Error::Other(_))));
}

#[test]
fn first_failed_condition_names_the_error() {
    assert!(matches!(
        Conditionals::new().error(),
        Error::Other(message) if message == "unknown conditional failure"
    ));
    let mut c = Conditionals::new();
    c.add(false, Error::UserHandleInUse);
    c.add(true, Error::UserEmailAddressInUse);
    c.add(true, Error::Contention);
    assert!(matches!(c.error(), Error::UserEmailAddressInUse));
    let mut c = Conditionals::new();
    c.add(false, Error::UserHandleInUse);
    assert!(matches!(
        c.error(),
        Error::Other(message) if message == "unknown conditional failure"
    ));
}

#[test]
fn store_errors_describe_themselves() {
    assert_eq!(Error::Contention.to_string(), "contention");
    assert_eq!(Error::UserEmailAddressInUse.to_string(), "user email address in use");
    assert_eq!(Error::UserHandleInUse.to_string(), "user handle in use");
    assert_eq!(
        Error::TranscodingServiceExternalIdUnavailable.to_string(),
        "transcoding service external id unavailable"
    );
    assert_eq!(Error::Other("boom".to_string()).to_string(), "boom");
    assert!(matches!(Error::from(BackendError::AtomicWriteConflict), Error::Contention));
    let io = std::io::Error::new(std::io::ErrorKind::Other, "disk full");
    assert!(matches!(Error::from(io), Error::Other(message) if message == "disk full"));
}

fn in_memory() -> Config {
    Config { in_memory: true, redis_address: None, dynamodb: None }
}

fn table() -> DynamoDBConfig {
    DynamoDBConfig { endpoint: Some("http://127.0.0.1:8000".to_string()), table_name: "ledger".to_string() }
}

#[test]
fn exactly_one_backend_is_to_be_chosen() {
    assert!(in_memory().validate().is_ok());
    let redis = Config { in_memory: false, redis_address: Some("127.0.0.1:6379".to_string()), dynamodb: None };
    assert!(redis.validate().is_ok());
    let dynamo = Config { in_memory: false, redis_address: None, dynamodb: Some(table()) };
    assert!(dynamo.validate().is_ok());

    let none = Config::default();
    let two = Config { in_memory: true, redis_address: Some("x".to_string()), dynamodb: None };
    let other_two = Config { in_memory: false, redis_address: Some("x".to_string()), dynamodb: Some(table()) };
    let all = Config { in_memory: true, redis_address: Some("x".to_string()), dynamodb: Some(table()) };
    for config in [none, two, other_two, all] {
        match config.validate() {
            Err(Error::Other(message)) => {
                assert_eq!(message, "exactly one type of store should be configured")
            }
            other => panic!("{:?}", other),
        }
    }
}

#[test]
fn store_is_made_on_the_backend_that_is_configured() {
    assert!(matches!(Store::new_test_store().backend, Backend::Memory));
    assert!(matches!(Store::new_with_config(&in_memory()).unwrap().backend, Backend::Memory));
    let redis = Config { in_memory: false, redis_address: Some("127.0.0.1:6379".to_string()), dynamodb: None };
    match Store::new_with_config(&redis).unwrap().backend {
        Backend::Redis { url } => assert_eq!(url, "redis://127.0.0.1:6379"),
        other => panic!("{:?}", other),
    }
    let dynamo = Config { in_memory: false, redis_address: None, dynamodb: Some(table()) };
    match Store::new_with_config(&dynamo).unwrap().backend {
        Backend::DynamoDB { endpoint, table_name, allow_eventually_consistent_reads } => {
            assert_eq!(endpoint.as_deref(), Some("http://127.0.0.1:8000"));
            assert_eq!(table_name, "ledger");
            assert!(!allow_eventually_consistent_reads);
        }
        other => panic!("{:?}", other),
    }
    // memory is chosen before the others
    let all = Config { in_memory: true, redis_address: Some("x".to_string()), dynamodb: Some(table()) };
    assert!(matches!(Store::new_with_config(&all).unwrap().backend, Backend::Memory));
    match Store::new_with_config(&Config::default()) {
        Err(Error::Other(message)) => assert_eq!(message, "invalid store config"),
        other => panic!("{:?}", other),
    }
}

#[test]
fn read_cache_wraps_once() {
    let store = Store::new_test_store();
    let cached = store.with_read_cache();
    match &cached.backend {
        Backend::ReadCache(inner) => assert!(matches!(**inner, Backend::Memory)),
        other => panic!("{:?}", other),
    }
    match cached.with_read_cache().backend {
        Backend::ReadCache(inner) => assert!(matches!(*inner, Backend::Memory)),
        other => panic!("{:?}", other),
    }
    assert!(matches!(store.backend, Backend::Memory));
}

#[test]
fn relaxed_reads_reach_the_table_behind_a_cache() {
    let dynamo = Config { in_memory: false, redis_address: None, dynamodb: Some(table()) };
    let store = Store::new_with_config(&dynamo).unwrap();
    match store.with_eventually_consistent_reads().backend {
        Backend::DynamoDB { allow_eventually_consistent_reads, table_name, .. } => {
            assert!(allow_eventually_consistent_reads);
            assert_eq!(table_name, "ledger");
        }
        other => panic!("{:?}", other),
    }
    match store.with_read_cache().with_eventually_consistent_reads().backend {
        Backend::ReadCache(inner) => assert!(matches!(
            *inner,
            Backend::DynamoDB { allow_eventually_consistent_reads: true, .. }
        )),
        other => panic!("{:?}", other),
    }
    assert!(matches!(
        Store::new_test_store().with_eventually_consistent_reads().backend,
        Backend::Memory
    ));
    assert!(matches!(
        store.backend,
        Backend::DynamoDB { allow_eventually_consistent_reads: false, .. }
    ));
}

fn env(vars: &[(&str, &str)]) -> Vec<(String, String)> {
    vars.iter().map(|(k, v)| (k.to_string(), v.to_string())).collect()
}

#[test]
fn environment_is_laid_over_the_configuration() {
    let mut config = Config::default();
    let vars = env(&[
        ("PS_APP_STORE_INMEMORY", "true"),
        ("PS_APP_STORE_REDISADDRESS", "10.0.0.1:6379"),
        ("OTHER", "x"),
        ("PS_APP_STORE_DYNAMODB_TABLENAME", "ledger"),
    ]);
    assert!(config.load_from_env("PS_APP_STORE_", &vars).is_ok());
    assert!(config.in_memory);
    assert_eq!(config.redis_address.as_deref(), Some("10.0.0.1:6379"));
    let table = config.dynamodb.clone().unwrap();
    assert_eq!(table.table_name, "ledger");
    assert_eq!(table.endpoint, None);

    // what the environment does not name stays
    assert!(config.load_from_env("PS_APP_STORE_", &env(&[("PS_APP_STORE_INMEMORY", "yes")])).is_ok());
    assert!(!config.in_memory);
    assert_eq!(config.redis_address.as_deref(), Some("10.0.0.1:6379"));
    assert_eq!(config.dynamodb.unwrap().table_name, "ledger");
}

#[test]
fn table_is_read_from_the_environment() {
    assert!(DynamoDBConfig::load_from_env("P_", &env(&[])).is_none());
    assert!(DynamoDBConfig::load_from_env("P_", &env(&[("P_TABLENAME", "")])).is_none());
    let only_endpoint = DynamoDBConfig::load_from_env("P_", &env(&[("P_ENDPOINT", "http://x")])).unwrap();
    assert_eq!(only_endpoint.table_name, "");
    assert_eq!(only_endpoint.endpoint.as_deref(), Some("http://x"));
    let both = DynamoDBConfig::load_from_env(
        "P_",
        &env(&[("P_ENDPOINT", "http://x"), ("P_TABLENAME", "t"), ("P_TABLENAME", "u")]),
    )
    .unwrap();
    assert_eq!(both.table_name, "t");
}
