use crate::model::client::Client;
use crate::model::clock::{now, Timestamp};
use crate::model::id::{numeric_id, Id};
use crate::model::transaction::Transaction;
use crate::store::atomic_write::{AtomicWriteOperation, WriteOpView};
use crate::store::client::{client_steps, push_client_steps, CLIENT_KEY};
use crate::store::store_key::{
    copy_bytes, entity_key, make_entity_key, make_member_set_key, make_revision_key,
    member_set_key, revision_key, AsKey,
};
use crate::store::error::Result;
use crate::store::{can_be_framed, frame_of, gunzip_stream, RangeRequest, Store};
use vstd::prelude::*;
use vstd::string::*;

verus! {

/// The sorted set of all transaction ids; with a client's key appended, the
/// sorted set of the ids of that client's transactions.
pub const TRANSACTIONS_SET_KEY: &'static str = "transactions";

/// The key space of the current revision of each transaction.
pub const TRANSACTION_KEY: &'static str = "transaction";

/// The key space of every revision of each transaction.
pub const TRANSACTION_REVISION_KEY: &'static str = "transaction_revision";

/// The steps that enter a transaction into the ledger at `listed_at`: its
/// place in the index of all transactions, its record and the record of its
/// revision, both of which must be new, and its place in the index of its
/// client's transactions.
pub open spec fn transaction_steps(
    client_id: u16,
    transaction: Transaction,
    serialized: Seq<u8>,
    listed_at: Timestamp,
) -> Seq<WriteOpView> {
    let tx_id = numeric_id(transaction.tx);
    seq![
        WriteOpView::ZAdd {
            key: TRANSACTIONS_SET_KEY.spec_bytes(),
            member: tx_id,
            score: listed_at,
        },
        WriteOpView::SetNx { key: entity_key(TRANSACTION_KEY, tx_id), value: serialized },
        WriteOpView::SetNx {
            key: revision_key(TRANSACTION_REVISION_KEY, tx_id, transaction.revision_number),
            value: serialized,
        },
        WriteOpView::ZAdd {
            key: member_set_key(
                TRANSACTIONS_SET_KEY,
                CLIENT_KEY,
                numeric_id(client_id as u32),
            ),
            member: tx_id,
            score: listed_at,
        },
    ]
}

/// The whole write of a deposit or a withdrawal: the client's next revision,
/// then the transaction.
pub open spec fn process_transaction_steps(
    client: Client,
    serialized_client: Seq<u8>,
    transaction: Transaction,
    serialized_transaction: Seq<u8>,
    listed_at: Timestamp,
) -> Seq<WriteOpView> {
    client_steps(client, serialized_client, false) + transaction_steps(
        client.id,
        transaction,
        serialized_transaction,
        listed_at,
    )
}

impl Store {
    /// The write that enters the next revision of a client together with the
    /// transaction that led to it, listed at `listed_at`, each stored as its
    /// frame. It is refused if the client has a revision of that number or
    /// the transaction is in the ledger already.
    pub fn write_transaction(
        client: &Client,
        serialized_client: &Vec<u8>,
        transaction: &Transaction,
        serialized_transaction: &Vec<u8>,
        listed_at: Timestamp,
    ) -> (tx: AtomicWriteOperation)
        ensures
            tx@ == process_transaction_steps(
                *client,
                serialized_client@,
                *transaction,
                serialized_transaction@,
                listed_at,
            ),
    {
        let client_id = Id::from_u32(client.id as u32);
        let tx_id = Id::from_u32(transaction.tx);
        let score = Store::time_microsecond_score(&listed_at);

        let mut tx = AtomicWriteOperation::new();
        // the client with its new balances
        push_client_steps(&mut tx, client, serialized_client, false);

        // the transaction: in the set of all, in its client's set, and by itself
        tx.z_add(TRANSACTIONS_SET_KEY.as_key(), tx_id.as_key(), score);
        tx.set_nx(
            make_entity_key(TRANSACTION_KEY, &tx_id),
            copy_bytes(serialized_transaction.as_slice()),
        );
        tx.set_nx(
            make_revision_key(TRANSACTION_REVISION_KEY, &tx_id, transaction.revision_number),
            copy_bytes(serialized_transaction.as_slice()),
        );
        tx.z_add(
            make_member_set_key(TRANSACTIONS_SET_KEY, CLIENT_KEY, &client_id),
            tx_id.as_key(),
            score,
        );
        proof {
            assert(tx@ =~= process_transaction_steps(
                *client,
                serialized_client@,
                *transaction,
                serialized_transaction@,
                listed_at,
            ));
        }
        tx
    }

    /// The write that enters the next revision of a client together with the
    /// transaction that led to it, listed at `listed_at`, where
    /// `encoded_client` and `encoded_transaction` are their encoded records.
    /// It fails exactly where one of the records cannot be framed.
    pub fn process_transaction_at(
        client: &Client,
        encoded_client: &Vec<u8>,
        transaction: &Transaction,
        encoded_transaction: &Vec<u8>,
        listed_at: Timestamp,
    ) -> (r: Result<AtomicWriteOperation>)
        ensures
            match r {
                Ok(tx) => {
                    &&& can_be_framed(encoded_client@)
                    &&& can_be_framed(encoded_transaction@)
                    &&& tx@ == process_transaction_steps(
                        *client,
                        frame_of(encoded_client@),
                        *transaction,
                        frame_of(encoded_transaction@),
                        listed_at,
                    )
                    &&& gunzip_stream(frame_of(encoded_client@)) == Some(encoded_client@)
                    &&& gunzip_stream(frame_of(encoded_transaction@)) == Some(
                        encoded_transaction@,
                    )
                },
                Err(e) => {
                    &&& !can_be_framed(encoded_client@) || !can_be_framed(encoded_transaction@)
                    &&& e@ is Other
                },
            },
    {
        let serialized_client = match Store::serialize(encoded_client) {
            Ok(frame) => frame,
            Err(e) => {
                return Err(e);
            },
        };
        let serialized_transaction = match Store::serialize(encoded_transaction) {
            Ok(frame) => frame,
            Err(e) => {
                return Err(e);
            },
        };
        Ok(
            Store::write_transaction(
                client,
                &serialized_client,
                transaction,
                &serialized_transaction,
                listed_at,
            ),
        )
    }

    /// The write that enters the next revision of a client together with the
    /// transaction that led to it, listed at the current time.
    pub fn process_transaction(
        client: &Client,
        encoded_client: &Vec<u8>,
        transaction: &Transaction,
        encoded_transaction: &Vec<u8>,
    ) -> (r: Result<AtomicWriteOperation>)
        ensures
            match r {
                Ok(tx) => {
                    &&& can_be_framed(encoded_client@)
                    &&& can_be_framed(encoded_transaction@)
                    &&& exists|listed_at: Timestamp|
                        tx@ == process_transaction_steps(
                            *client,
                            frame_of(encoded_client@),
                            *transaction,
                            frame_of(encoded_transaction@),
                            listed_at,
                        )
                    &&& gunzip_stream(frame_of(encoded_client@)) == Some(encoded_client@)
                    &&& gunzip_stream(frame_of(encoded_transaction@)) == Some(
                        encoded_transaction@,
                    )
                },
                Err(e) => {
                    &&& !can_be_framed(encoded_client@) || !can_be_framed(encoded_transaction@)
                    &&& e@ is Other
                },
            },
    {
        Store::process_transaction_at(
            client,
            encoded_client,
            transaction,
            encoded_transaction,
            now(),
        )
    }

    /// The key under which the transaction `tx_id` is kept.
    pub fn get_transaction_by_id(tx_id: u32) -> (key: Vec<u8>)
        ensures
            key@ == entity_key(TRANSACTION_KEY, numeric_id(tx_id)),
    {
        let id = Id::from_u32(tx_id);
        make_entity_key(TRANSACTION_KEY, &id)
    }

    /// The read of the transactions of the client `client_id` that were
    /// listed between two times, both included. A negative `limit` asks for
    /// the last of them, latest first; a positive one for the first, earliest
    /// first; zero for all.
    pub fn get_client_transactions_by_time_range(
        client_id: u32,
        min: Timestamp,
        max: Timestamp,
        limit: i32,
    ) -> (r: RangeRequest)
        ensures
            r.key@ == member_set_key(TRANSACTIONS_SET_KEY, CLIENT_KEY, numeric_id(client_id)),
            r.min == min,
            r.max == max,
            r.reverse == (limit < 0),
            r.limit as int == (if limit < 0 {
                -(limit as int)
            } else {
                limit as int
            }),
            r.type_key == TRANSACTION_KEY,
    {
        let id = Id::from_u32(client_id);
        Store::get_by_time_range(
            make_member_set_key(TRANSACTIONS_SET_KEY, CLIENT_KEY, &id),
            min,
            max,
            limit,
            TRANSACTION_KEY,
        )
    }
}

} // verus!
