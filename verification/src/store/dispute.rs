use crate::model::client::Client;
use crate::model::dispute::{Dispute, DisputeView};
use crate::model::id::{numeric_id, Id};
use crate::store::atomic_write::{AtomicWriteOperation, WriteOpView};
use crate::store::client::{client_steps, push_client_steps};
use crate::store::store_key::{
    copy_bytes, entity_key, make_entity_key, make_revision_key, revision_key, AsKey,
};
use crate::store::error::Result;
use crate::store::{can_be_framed, frame_of, gunzip_stream, Store};
use vstd::prelude::*;
use vstd::string::*;

verus! {

/// The key space of the current revision of each dispute.
pub const DISPUTE_KEY: &'static str = "dispute";

/// The key space of every revision of each dispute.
pub const DISPUTE_REVISION_KEY: &'static str = "dispute_revision";

/// The key space that leads from a transaction to the dispute against it.
pub const REFERENCE_TX_DISPUTE_KEY: &'static str = "reference_tx_dispute";

/// With a client's id appended, the sorted set of the ids of that client's
/// open disputes.
pub const CLIENT_DISPUTES_SET_KEY: &'static str = "client_disputes";

/// The key of the sorted set of the open disputes of the client `id`.
pub open spec fn client_disputes_key(id: Seq<u8>) -> Seq<u8> {
    entity_key(CLIENT_DISPUTES_SET_KEY, id)
}

/// The steps that open a dispute: its record, the record of its revision and
/// the entry that leads to it from the disputed transaction, all of which must
/// be new, and its place in the index of its client's disputes.
pub open spec fn open_dispute_steps(
    client_id: u16,
    dispute: DisputeView,
    serialized: Seq<u8>,
) -> Seq<WriteOpView> {
    seq![
        WriteOpView::SetNx { key: entity_key(DISPUTE_KEY, dispute.id), value: serialized },
        WriteOpView::SetNx {
            key: revision_key(DISPUTE_REVISION_KEY, dispute.id, dispute.revision_number),
            value: serialized,
        },
        WriteOpView::SetNx {
            key: entity_key(REFERENCE_TX_DISPUTE_KEY, numeric_id(dispute.referenced_tx.tx)),
            value: serialized,
        },
        WriteOpView::ZAdd {
            key: client_disputes_key(numeric_id(client_id as u32)),
            member: dispute.id,
            score: dispute.revision_time,
        },
    ]
}

/// The steps that close a dispute with its next revision: its record and the
/// entry that leads to it from the disputed transaction are overwritten, the
/// record of the revision must be new, and it leaves the index of its
/// client's disputes.
pub open spec fn close_dispute_steps(
    client_id: u16,
    dispute: DisputeView,
    serialized: Seq<u8>,
) -> Seq<WriteOpView> {
    seq![
        WriteOpView::SetKey { key: entity_key(DISPUTE_KEY, dispute.id), value: serialized },
        WriteOpView::SetNx {
            key: revision_key(DISPUTE_REVISION_KEY, dispute.id, dispute.revision_number),
            value: serialized,
        },
        WriteOpView::SetKey {
            key: entity_key(REFERENCE_TX_DISPUTE_KEY, numeric_id(dispute.referenced_tx.tx)),
            value: serialized,
        },
        WriteOpView::ZRem {
            key: client_disputes_key(numeric_id(client_id as u32)),
            member: dispute.id,
        },
    ]
}

/// The whole write of a dispute: the client's next revision, then the dispute.
pub open spec fn process_dispute_steps(
    client: Client,
    serialized_client: Seq<u8>,
    dispute: DisputeView,
    serialized: Seq<u8>,
) -> Seq<WriteOpView> {
    client_steps(client, serialized_client, false) + open_dispute_steps(
        client.id,
        dispute,
        serialized,
    )
}

/// The whole write of a resolve or a chargeback: the client's next revision,
/// then the closed dispute.
pub open spec fn remove_dispute_steps(
    client: Client,
    serialized_client: Seq<u8>,
    dispute: DisputeView,
    serialized: Seq<u8>,
) -> Seq<WriteOpView> {
    client_steps(client, serialized_client, false) + close_dispute_steps(
        client.id,
        dispute,
        serialized,
    )
}

impl Store {
    /// The write that opens a dispute and enters the next revision of its
    /// client, each stored as its frame. It is refused if the client has a
    /// revision of that number, or if the transaction has, or ever had, a
    /// dispute against it.
    pub fn write_dispute(
        client: &Client,
        serialized_client: &Vec<u8>,
        dispute: &Dispute,
        serialized: &Vec<u8>,
    ) -> (tx: AtomicWriteOperation)
        ensures
            tx@ == process_dispute_steps(*client, serialized_client@, dispute@, serialized@),
    {
        let reference_tx_id = Id::from_u32(dispute.referenced_tx.tx);
        let client_id = Id::from_u32(client.id as u32);

        let mut tx = AtomicWriteOperation::new();
        // the client with its new available and held funds
        push_client_steps(&mut tx, client, serialized_client, false);

        // the dispute
        tx.set_nx(make_entity_key(DISPUTE_KEY, &dispute.id), copy_bytes(serialized.as_slice()));
        tx.set_nx(
            make_revision_key(DISPUTE_REVISION_KEY, &dispute.id, dispute.revision_number),
            copy_bytes(serialized.as_slice()),
        );
        tx.set_nx(
            make_entity_key(REFERENCE_TX_DISPUTE_KEY, &reference_tx_id),
            copy_bytes(serialized.as_slice()),
        );
        tx.z_add(
            make_entity_key(CLIENT_DISPUTES_SET_KEY, &client_id),
            dispute.id.as_key(),
            Store::time_microsecond_score(&dispute.revision_time),
        );
        proof {
            assert(tx@ =~= process_dispute_steps(
                *client,
                serialized_client@,
                dispute@,
                serialized@,
            ));
        }
        tx
    }

    /// The write that closes a dispute with its next revision and enters the
    /// next revision of its client, each stored as its frame. It is refused
    /// if either revision exists.
    pub fn write_closed_dispute(
        client: &Client,
        serialized_client: &Vec<u8>,
        dispute: &Dispute,
        serialized: &Vec<u8>,
    ) -> (tx: AtomicWriteOperation)
        ensures
            tx@ == remove_dispute_steps(*client, serialized_client@, dispute@, serialized@),
    {
        let reference_tx_id = Id::from_u32(dispute.referenced_tx.tx);
        let client_id = Id::from_u32(client.id as u32);

        let mut tx = AtomicWriteOperation::new();
        // the client with its new available and held funds
        push_client_steps(&mut tx, client, serialized_client, false);

        // the dispute, closed
        tx.set(make_entity_key(DISPUTE_KEY, &dispute.id), copy_bytes(serialized.as_slice()));
        tx.set_nx(
            make_revision_key(DISPUTE_REVISION_KEY, &dispute.id, dispute.revision_number),
            copy_bytes(serialized.as_slice()),
        );
        tx.set(
            make_entity_key(REFERENCE_TX_DISPUTE_KEY, &reference_tx_id),
            copy_bytes(serialized.as_slice()),
        );
        tx.z_rem(make_entity_key(CLIENT_DISPUTES_SET_KEY, &client_id), dispute.id.as_key());
        proof {
            assert(tx@ =~= remove_dispute_steps(
                *client,
                serialized_client@,
                dispute@,
                serialized@,
            ));
        }
        tx
    }

    /// The write that opens a dispute and moves the disputed funds of its
    /// client, where `encoded_client` and `encoded` are the encoded records
    /// of the client's next revision and of the dispute. It fails exactly
    /// where one of the records cannot be framed.
    pub fn process_dispute(
        client: &Client,
        encoded_client: &Vec<u8>,
        dispute: &Dispute,
        encoded: &Vec<u8>,
    ) -> (r: Result<AtomicWriteOperation>)
        ensures
            match r {
                Ok(tx) => {
                    &&& can_be_framed(encoded_client@)
                    &&& can_be_framed(encoded@)
                    &&& tx@ == process_dispute_steps(
                        *client,
                        frame_of(encoded_client@),
                        dispute@,
                        frame_of(encoded@),
                    )
                    &&& gunzip_stream(frame_of(encoded_client@)) == Some(encoded_client@)
                    &&& gunzip_stream(frame_of(encoded@)) == Some(encoded@)
                },
                Err(e) => {
                    &&& !can_be_framed(encoded_client@) || !can_be_framed(encoded@)
                    &&& e@ is Other
                },
            },
    {
        let serialized = match Store::serialize(encoded) {
            Ok(frame) => frame,
            Err(e) => {
                return Err(e);
            },
        };
        let serialized_client = match Store::serialize(encoded_client) {
            Ok(frame) => frame,
            Err(e) => {
                return Err(e);
            },
        };
        Ok(Store::write_dispute(client, &serialized_client, dispute, &serialized))
    }

    /// The write that closes a dispute and moves the disputed funds of its
    /// client, where `encoded_client` and `encoded` are the encoded records
    /// of the next revisions of the client and of the dispute. It fails
    /// exactly where one of the records cannot be framed.
    pub fn remove_dispute(
        client: &Client,
        encoded_client: &Vec<u8>,
        dispute: &Dispute,
        encoded: &Vec<u8>,
    ) -> (r: Result<AtomicWriteOperation>)
        ensures
            match r {
                Ok(tx) => {
                    &&& can_be_framed(encoded_client@)
                    &&& can_be_framed(encoded@)
                    &&& tx@ == remove_dispute_steps(
                        *client,
                        frame_of(encoded_client@),
                        dispute@,
                        frame_of(encoded@),
                    )
                    &&& gunzip_stream(frame_of(encoded_client@)) == Some(encoded_client@)
                    &&& gunzip_stream(frame_of(encoded@)) == Some(encoded@)
                },
                Err(e) => {
                    &&& !can_be_framed(encoded_client@) || !can_be_framed(encoded@)
                    &&& e@ is Other
                },
            },
    {
        let serialized = match Store::serialize(encoded) {
            Ok(frame) => frame,
            Err(e) => {
                return Err(e);
            },
        };
        let serialized_client = match Store::serialize(encoded_client) {
            Ok(frame) => frame,
            Err(e) => {
                return Err(e);
            },
        };
        Ok(Store::write_closed_dispute(client, &serialized_client, dispute, &serialized))
    }

    /// The key under which the dispute against the transaction `tx_id` is
    /// found.
    pub fn get_dispute_by_reference_tx_id(tx_id: u32) -> (key: Vec<u8>)
        ensures
            key@ == entity_key(REFERENCE_TX_DISPUTE_KEY, numeric_id(tx_id)),
    {
        let id = Id::from_u32(tx_id);
        make_entity_key(REFERENCE_TX_DISPUTE_KEY, &id)
    }
}

} // verus!
