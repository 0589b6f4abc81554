use crate::model::client::Client;
use crate::model::clock::Timestamp;
use crate::model::id::{numeric_id, Id};
use crate::store::atomic_write::{AtomicWriteOperation, WriteOpView};
use crate::store::error::Result;
use crate::store::store_key::{
    copy_bytes, entity_key, make_entity_key, make_revision_key, revision_key, AsKey,
};
use crate::store::{can_be_framed, frame_of, gunzip_stream, RangeRequest, Store};
use vstd::prelude::*;
use vstd::string::*;

verus! {

/// The sorted set of all client ids, scored by revision time.
pub const CLIENTS_SET_KEY: &'static str = "clients";

/// The key space of the current revision of each client.
pub const CLIENT_KEY: &'static str = "client";

/// The key space of every revision of each client.
pub const CLIENT_REVISION_KEY: &'static str = "client_revision";

/// The steps that make a client revision the current one: its place in the
/// index of clients, the current record (overwritten, or required to be new
/// where `create` is set), and the record of this revision, which must be new.
pub open spec fn client_steps(client: Client, serialized: Seq<u8>, create: bool) -> Seq<
    WriteOpView,
> {
    let id = numeric_id(client.id as u32);
    seq![
        WriteOpView::ZAdd {
            key: CLIENTS_SET_KEY.spec_bytes(),
            member: id,
            score: client.revision_time,
        },
        if create {
            WriteOpView::SetNx { key: entity_key(CLIENT_KEY, id), value: serialized }
        } else {
            WriteOpView::SetKey { key: entity_key(CLIENT_KEY, id), value: serialized }
        },
        WriteOpView::SetNx {
            key: revision_key(CLIENT_REVISION_KEY, id, client.revision_number),
            value: serialized,
        },
    ]
}

/// Adds the steps of `client_steps` to `tx`.
pub(crate) fn push_client_steps(
    tx: &mut AtomicWriteOperation,
    client: &Client,
    serialized: &Vec<u8>,
    create: bool,
)
    ensures
        final(tx)@ == old(tx)@ + client_steps(*client, serialized@, create),
{
    let id = Id::from_u32(client.id as u32);
    tx.z_add(
        CLIENTS_SET_KEY.as_key(),
        id.as_key(),
        Store::time_microsecond_score(&client.revision_time),
    );
    if create {
        tx.set_nx(make_entity_key(CLIENT_KEY, &id), copy_bytes(serialized.as_slice()));
    } else {
        tx.set(make_entity_key(CLIENT_KEY, &id), copy_bytes(serialized.as_slice()));
    }
    tx.set_nx(
        make_revision_key(CLIENT_REVISION_KEY, &id, client.revision_number),
        copy_bytes(serialized.as_slice()),
    );
    proof {
        assert(tx@ =~= old(tx)@ + client_steps(*client, serialized@, create));
    }
}

impl Store {
    /// The write that makes the revision `client`, stored as `frame`, the
    /// current one of its client. Where `create` is set the client must be
    /// new; in either case the revision must be.
    pub fn write_client(client: &Client, frame: &Vec<u8>, create: bool) -> (tx:
        AtomicWriteOperation)
        ensures
            tx@ == client_steps(*client, frame@, create),
    {
        let mut tx = AtomicWriteOperation::new();
        push_client_steps(&mut tx, client, frame, create);
        proof {
            assert(tx@ =~= client_steps(*client, frame@, create));
        }
        tx
    }

    /// The write that enters a new client, whose encoded record is
    /// `encoded`: it is refused if the client exists. What is stored is the
    /// frame of the record, from which `deserialize` reads it back. It fails
    /// exactly where the record cannot be framed.
    pub fn add_client(client: &Client, encoded: &Vec<u8>) -> (r: Result<AtomicWriteOperation>)
        ensures
            match r {
                Ok(tx) => can_be_framed(encoded@) && tx@ == client_steps(
                    *client,
                    frame_of(encoded@),
                    true,
                ) && gunzip_stream(frame_of(encoded@)) == Some(encoded@),
                Err(e) => !can_be_framed(encoded@) && e@ is Other,
            },
    {
        match Store::serialize(encoded) {
            Ok(serialized) => Ok(Store::write_client(client, &serialized, true)),
            Err(e) => Err(e),
        }
    }

    /// The write that enters the next revision of a client, whose encoded
    /// record is `encoded`: it is refused if a revision of that number
    /// exists. It fails exactly where the record cannot be framed.
    pub fn add_client_revision(client: &Client, encoded: &Vec<u8>) -> (r: Result<
        AtomicWriteOperation,
    >)
        ensures
            match r {
                Ok(tx) => can_be_framed(encoded@) && tx@ == client_steps(
                    *client,
                    frame_of(encoded@),
                    false,
                ) && gunzip_stream(frame_of(encoded@)) == Some(encoded@),
                Err(e) => !can_be_framed(encoded@) && e@ is Other,
            },
    {
        match Store::serialize(encoded) {
            Ok(serialized) => Ok(Store::write_client(client, &serialized, false)),
            Err(e) => Err(e),
        }
    }

    /// The read of the clients that were last revised between two times,
    /// both included. A negative `limit` asks for the last of them, latest
    /// first; a positive one for the first, earliest first; zero for all.
    pub fn get_clients_by_time_range(min: Timestamp, max: Timestamp, limit: i32) -> (r:
        RangeRequest)
        ensures
            r.key@ == CLIENTS_SET_KEY.spec_bytes(),
            r.min == min,
            r.max == max,
            r.reverse == (limit < 0),
            r.limit as int == (if limit < 0 {
                -(limit as int)
            } else {
                limit as int
            }),
            r.type_key == CLIENT_KEY,
    {
        Store::get_by_time_range(CLIENTS_SET_KEY.as_key(), min, max, limit, CLIENT_KEY)
    }

    /// The key under which the current revision of the client `client_id` is
    /// kept.
    pub fn get_client_by_id(client_id: u16) -> (key: Vec<u8>)
        ensures
            key@ == entity_key(CLIENT_KEY, numeric_id(client_id as u32)),
    {
        let id = Id::from_u32(client_id as u32);
        make_entity_key(CLIENT_KEY, &id)
    }
}

} // verus!
