use crate::app::session::Session;
use crate::app::{distant_future, distant_past};
use crate::model::client::Client;
use crate::model::clock::Timestamp;
use crate::model::id::numeric_id;
use crate::store::atomic_write::AtomicWriteOperation;
use crate::store::client::{client_steps, CLIENTS_SET_KEY, CLIENT_KEY};
use crate::store::store_key::entity_key;
use crate::store;
use crate::store::{can_be_framed, frame_of, gunzip_stream, RangeRequest, Store};
use vstd::prelude::*;
use vstd::string::*;

verus! {

impl Session<'_> {
    /// The read of the clients that were last revised between two times.
    pub fn get_clients_by_time_range(
        &self,
        min_time: Timestamp,
        max_time: Timestamp,
        limit: i32,
    ) -> (r: RangeRequest)
        ensures
            r.key@ == CLIENTS_SET_KEY.spec_bytes(),
            r.min == min_time,
            r.max == max_time,
            r.reverse == (limit < 0),
            r.limit as int == (if limit < 0 {
                -(limit as int)
            } else {
                limit as int
            }),
            r.type_key == CLIENT_KEY,
    {
        Store::get_clients_by_time_range(min_time, max_time, limit)
    }

    /// The key to read for the client `id`.
    pub fn get_client_by_id(&self, id: u16) -> (key: Vec<u8>)
        ensures
            key@ == entity_key(CLIENT_KEY, numeric_id(id as u32)),
    {
        Store::get_client_by_id(id)
    }

    /// The read of all clients, in the order in which they were last revised.
    pub fn get_all_clients(&self) -> (r: RangeRequest)
        ensures
            r.key@ == CLIENTS_SET_KEY.spec_bytes(),
            r.min == -2208988800 * 1_000_000,
            r.max == 7258118400 * 1_000_000,
            !r.reverse,
            r.limit == 0,
            r.type_key == CLIENT_KEY,
    {
        self.get_clients_by_time_range(distant_past(), distant_future(), 0)
    }

    /// The write that enters a new client, whose encoded record is
    /// `encoded`.
    pub fn add_client(&self, client: &Client, encoded: &Vec<u8>) -> (r: store::Result<
        AtomicWriteOperation,
    >)
        ensures
            match r {
                Ok(tx) => can_be_framed(encoded@) && tx@ == client_steps(
                    *client,
                    frame_of(encoded@),
                    true,
                ) && gunzip_stream(frame_of(encoded@)) == Some(encoded@),
                Err(e) => !can_be_framed(encoded@) && e@ is Other,
            },
    {
        Store::add_client(client, encoded)
    }
}

} // verus!
