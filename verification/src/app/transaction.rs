use crate::app::session::Session;
use crate::app::{distant_future, distant_past};
use crate::model::id::numeric_id;
use crate::store::client::CLIENT_KEY;
use crate::store::store_key::{entity_key, member_set_key};
use crate::store::transaction::{TRANSACTIONS_SET_KEY, TRANSACTION_KEY};
use crate::store::{RangeRequest, Store};
use vstd::prelude::*;

verus! {

impl Session<'_> {
    /// The key to read for the transaction `id`.
    pub fn get_transaction_by_id(&self, id: u32) -> (key: Vec<u8>)
        ensures
            key@ == entity_key(TRANSACTION_KEY, numeric_id(id)),
    {
        Store::get_transaction_by_id(id)
    }

    /// The read of all transactions of the client `client_id`, in the order
    /// in which they were listed.
    pub fn get_all_client_transactions(&self, client_id: u16) -> (r: RangeRequest)
        ensures
            r.key@ == member_set_key(
                TRANSACTIONS_SET_KEY,
                CLIENT_KEY,
                numeric_id(client_id as u32),
            ),
            r.min == -2208988800 * 1_000_000,
            r.max == 7258118400 * 1_000_000,
            !r.reverse,
            r.limit == 0,
            r.type_key == TRANSACTION_KEY,
    {
        Store::get_client_transactions_by_time_range(
            client_id as u32,
            distant_past(),
            distant_future(),
            0,
        )
    }
}

} // verus!
