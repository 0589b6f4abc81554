use crate::app::session::Session;
use crate::model::id::numeric_id;
use crate::store::dispute::REFERENCE_TX_DISPUTE_KEY;
use crate::store::store_key::entity_key;
use crate::store::Store;
use vstd::prelude::*;

verus! {

impl Session<'_> {
    /// The key to read for the dispute against the transaction `id`.
    pub fn get_dispute_by_reference_tx_id(&self, id: u32) -> (key: Vec<u8>)
        ensures
            key@ == entity_key(REFERENCE_TX_DISPUTE_KEY, numeric_id(id)),
    {
        Store::get_dispute_by_reference_tx_id(id)
    }
}

} // verus!
