use crate::model::clock::{now, Timestamp};
use crate::model::id::{Id, ID_LENGTH};
use crate::model::transaction::Transaction;
use vstd::prelude::*;

verus! {

/// An open or closed dispute against one stored transaction. A dispute that
/// was resolved or charged back stays, marked as deleted.
#[derive(Debug)]
pub struct Dispute {
    pub id: Id,
    pub referenced_tx: Transaction,
    pub is_deleted: bool,
    pub creation_time: Timestamp,
    pub revision_number: u32,
    pub revision_time: Timestamp,
}

/// What a dispute holds.
pub struct DisputeView {
    pub id: Seq<u8>,
    pub referenced_tx: Transaction,
    pub is_deleted: bool,
    pub creation_time: Timestamp,
    pub revision_number: u32,
    pub revision_time: Timestamp,
}

impl View for Dispute {
    type V = DisputeView;

    open spec fn view(&self) -> DisputeView {
        DisputeView {
            id: self.id@,
            referenced_tx: self.referenced_tx,
            is_deleted: self.is_deleted,
            creation_time: self.creation_time,
            revision_number: self.revision_number,
            revision_time: self.revision_time,
        }
    }
}

impl DisputeView {
    /// The first revision of a dispute against `referenced_tx`, opened at `now`.
    pub open spec fn opened(
        referenced_tx: Transaction,
        id: Seq<u8>,
        now: Timestamp,
    ) -> DisputeView {
        DisputeView {
            id,
            referenced_tx,
            is_deleted: false,
            creation_time: now,
            revision_number: 1,
            revision_time: now,
        }
    }

    /// The revision that follows `self`, made at `now`.
    pub open spec fn patched(self, is_deleted: bool, now: Timestamp) -> DisputeView {
        DisputeView {
            id: self.id,
            referenced_tx: self.referenced_tx,
            is_deleted,
            creation_time: self.creation_time,
            revision_number: (self.revision_number + 1) as u32,
            revision_time: now,
        }
    }
}

impl Dispute {
    /// A dispute against `referenced_tx` under the id `id`, opened at `now`.
    pub fn new_at(referenced_tx: Transaction, id: Id, now: Timestamp) -> (d: Dispute)
        ensures
            d@ == DisputeView::opened(referenced_tx, id@, now),
    {
        Dispute {
            id,
            referenced_tx,
            is_deleted: false,
            creation_time: now,
            revision_number: 1,
            revision_time: now,
        }
    }

    /// A dispute against `referenced_tx` under a fresh random id, opened now.
    pub fn new(referenced_tx: Transaction) -> (d: Dispute)
        ensures
            d@ == DisputeView::opened(referenced_tx, d@.id, d@.creation_time),
            d@.id.len() == ID_LENGTH,
    {
        let t = now();
        Dispute::new_at(referenced_tx, Id::generate(), t)
    }

    /// The next revision of the dispute, stamped with `now`.
    pub fn with_patch_at(self, is_deleted: bool, now: Timestamp) -> (d: Dispute)
        requires
            self.revision_number < u32::MAX,
        ensures
            d@ == self@.patched(is_deleted, now),
            d.revision_number == self.revision_number + 1,
    {
        Dispute {
            id: self.id,
            referenced_tx: self.referenced_tx,
            is_deleted,
            creation_time: self.creation_time,
            revision_number: self.revision_number + 1,
            revision_time: now,
        }
    }

    /// The next revision of the dispute, stamped with the current time.
    pub fn with_patch(self, is_deleted: bool) -> (d: Dispute)
        requires
            self.revision_number < u32::MAX,
        ensures
            d@ == self@.patched(is_deleted, d@.revision_time),
            d.revision_number == self.revision_number + 1,
    {
        self.with_patch_at(is_deleted, now())
    }
}

impl Clone for Dispute {
    fn clone(&self) -> (d: Dispute)
        ensures
            d@ == self@,
    {
        Dispute {
            id: self.id.clone(),
            referenced_tx: self.referenced_tx,
            is_deleted: self.is_deleted,
            creation_time: self.creation_time,
            revision_number: self.revision_number,
            revision_time: self.revision_time,
        }
    }
}

} // verus!
