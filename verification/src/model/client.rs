use crate::model::clock::{now, Timestamp};
use vstd::prelude::*;

verus! {

/// An amount of money in ten-thousandths of a unit.
pub type Amount = i64;

/// How many steps of an `Amount` make one unit.
pub const AMOUNT_SCALE: i64 = 10_000;

/// Whether `v` can be held in an `Amount`.
pub open spec fn is_amount(v: int) -> bool {
    i64::MIN <= v <= i64::MAX
}

/// The account of one payer.
#[derive(Debug, Clone, Copy, PartialEq, Eq, Structural)]
pub struct Client {
    pub id: u16,
    pub available: Amount,
    pub held: Amount,
    pub total: Amount,
    pub locked: bool,
    pub creation_time: Timestamp,
    pub revision_number: u32,
    pub revision_time: Timestamp,
}

/// One row of the account report.
#[derive(Debug, Clone, Copy, PartialEq, Eq, PartialOrd, Ord, Structural)]
pub struct CSVClient {
    pub client: u16,
    pub available: Amount,
    pub held: Amount,
    pub total: Amount,
    pub locked: bool,
}

/// The fields of a client that a new revision may replace. `None` keeps the
/// field as it is.
#[derive(Debug, Clone, Copy, PartialEq, Eq, Structural)]
pub struct ClientPatch {
    pub available: Option<Amount>,
    pub held: Option<Amount>,
    pub locked: Option<bool>,
}

impl Default for Client {
    fn default() -> (c: Client)
        ensures
            c == (Client {
                id: 0,
                available: 0,
                held: 0,
                total: 0,
                locked: false,
                creation_time: 0,
                revision_number: 0,
                revision_time: 0,
            }),
    {
        Client {
            id: 0,
            available: 0,
            held: 0,
            total: 0,
            locked: false,
            creation_time: 0,
            revision_number: 0,
            revision_time: 0,
        }
    }
}

impl Default for CSVClient {
    fn default() -> (c: CSVClient)
        ensures
            c == (CSVClient { client: 0, available: 0, held: 0, total: 0, locked: false }),
    {
        CSVClient { client: 0, available: 0, held: 0, total: 0, locked: false }
    }
}

impl Default for ClientPatch {
    fn default() -> (p: ClientPatch)
        ensures
            p == (ClientPatch { available: None, held: None, locked: None }),
    {
        ClientPatch { available: None, held: None, locked: None }
    }
}

impl CSVClient {
    /// The row of the account report for a client.
    pub open spec fn row(c: Client) -> CSVClient {
        CSVClient {
            client: c.id,
            available: c.available,
            held: c.held,
            total: c.total,
            locked: c.locked,
        }
    }
}

impl From<Client> for CSVClient {
    fn from(c: Client) -> (row: CSVClient) {
        CSVClient {
            client: c.id,
            available: c.available,
            held: c.held,
            total: c.total,
            locked: c.locked,
        }
    }
}

impl vstd::std_specs::convert::FromSpecImpl<Client> for CSVClient {
    open spec fn obeys_from_spec() -> bool {
        true
    }

    open spec fn from_spec(c: Client) -> CSVClient {
        CSVClient::row(c)
    }
}

impl ClientPatch {
    /// The available funds of `c` once the patch is applied.
    pub open spec fn available_of(self, c: Client) -> Amount {
        match self.available {
            Some(v) => v,
            None => c.available,
        }
    }

    /// The held funds of `c` once the patch is applied.
    pub open spec fn held_of(self, c: Client) -> Amount {
        match self.held {
            Some(v) => v,
            None => c.held,
        }
    }

    /// Whether `c` is locked once the patch is applied.
    pub open spec fn locked_of(self, c: Client) -> bool {
        match self.locked {
            Some(v) => v,
            None => c.locked,
        }
    }

    /// Whether the patched balances of `c` still add up within an `Amount`.
    pub open spec fn fits(self, c: Client) -> bool {
        is_amount(self.available_of(c) + self.held_of(c))
    }
}

impl Client {
    /// The total is what is available and what is held, together.
    pub open spec fn well_formed(self) -> bool {
        self.total == self.available + self.held
    }

    /// The first revision of the client `id`, made at `now`.
    pub open spec fn created(id: u16, available: Option<Amount>, now: Timestamp) -> Client {
        let funds = match available {
            Some(v) => v,
            None => 0,
        };
        Client {
            id,
            available: funds,
            held: 0,
            total: funds,
            locked: false,
            creation_time: now,
            revision_number: 1,
            revision_time: now,
        }
    }

    /// The revision that follows `self` when `p` is applied at `now`.
    pub open spec fn patched(self, p: ClientPatch, now: Timestamp) -> Client {
        Client {
            id: self.id,
            available: p.available_of(self),
            held: p.held_of(self),
            total: (p.available_of(self) + p.held_of(self)) as Amount,
            locked: p.locked_of(self),
            creation_time: self.creation_time,
            revision_number: (self.revision_number + 1) as u32,
            revision_time: now,
        }
    }

    /// A new client, first revision, created at `now`.
    pub fn new_at(id: u16, available: Option<Amount>, now: Timestamp) -> (c: Client)
        ensures
            c == Client::created(id, available, now),
            c.well_formed(),
            c.revision_number == 1,
            !c.locked,
    {
        let funds: Amount = match available {
            Some(v) => v,
            None => 0,
        };
        Client {
            id,
            available: funds,
            held: 0,
            total: funds,
            locked: false,
            creation_time: now,
            revision_number: 1,
            revision_time: now,
        }
    }

    /// A new client, first revision, created now.
    pub fn new(id: u16, available: Option<Amount>) -> (c: Client)
        ensures
            c == Client::created(id, available, c.creation_time),
            c.well_formed(),
    {
        Client::new_at(id, available, now())
    }

    /// The next revision of the client: the patch applied, the revision
    /// number one higher, the total recomputed, stamped with `now`.
    pub fn with_patch_at(self, p: ClientPatch, now: Timestamp) -> (c: Client)
        requires
            self.revision_number < u32::MAX,
            p.fits(self),
        ensures
            c == self.patched(p, now),
            c.well_formed(),
            c.revision_number == self.revision_number + 1,
    {
        let available: Amount = match p.available {
            Some(v) => v,
            None => self.available,
        };
        let held: Amount = match p.held {
            Some(v) => v,
            None => self.held,
        };
        let locked = match p.locked {
            Some(v) => v,
            None => self.locked,
        };
        Client {
            id: self.id,
            available,
            held,
            total: available + held,
            locked,
            creation_time: self.creation_time,
            revision_number: self.revision_number + 1,
            revision_time: now,
        }
    }

    /// The next revision of the client, stamped with the current time.
    pub fn with_patch(self, p: ClientPatch) -> (c: Client)
        requires
            self.revision_number < u32::MAX,
            p.fits(self),
        ensures
            c == self.patched(p, c.revision_time),
            c.well_formed(),
            c.revision_number == self.revision_number + 1,
    {
        self.with_patch_at(p, now())
    }
}

/// The total of a new client, and of every revision that a patch leads to,
/// is what is available and what is held, whatever the total was before. A
/// balance that the patch does not name stays.
pub proof fn lemma_total_is_available_and_held(
    client: Client,
    p: ClientPatch,
    id: u16,
    available: Option<Amount>,
    now: Timestamp,
)
    requires
        p.fits(client),
    ensures
        Client::created(id, available, now).well_formed(),
        client.patched(p, now).well_formed(),
        client.patched(p, now).available == (match p.available {
            Some(v) => v,
            None => client.available,
        }),
        client.patched(p, now).held == (match p.held {
            Some(v) => v,
            None => client.held,
        }),
{
}

/// The first revision of a client has the number 1, and every revision that
/// a patch leads to has the number one above that of the revision before, is
/// stamped with the time at which it was made, and is of the same client,
/// created at the same time. Whether it is locked is what the patch says, or
/// what it was.
pub proof fn lemma_revision_numbers_rise(
    client: Client,
    p: ClientPatch,
    id: u16,
    available: Option<Amount>,
    now: Timestamp,
)
    requires
        client.revision_number < u32::MAX,
    ensures
        Client::created(id, available, now).revision_number == 1,
        client.patched(p, now).revision_number == client.revision_number + 1,
        client.patched(p, now).revision_number > client.revision_number,
        client.patched(p, now).revision_time == now,
        client.patched(p, now).id == client.id,
        client.patched(p, now).creation_time == client.creation_time,
        client.patched(p, now).locked == (match p.locked {
            Some(v) => v,
            None => client.locked,
        }),
{
}

} // verus!
