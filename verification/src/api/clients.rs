use crate::api::transactions::TransactionResponse;
use crate::app::{SanitizedError, SanitizedErrorView};
use crate::model::client::{Amount, CSVClient, Client};
use crate::model::transaction::Transaction;
use crate::store::text::{decimal_text, push_decimal_text};
use vstd::prelude::*;
use vstd::string::*;

verus! {

/// The path under which the routes of clients are mounted.
pub const CLIENT_ROUTE_BASE: &'static str = "/clients";

/// The routes of clients.
pub struct ClientRoute {}

/// A client as the API shows it.
#[derive(Debug, Clone, Copy, PartialEq, Eq, Structural)]
pub struct ClientResponse {
    pub id: u16,
    pub available: Amount,
    pub held: Amount,
    pub total: Amount,
    pub locked: bool,
}

impl ClientResponse {
    /// A client as the API shows it.
    pub open spec fn shown(c: Client) -> ClientResponse {
        ClientResponse {
            id: c.id,
            available: c.available,
            held: c.held,
            total: c.total,
            locked: c.locked,
        }
    }
}

impl From<Client> for ClientResponse {
    fn from(c: Client) -> (r: ClientResponse) {
        ClientResponse {
            id: c.id,
            available: c.available,
            held: c.held,
            total: c.total,
            locked: c.locked,
        }
    }
}

impl vstd::std_specs::convert::FromSpecImpl<Client> for ClientResponse {
    open spec fn obeys_from_spec() -> bool {
        true
    }

    open spec fn from_spec(c: Client) -> ClientResponse {
        ClientResponse::shown(c)
    }
}

impl From<ClientResponse> for CSVClient {
    fn from(c: ClientResponse) -> (r: CSVClient) {
        CSVClient {
            client: c.id,
            available: c.available,
            held: c.held,
            total: c.total,
            locked: c.locked,
        }
    }
}

impl vstd::std_specs::convert::FromSpecImpl<ClientResponse> for CSVClient {
    open spec fn obeys_from_spec() -> bool {
        true
    }

    open spec fn from_spec(c: ClientResponse) -> CSVClient {
        CSVClient {
            client: c.id,
            available: c.available,
            held: c.held,
            total: c.total,
            locked: c.locked,
        }
    }
}

/// The answer to a request for the client `id`, where `found` is what the
/// engine has under that id: the client, or that there is none.
pub fn get_client(id: u16, found: Option<Client>) -> (r: Result<ClientResponse, SanitizedError>)
    ensures
        match found {
            Some(client) => r == Ok::<ClientResponse, SanitizedError>(
                ClientResponse::shown(client),
            ),
            None => r matches Err(e) && e@ == SanitizedErrorView::NotFound(
                "client "@ + decimal_text(id as nat) + " not found"@,
            ),
        },
{
    match found {
        Some(client) => Ok(ClientResponse::from(client)),
        None => {
            let mut message = "client ".to_string();
            push_decimal_text(&mut message, id as u32);
            message.append(" not found");
            Err(SanitizedError::NotFound(message))
        },
    }
}

/// The answer to a request for the transactions of a client, where `found`
/// is what the engine has: each of them, in that order.
pub fn get_client_transactions(found: Vec<Transaction>) -> (r: Vec<TransactionResponse>)
    ensures
        r@ == found@.map_values(|t: Transaction| TransactionResponse::shown(t)),
{
    let mut r: Vec<TransactionResponse> = Vec::new();
    let mut i: usize = 0;
    while i < found.len()
        invariant
            i <= found@.len(),
            r@ == found@.take(i as int).map_values(|t: Transaction| TransactionResponse::shown(t)),
        decreases found@.len() - i,
    {
        r.push(TransactionResponse::from(found[i]));
        proof {
            assert(r@ =~= found@.take(i + 1).map_values(
                |t: Transaction| TransactionResponse::shown(t),
            ));
        }
        i = i + 1;
    }
    proof {
        assert(found@.take(found@.len() as int) =~= found@);
    }
    r
}

/// The answer to a request for all clients, where `found` is what the engine
/// has: each of them, in that order.
pub fn get_all_clients(found: Vec<Client>) -> (r: Vec<ClientResponse>)
    ensures
        r@ == found@.map_values(|c: Client| ClientResponse::shown(c)),
{
    let mut r: Vec<ClientResponse> = Vec::new();
    let mut i: usize = 0;
    while i < found.len()
        invariant
            i <= found@.len(),
            r@ == found@.take(i as int).map_values(|c: Client| ClientResponse::shown(c)),
        decreases found@.len() - i,
    {
        r.push(ClientResponse::from(found[i]));
        proof {
            assert(r@ =~= found@.take(i + 1).map_values(|c: Client| ClientResponse::shown(c)));
        }
        i = i + 1;
    }
    proof {
        assert(found@.take(found@.len() as int) =~= found@);
    }
    r
}

} // verus!
