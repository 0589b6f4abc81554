//! What the HTTP surface decides: the answer to each request, given what the
//! engine found.

use crate::app::App;
use std::sync::Arc;
use vstd::prelude::*;
use vstd::string::*;

pub mod clients;
pub mod error;
pub mod session;
pub mod transactions;

pub use clients::{
    get_all_clients, get_client, get_client_transactions, ClientResponse, ClientRoute,
    CLIENT_ROUTE_BASE,
};
pub use session::Context;
pub use transactions::{
    get_transaction, post_transaction, post_transaction_at, PostTransaction, TransactionResponse,
    TransactionRoute, TRANSACTION_ROUTE_BASE,
};

verus! {

/// What every request shares: the engine.
pub struct State {
    pub app: App,
}

/// The API over one engine.
pub struct API {
    pub state: Arc<State>,
}

impl Clone for API {
    fn clone(&self) -> (api: API)
        ensures
            api.state == self.state,
    {
        API { state: self.state.clone() }
    }
}

impl API {
    /// The API over `app`.
    pub fn new(app: App) -> (api: API)
        ensures
            api.state.app == app,
    {
        API { state: Arc::new(State { app }) }
    }

    /// An API over an engine on memory, for tests.
    pub fn new_test_api() -> (api: API)
        ensures
            api.state.app.store@ == crate::store::BackendView::Memory,
    {
        API::new(App::new_test_app())
    }
}

/// The answer to a health check.
pub fn healthz() -> (text: String)
    ensures
        text@ == "OK"@,
{
    "OK".to_string()
}

/// The answer to a request for the root.
pub fn index() -> (text: String)
    ensures
        text@ == "Welcome to the payment-engine API"@,
{
    "Welcome to the payment-engine API".to_string()
}

} // verus!
