//! The engine: what happens to a client and to the ledger for each record,
//! the bounded retry on contention, and the errors that a caller sees.

use crate::model::clock::Timestamp;
use crate::store;
use crate::store::Store;
use vstd::prelude::*;

pub mod client;
pub mod config;
pub mod dispatch;
pub mod dispute;
pub mod error;
pub mod invariants;
pub mod process_transaction;
pub mod session;
pub mod transaction;

pub use config::Config;
pub use error::{
    sanitize, sanitize_with_error_func, user_error, Sanitizable, SanitizedError,
    SanitizedErrorView, SanitizedResult,
};
pub use dispatch::{
    AwaitAdd, AwaitClient, AwaitDispute, AwaitReference, AwaitWrite, Step, StepView, Write,
    WriteView, MAX_ATTEMPTS,
};
pub use process_transaction::{BatchStep, BatchStepView};
pub use session::{DetachedSession, Session};

verus! {

/// The engine of one process: its configuration and its store.
pub struct App {
    pub config: Config,
    pub store: Store,
}

impl App {
    /// The engine on the backend that `config` chooses. It fails where the
    /// configuration names none.
    pub fn new_with_config(config: Config) -> (r: store::Result<App>)
        ensures
            match r {
                Ok(app) => store::BackendView::of_config(config@) == Some(app.store@)
                    && app.config@ == config@,
                Err(e) => store::BackendView::of_config(config@).is_none() && e@
                    == store::ErrorView::Other("invalid store config"@),
            },
    {
        match Store::new_with_config(&config.store) {
            Ok(store) => Ok(App { store, config }),
            Err(e) => Err(e),
        }
    }

    /// A session on this engine, with its store.
    pub fn new_session(&self) -> (s: Session<'_>)
        ensures
            s.app == self,
            s.store@ == self.store@,
    {
        Session { app: self, store: self.store.clone() }
    }

    /// The configuration that the engine was made with.
    pub fn config(&self) -> (c: &Config)
        ensures
            c == &self.config,
    {
        &self.config
    }

    /// An engine on memory, for tests.
    pub fn new_test_app() -> (app: App)
        ensures
            app.store@ == store::BackendView::Memory,
            app.config@ == (store::ConfigView {
                in_memory: true,
                redis_address: None,
                dynamodb: None,
            }),
    {
        App {
            config: Config {
                store: store::Config { in_memory: true, redis_address: None, dynamodb: None },
            },
            store: Store::new_test_store(),
        }
    }
}

/// A time before anything was recorded: the first second of the year 1900.
pub fn distant_past() -> (t: Timestamp)
    ensures
        t == -2208988800 * 1_000_000,
{
    -2_208_988_800_000_000
}

/// A time after anything will be recorded: the first second of the year 2200.
pub fn distant_future() -> (t: Timestamp)
    ensures
        t == 7258118400 * 1_000_000,
{
    7_258_118_400_000_000
}

} // verus!
