use crate::app::error::{sanitize, Sanitizable, SanitizedResult};
use crate::app::App;
use crate::store::Store;
use vstd::prelude::*;

verus! {

/// A handle for the work of one request: the engine, and a view of its store.
pub struct Session<'a> {
    pub app: &'a App,
    pub store: Store,
}

/// A session that is detached from the engine for a while, so that it can be
/// moved where only owned values can go.
#[derive(Debug)]
pub struct DetachedSession {}

impl Clone for DetachedSession {
    fn clone(&self) -> (s: DetachedSession) {
        DetachedSession {  }
    }
}

impl<'a> Session<'a> {
    /// Strips an error of what is internal.
    pub fn sanitize<T, E: Sanitizable>(&self, r: std::result::Result<T, E>) -> (res:
        SanitizedResult<T>)
        ensures
            match r {
                Ok(v) => res == Ok::<T, crate::app::error::SanitizedError>(v),
                Err(e) => res matches Err(s) && s@ == e.sanitized(),
            },
    {
        sanitize(r)
    }

    /// Lets go of the engine.
    pub fn detach(self) -> (s: DetachedSession) {
        DetachedSession {  }
    }

    /// A session on the same engine that reads through a cache. It is for a
    /// short run of reads: the cache does not notice writes.
    pub fn with_read_cache(&self) -> (s: Session<'a>)
        ensures
            s.app == self.app,
            s.store@ == self.store@.with_read_cache(),
    {
        Session { app: self.app, store: self.store.with_read_cache() }
    }

    /// A session on the same engine with relaxed reads, where the backend
    /// knows them.
    pub fn with_eventually_consistent_reads(&self) -> (s: Session<'a>)
        ensures
            s.app == self.app,
            s.store@ == self.store@.with_eventually_consistent_reads(),
    {
        Session { app: self.app, store: self.store.with_eventually_consistent_reads() }
    }
}

impl DetachedSession {
    /// A session on `app`, with the store of `app`.
    pub fn attach<'a>(self, app: &'a App) -> (s: Session<'a>)
        ensures
            s.app == app,
            s.store@ == app.store@,
    {
        Session { app, store: app.store.clone() }
    }
}

} // verus!
