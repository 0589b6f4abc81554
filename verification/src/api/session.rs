use crate::api::State;
use crate::app::{DetachedSession, Session};
use std::sync::Arc;
use vstd::prelude::*;

verus! {

/// What a request handler works with: the state of the API and a detached
/// session.
pub struct Context {
    pub state: Arc<State>,
    pub session: Arc<DetachedSession>,
}

impl Context {
    /// The context of one request.
    pub fn new(state: Arc<State>, session: DetachedSession) -> (c: Context)
        ensures
            c.state == state,
    {
        let session = Arc::new(session);
        Context { state, session }
    }

    /// The session of the request, attached to the engine of the API.
    pub fn session(&self) -> (s: Session<'_>)
        ensures
            s.app == &self.state.app,
            s.store@ == self.state.app.store@,
    {
        let app = &self.state.app;
        (*self.session).clone().attach(app)
    }
}

} // verus!
