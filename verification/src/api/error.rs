use crate::app::{SanitizedError, SanitizedErrorView};
use vstd::prelude::*;

verus! {

impl SanitizedErrorView {
    /// The HTTP status that answers a request which failed with this error.
    pub open spec fn status(self) -> u16 {
        match self {
            SanitizedErrorView::NotFound(_) => 404,
            SanitizedErrorView::Unauthorized => 403,
            SanitizedErrorView::Contention => 500,
            SanitizedErrorView::InternalError => 500,
            SanitizedErrorView::IncorrectRevisionNumber => 409,
            SanitizedErrorView::UserError(_) => 400,
        }
    }
}

impl SanitizedError {
    /// The answer to a request that failed with this error: the HTTP status,
    /// and the text to send as plain text.
    pub fn respond_to(&self) -> (r: (u16, String))
        ensures
            r.0 == self@.status(),
            r.1@ == self@.message(),
    {
        let status_code: u16 = match self {
            SanitizedError::NotFound(_) => 404,
            SanitizedError::Unauthorized => 403,
            SanitizedError::Contention => 500,
            SanitizedError::InternalError => 500,
            SanitizedError::IncorrectRevisionNumber => 409,
            SanitizedError::UserError(_) => 400,
        };
        (status_code, self.to_string())
    }
}

} // verus!
