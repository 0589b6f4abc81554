use crate::store;
use crate::store::config::text_of;
use vstd::prelude::*;
use vstd::string::*;

verus! {

/// An error as a caller may see it.
#[derive(Debug)]
pub enum SanitizedError {
    Unauthorized,
    NotFound(String),
    Contention,
    InternalError,
    IncorrectRevisionNumber,
    UserError(String),
}

pub type SanitizedResult<T> = std::result::Result<T, SanitizedError>;

/// What a `SanitizedError` holds.
pub enum SanitizedErrorView {
    Unauthorized,
    NotFound(Seq<char>),
    Contention,
    InternalError,
    IncorrectRevisionNumber,
    UserError(Seq<char>),
}

impl View for SanitizedError {
    type V = SanitizedErrorView;

    open spec fn view(&self) -> SanitizedErrorView {
        match self {
            SanitizedError::Unauthorized => SanitizedErrorView::Unauthorized,
            SanitizedError::NotFound(message) => SanitizedErrorView::NotFound(message@),
            SanitizedError::Contention => SanitizedErrorView::Contention,
            SanitizedError::InternalError => SanitizedErrorView::InternalError,
            SanitizedError::IncorrectRevisionNumber => SanitizedErrorView::IncorrectRevisionNumber,
            SanitizedError::UserError(message) => SanitizedErrorView::UserError(message@),
        }
    }
}

impl Clone for SanitizedError {
    fn clone(&self) -> (e: SanitizedError)
        ensures
            e@ == self@,
    {
        match self {
            SanitizedError::Unauthorized => SanitizedError::Unauthorized,
            SanitizedError::NotFound(message) => SanitizedError::NotFound(message.clone()),
            SanitizedError::Contention => SanitizedError::Contention,
            SanitizedError::InternalError => SanitizedError::InternalError,
            SanitizedError::IncorrectRevisionNumber => SanitizedError::IncorrectRevisionNumber,
            SanitizedError::UserError(message) => SanitizedError::UserError(message.clone()),
        }
    }
}

impl SanitizedErrorView {
    /// The text that a caller is shown.
    pub open spec fn message(self) -> Seq<char> {
        match self {
            SanitizedErrorView::Unauthorized => "You are not authorized to perform this operation."@,
            SanitizedErrorView::NotFound(message) => message,
            SanitizedErrorView::Contention =>
                "Operation failed due to contention. Please try again."@,
            SanitizedErrorView::InternalError => "An internal error has occurred."@,
            SanitizedErrorView::IncorrectRevisionNumber =>
                "This object has been modified. Please try again using the latest revision."@,
            SanitizedErrorView::UserError(message) => message,
        }
    }
}

impl SanitizedError {
    /// The text that a caller is shown.
    pub fn to_string(&self) -> (text: String)
        ensures
            text@ == self@.message(),
    {
        match self {
            SanitizedError::Unauthorized =>
                "You are not authorized to perform this operation.".to_string(),
            SanitizedError::NotFound(message) => message.clone(),
            SanitizedError::Contention =>
                "Operation failed due to contention. Please try again.".to_string(),
            SanitizedError::InternalError => "An internal error has occurred.".to_string(),
            SanitizedError::IncorrectRevisionNumber =>
                "This object has been modified. Please try again using the latest revision.".to_string(),
            SanitizedError::UserError(message) => message.clone(),
        }
    }
}

/// The error for something that the caller got wrong, with the text to show.
pub fn user_error(message: &str) -> (e: SanitizedError)
    ensures
        e@ == SanitizedErrorView::UserError(message@),
{
    SanitizedError::UserError(message.to_string())
}

/// An error that can be shown to a caller once it is stripped of what is
/// internal.
pub trait Sanitizable: Sized {
    /// The error that the caller sees.
    spec fn sanitized(self) -> SanitizedErrorView;

    /// The text of the cause, where there is one to be logged.
    spec fn cause(self) -> Option<Seq<char>>;

    fn sanitize(self) -> (r: (SanitizedError, Option<String>))
        ensures
            r.0@ == self.sanitized(),
            text_of(r.1) == self.cause(),
    ;
}

/// A failure known only by its message is an internal error, and the message
/// is its cause.
impl Sanitizable for String {
    open spec fn sanitized(self) -> SanitizedErrorView {
        SanitizedErrorView::InternalError
    }

    open spec fn cause(self) -> Option<Seq<char>> {
        Some(self@)
    }

    fn sanitize(self) -> (r: (SanitizedError, Option<String>)) {
        (SanitizedError::InternalError, Some(self))
    }
}

impl Sanitizable for store::Error {
    open spec fn sanitized(self) -> SanitizedErrorView {
        match self {
            store::Error::UserHandleInUse => SanitizedErrorView::UserError(
                "The provided handle is already in use."@,
            ),
            store::Error::UserEmailAddressInUse => SanitizedErrorView::UserError(
                "The provided email address is already in use."@,
            ),
            store::Error::TranscodingServiceExternalIdUnavailable => SanitizedErrorView::UserError(
                "The provided external id is invalid."@,
            ),
            store::Error::Contention => SanitizedErrorView::Contention,
            store::Error::Other(_) => SanitizedErrorView::InternalError,
        }
    }

    open spec fn cause(self) -> Option<Seq<char>> {
        match self {
            store::Error::Contention => Some("contention"@),
            store::Error::Other(err) => Some(err@),
            _ => None,
        }
    }

    fn sanitize(self) -> (r: (SanitizedError, Option<String>)) {
        match self {
            store::Error::UserHandleInUse => (
                SanitizedError::UserError("The provided handle is already in use.".to_string()),
                None,
            ),
            store::Error::UserEmailAddressInUse => (
                SanitizedError::UserError(
                    "The provided email address is already in use.".to_string(),
                ),
                None,
            ),
            store::Error::TranscodingServiceExternalIdUnavailable => (
                SanitizedError::UserError("The provided external id is invalid.".to_string()),
                None,
            ),
            store::Error::Contention => (
                SanitizedError::Contention,
                Some("contention".to_string()),
            ),
            store::Error::Other(err) => (SanitizedError::InternalError, Some(err)),
        }
    }
}

/// The text that is logged when `e` is sanitized: the cause, unless the
/// error is contention, which is expected and not logged.
pub open spec fn logged<E: Sanitizable>(e: E) -> Option<Seq<char>> {
    if e.sanitized() is Contention {
        None
    } else {
        e.cause()
    }
}

/// Strips an error of what is internal: the caller gets the sanitized error,
/// and the cause, where there is one to log, goes to `log_error`. The logger
/// is called with nothing else: it need not accept any other message, and
/// none at all where there is nothing to log.
pub fn sanitize_with_error_func<F: FnOnce(&str), T, E: Sanitizable>(
    log_error: F,
    r: std::result::Result<T, E>,
) -> (res: SanitizedResult<T>)
    requires
        r matches Err(e) ==> (logged(e) matches Some(text) ==> forall|msg: &str|
            msg@ == text ==> log_error.requires((msg,))),
    ensures
        match r {
            Ok(v) => res == Ok::<T, SanitizedError>(v),
            Err(e) => {
                &&& res matches Err(s)
                &&& s@ == e.sanitized()
                &&& logged(e) matches Some(text) ==> exists|msg: &str|
                    msg@ == text && log_error.ensures((msg,), ())
            },
        },
{
    match r {
        Ok(v) => Ok(v),
        Err(e) => {
            let (s, cause) = e.sanitize();
            match s {
                SanitizedError::Contention => Err(s),
                _ => {
                    match cause {
                        Some(cause) => {
                            log_error(cause.as_str());
                        },
                        None => {},
                    }
                    Err(s)
                },
            }
        },
    }
}

/// Strips an error of what is internal, without logging.
pub fn sanitize<T, E: Sanitizable>(r: std::result::Result<T, E>) -> (res: SanitizedResult<T>)
    ensures
        match r {
            Ok(v) => res == Ok::<T, SanitizedError>(v),
            Err(e) => res matches Err(s) && s@ == e.sanitized(),
        },
{
    match r {
        Ok(v) => Ok(v),
        Err(e) => {
            let (s, _cause) = e.sanitize();
            Err(s)
        },
    }
}

} // verus!
