use vstd::prelude::*;
use vstd::string::*;

verus! {

/// What a store operation can fail with.
#[derive(Debug)]
pub enum Error {
    /// The change conflicts with a simultaneous write: a revision that was to
    /// be added is already there.
    Contention,
    UserEmailAddressInUse,
    UserHandleInUse,
    TranscodingServiceExternalIdUnavailable,
    /// Any failure of a lower layer, by its message.
    Other(String),
}

pub type Result<T> = std::result::Result<T, Error>;

/// What an `Error` holds.
pub enum ErrorView {
    Contention,
    UserEmailAddressInUse,
    UserHandleInUse,
    TranscodingServiceExternalIdUnavailable,
    Other(Seq<char>),
}

impl View for Error {
    type V = ErrorView;

    open spec fn view(&self) -> ErrorView {
        match self {
            Error::Contention => ErrorView::Contention,
            Error::UserEmailAddressInUse => ErrorView::UserEmailAddressInUse,
            Error::UserHandleInUse => ErrorView::UserHandleInUse,
            Error::TranscodingServiceExternalIdUnavailable =>
                ErrorView::TranscodingServiceExternalIdUnavailable,
            Error::Other(message) => ErrorView::Other(message@),
        }
    }
}

/// How a backend reports that it could not do what it was asked.
#[derive(Debug)]
pub enum BackendError {
    /// An atomic write met a key that had to be absent.
    AtomicWriteConflict,
    /// Anything else, by its message.
    Other(String),
}

impl ErrorView {
    /// The text that describes the error.
    pub open spec fn message(self) -> Seq<char> {
        match self {
            ErrorView::Contention => "contention"@,
            ErrorView::UserEmailAddressInUse => "user email address in use"@,
            ErrorView::UserHandleInUse => "user handle in use"@,
            ErrorView::TranscodingServiceExternalIdUnavailable =>
                "transcoding service external id unavailable"@,
            ErrorView::Other(message) => message,
        }
    }
}

impl Error {
    /// The text that describes the error.
    pub fn to_string(&self) -> (text: String)
        ensures
            text@ == self@.message(),
    {
        match self {
            Error::Contention => "contention".to_string(),
            Error::UserEmailAddressInUse => "user email address in use".to_string(),
            Error::UserHandleInUse => "user handle in use".to_string(),
            Error::TranscodingServiceExternalIdUnavailable =>
                "transcoding service external id unavailable".to_string(),
            Error::Other(message) => message.clone(),
        }
    }

    /// The store's error for a failure that a backend reported: a conflict of
    /// an atomic write is contention, anything else is passed on.
    pub open spec fn of_backend(err: BackendError) -> ErrorView {
        match err {
            BackendError::AtomicWriteConflict => ErrorView::Contention,
            BackendError::Other(message) => ErrorView::Other(message@),
        }
    }
}

impl From<BackendError> for Error {
    fn from(err: BackendError) -> (e: Error)
        ensures
            e@ == Error::of_backend(err),
    {
        match err {
            BackendError::AtomicWriteConflict => Error::Contention,
            BackendError::Other(message) => Error::Other(message),
        }
    }
}

impl vstd::std_specs::convert::FromSpecImpl<BackendError> for Error {
    open spec fn obeys_from_spec() -> bool {
        true
    }

    open spec fn from_spec(err: BackendError) -> Error {
        match err {
            BackendError::AtomicWriteConflict => Error::Contention,
            BackendError::Other(message) => Error::Other(message),
        }
    }
}

} // verus!
