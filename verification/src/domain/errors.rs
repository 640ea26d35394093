//! The error taxonomy of the messaging core.

use vstd::prelude::*;
use vstd::string::StringExecFns;

verus! {

/// The category of a [`LogicError`], without its message.
#[derive(Clone, Copy, Debug, PartialEq, Eq, Structural)]
pub enum ErrorKind {
    BadRequest,
    NotFound,
    StoreUnavailable,
    Conflict,
    DeliveryFailure,
}

/// What an invocation reports when it cannot complete.
#[derive(Clone, Debug, PartialEq, Eq)]
pub enum LogicError {
    /// Malformed protocol input or an unrecognised route.
    BadRequest(String),
    /// The referenced connection has no record.
    NotFound(String),
    /// The backend could not read or write.
    StoreUnavailable(String),
    /// An operation that cannot be built or applied as given.
    Conflict(String),
    /// A push to one connection failed.
    DeliveryFailure(String),
}

/// A [`LogicError`] as a value of the model: its category and its message.
pub struct ErrorView {
    pub kind: ErrorKind,
    pub message: Seq<char>,
}

impl View for LogicError {
    type V = ErrorView;

    open spec fn view(&self) -> ErrorView {
        match self {
            LogicError::BadRequest(m) => ErrorView { kind: ErrorKind::BadRequest, message: m@ },
            LogicError::NotFound(m) => ErrorView { kind: ErrorKind::NotFound, message: m@ },
            LogicError::StoreUnavailable(m) => ErrorView {
                kind: ErrorKind::StoreUnavailable,
                message: m@,
            },
            LogicError::Conflict(m) => ErrorView { kind: ErrorKind::Conflict, message: m@ },
            LogicError::DeliveryFailure(m) => ErrorView {
                kind: ErrorKind::DeliveryFailure,
                message: m@,
            },
        }
    }
}

/// The tag that [`LogicError::to_text`] writes for each category.
pub open spec fn kind_tag(kind: ErrorKind) -> Seq<char> {
    match kind {
        ErrorKind::BadRequest => "[BadRequest] "@,
        ErrorKind::NotFound => "[NotFound] "@,
        ErrorKind::StoreUnavailable => "[StoreUnavailable] "@,
        ErrorKind::Conflict => "[Conflict] "@,
        ErrorKind::DeliveryFailure => "[DeliveryFailure] "@,
    }
}

impl LogicError {
    /// The category of this error.
    pub fn kind(&self) -> (k: ErrorKind)
        ensures
            k == self@.kind,
    {
        match self {
            LogicError::BadRequest(_) => ErrorKind::BadRequest,
            LogicError::NotFound(_) => ErrorKind::NotFound,
            LogicError::StoreUnavailable(_) => ErrorKind::StoreUnavailable,
            LogicError::Conflict(_) => ErrorKind::Conflict,
            LogicError::DeliveryFailure(_) => ErrorKind::DeliveryFailure,
        }
    }

    /// The message carried by this error.
    pub fn message(&self) -> (m: &String)
        ensures
            m@ == self@.message,
    {
        match self {
            LogicError::BadRequest(m) => m,
            LogicError::NotFound(m) => m,
            LogicError::StoreUnavailable(m) => m,
            LogicError::Conflict(m) => m,
            LogicError::DeliveryFailure(m) => m,
        }
    }

    /// The error as one line of text: the category in square brackets, a
    /// space, then the message.
    pub fn to_text(&self) -> (s: String)
        ensures
            s@ == kind_tag(self@.kind) + self@.message,
    {
        let tag: &str = match self {
            LogicError::BadRequest(_) => "[BadRequest] ",
            LogicError::NotFound(_) => "[NotFound] ",
            LogicError::StoreUnavailable(_) => "[StoreUnavailable] ",
            LogicError::Conflict(_) => "[Conflict] ",
            LogicError::DeliveryFailure(_) => "[DeliveryFailure] ",
        };
        String::from_str(tag).concat(self.message().as_str())
    }
}

} // verus!
