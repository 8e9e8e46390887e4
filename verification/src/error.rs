//! Application error types.
//!
//! Every fallible operation of the library reports one of four classes:
//! a missing referent, a state conflict, a rejected input, or an internal
//! failure. Contracts speak of the class through [`ErrorKind`].

use vstd::prelude::*;
use vstd::string::StringExecFns;

verus! {

/// The class of an [`AppError`], without its message payload.
#[derive(Clone, Copy, Debug, PartialEq, Eq, Structural)]
pub enum ErrorKind {
    NotFound,
    Conflict,
    Validation,
    Internal,
}

/// A validation failure for one named field, with an English and an Arabic
/// message.
#[derive(Debug, Clone)]
pub struct ValidationError {
    pub field: String,
    pub message: String,
    pub message_ar: String,
}

impl ValidationError {
    pub fn new(field: &str, message: &str, message_ar: &str) -> (r: Self)
        ensures
            r.field@ == field@,
            r.message@ == message@,
            r.message_ar@ == message_ar@,
    {
        ValidationError {
            field: String::from_str(field),
            message: String::from_str(message),
            message_ar: String::from_str(message_ar),
        }
    }
}

/// Application error: a class together with a human-readable payload.
#[derive(Debug, Clone)]
pub enum AppError {
    /// Rejected input, with field-specific messages.
    Validation(ValidationError),
    /// Referenced customer/resource/item/session/invoice is absent.
    NotFound(String),
    /// The operation conflicts with current state (resource busy, session not
    /// active, insufficient stock, invoice cancelled).
    Conflict(String),
    /// Internal failure.
    Internal(String),
}

impl AppError {
    /// The class of this error.
    pub open spec fn kind(&self) -> ErrorKind {
        match self {
            AppError::Validation(_) => ErrorKind::Validation,
            AppError::NotFound(_) => ErrorKind::NotFound,
            AppError::Conflict(_) => ErrorKind::Conflict,
            AppError::Internal(_) => ErrorKind::Internal,
        }
    }

    /// Executable view of [`Self::kind`].
    pub fn class(&self) -> (k: ErrorKind)
        ensures
            k == self.kind(),
    {
        match self {
            AppError::Validation(_) => ErrorKind::Validation,
            AppError::NotFound(_) => ErrorKind::NotFound,
            AppError::Conflict(_) => ErrorKind::Conflict,
            AppError::Internal(_) => ErrorKind::Internal,
        }
    }
}

} // verus!
