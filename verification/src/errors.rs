//! The error taxonomy of the chat core and the account rules around it.

use vstd::prelude::*;

verus! {

/// A structured failure, with the message a caller would surface.
///
/// `Unauthorized` covers bad or missing credentials; `Forbidden` a contact
/// denial on an explicit history fetch; `NotFound` an unknown counterpart;
/// `ValidationError` a malformed request body; `Conflict` a uniqueness
/// clash on registration; `StorageError` a persistence-layer failure;
/// `InternalError` an unexpected failure inside a collaborator.
#[derive(Debug)]
pub enum AppError {
    Unauthorized(String),
    Forbidden(String),
    NotFound(String),
    ValidationError(String),
    Conflict(String),
    StorageError(String),
    InternalError(String),
}

impl AppError {
    /// The message carried by the error, whatever its variant.
    pub open spec fn spec_message(&self) -> Seq<char> {
        match self {
            AppError::Unauthorized(m) => m@,
            AppError::Forbidden(m) => m@,
            AppError::NotFound(m) => m@,
            AppError::ValidationError(m) => m@,
            AppError::Conflict(m) => m@,
            AppError::StorageError(m) => m@,
            AppError::InternalError(m) => m@,
        }
    }

    /// The message carried by the error.
    pub fn message(&self) -> (r: &String)
        ensures
            r@ == self.spec_message(),
    {
        match self {
            AppError::Unauthorized(m) => m,
            AppError::Forbidden(m) => m,
            AppError::NotFound(m) => m,
            AppError::ValidationError(m) => m,
            AppError::Conflict(m) => m,
            AppError::StorageError(m) => m,
            AppError::InternalError(m) => m,
        }
    }
}

} // verus!
