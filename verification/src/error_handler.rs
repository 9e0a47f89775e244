//! The two error kinds a repository operation can report, and their mapping
//! to HTTP status codes and messages.

use vstd::prelude::*;

verus! {

/// Error reported by a repository operation.
///
/// `NotFound` covers a requested row (or parent/child pair) that is absent;
/// `InternalError` covers every other store failure, constraint violations
/// included.
#[derive(Clone, Copy, Debug, PartialEq, Eq, Structural)]
pub enum CustomError {
    NotFound,
    InternalError,
}

impl CustomError {
    /// HTTP status code the transport layer answers with for this error.
    pub open spec fn spec_status_code(self) -> u16 {
        match self {
            CustomError::NotFound => 404,
            CustomError::InternalError => 500,
        }
    }

    /// Status code of the error: 404 for `NotFound`, 500 for `InternalError`.
    pub fn status_code(&self) -> (code: u16)
        ensures
            code == self.spec_status_code(),
    {
        match self {
            CustomError::NotFound => 404,
            CustomError::InternalError => 500,
        }
    }

    /// Message body accompanying the status code.
    pub fn message(&self) -> (msg: String)
        ensures
            *self is NotFound ==> msg@ == "Not found"@,
            *self is InternalError ==> msg@ == "Internal error"@,
    {
        match self {
            CustomError::NotFound => "Not found".to_owned(),
            CustomError::InternalError => "Internal error".to_owned(),
        }
    }
}

} // verus!
