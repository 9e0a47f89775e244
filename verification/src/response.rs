//! The liveness answer the service gives.

use vstd::prelude::*;

verus! {

/// Body of the liveness answer.
pub struct Response {
    pub status: String,
    pub message: String,
}

/// The liveness answer: the service is up and says so.
pub fn health() -> (r: Response)
    ensures
        r.status@ == "ok"@,
        r.message@ == "Server is running"@,
{
    Response { status: "ok".to_owned(), message: "Server is running".to_owned() }
}

} // verus!
