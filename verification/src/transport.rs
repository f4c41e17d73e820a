//! The transport's rules: where a batch is posted, and what a response means
//! for it.

use vstd::prelude::*;

verus! {

/// The method of the request that carries a batch.
pub const REQUEST_METHOD: &'static str = "POST";

/// The fixed path that batches are posted to.
pub const ENDPOINT_PATH: &'static str = "/api/mouse";

/// The name of the header that declares the body's format.
pub const CONTENT_TYPE_HEADER: &'static str = "Content-Type";

/// The format of the body: a JSON array of records.
pub const CONTENT_TYPE_JSON: &'static str = "application/json";

/// Why a batch was not delivered. The batch is dropped either way: it is
/// neither sent again nor queued again.
#[derive(Clone, Copy, Debug, PartialEq, Eq, Structural)]
pub enum TransportError {
    /// The endpoint answered with a status that is no success.
    RequestFailed,
}

impl TransportError {
    /// The text under which the failure is reported.
    pub fn message(&self) -> (m: &'static str)
        ensures
            m@ == "Request failed"@,
    {
        "Request failed"
    }
}

/// What a response means for the batch it answers: delivered where the
/// status is a success, failed where it is not.
pub fn delivery_outcome(response_ok: bool) -> (r: Result<(), TransportError>)
    ensures
        r is Ok <==> response_ok,
        r is Err ==> r == Err::<(), TransportError>(TransportError::RequestFailed),
{
    if response_ok {
        Ok(())
    } else {
        Err(TransportError::RequestFailed)
    }
}

} // verus!
