//! What the offchain workers accept from the data provider over HTTP.

use vstd::prelude::*;

verus! {

/// Why an HTTP request of an offchain worker failed.
#[derive(Clone, Copy, Debug, PartialEq, Eq, Structural)]
pub enum HttpError {
    /// The deadline passed before the response arrived.
    DeadlineReached,
    /// The request could not be sent.
    IoError,
    /// The response was not a success.
    Unknown,
}

/// A response is accepted only with status 200; any other status is an
/// `Unknown` error.
pub fn check_response_code(code: u16) -> (r: Result<(), HttpError>)
    ensures
        code == 200 ==> r is Ok,
        code != 200 ==> r == Err::<(), HttpError>(HttpError::Unknown),
{
    if code != 200 {
        return Err(HttpError::Unknown);
    }
    Ok(())
}

} // verus!
