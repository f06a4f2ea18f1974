//! The relay's externally visible error taxonomy, and its mapping onto the
//! protocol-level numeric codes handed back to the consensus driver.

use vstd::prelude::*;
use crate::types::BackendFailure;

verus! {

/// Protocol error code for a request the relay could not act on because the
/// caller referenced something the relay does not know (an unknown payload id).
pub const INVALID_REQUEST_CODE: i32 = -32600;

/// Protocol error code for an internal or upstream failure (a backend timed
/// out, refused the connection, or rejected authentication).
pub const INTERNAL_ERROR_CODE: i32 = -32603;

/// A failure of a whole relay call, as reported to the consensus driver.
#[derive(Clone, Copy, PartialEq, Eq, Structural, Debug)]
pub enum RelayError {
    /// The authoritative backend call exceeded its timeout.
    Timeout,
    /// The authoritative backend was unreachable or the exchange failed.
    Transport,
    /// The authoritative backend rejected the authentication token.
    AuthRejected,
    /// The caller referenced a payload id with no live correlation entry.
    NotFound,
}

/// The relay error that reports a given single-backend failure.
pub open spec fn error_of_failure(f: BackendFailure) -> RelayError {
    match f {
        BackendFailure::Timeout => RelayError::Timeout,
        BackendFailure::Transport => RelayError::Transport,
        BackendFailure::AuthRejected => RelayError::AuthRejected,
    }
}

/// Maps a backend failure to the relay error reported for it.
pub fn relay_error_of(f: BackendFailure) -> (e: RelayError)
    ensures
        e == error_of_failure(f),
{
    match f {
        BackendFailure::Timeout => RelayError::Timeout,
        BackendFailure::Transport => RelayError::Transport,
        BackendFailure::AuthRejected => RelayError::AuthRejected,
    }
}

/// Whether an error is the caller's fault rather than an upstream fault.
pub open spec fn is_invalid_request(e: RelayError) -> bool {
    e == RelayError::NotFound
}

/// The numeric protocol code for an error: the invalid-request code exactly
/// when the caller was at fault, the internal-error code otherwise.
pub fn error_code(e: RelayError) -> (code: i32)
    ensures
        code == if is_invalid_request(e) { INVALID_REQUEST_CODE as int } else { INTERNAL_ERROR_CODE as int },
{
    match e {
        RelayError::NotFound => INVALID_REQUEST_CODE,
        _ => INTERNAL_ERROR_CODE,
    }
}

/// A short, fixed message for an error; never echoes addresses or secrets.
pub fn error_message(e: RelayError) -> (msg: &'static str)
    ensures
        e == RelayError::Timeout ==> msg@ == "backend timed out"@,
        e == RelayError::Transport ==> msg@ == "backend unreachable"@,
        e == RelayError::AuthRejected ==> msg@ == "backend rejected authentication"@,
        e == RelayError::NotFound ==> msg@ == "unknown payload id"@,
{
    match e {
        RelayError::Timeout => "backend timed out",
        RelayError::Transport => "backend unreachable",
        RelayError::AuthRejected => "backend rejected authentication",
        RelayError::NotFound => "unknown payload id",
    }
}

} // verus!
