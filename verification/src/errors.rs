use vstd::prelude::*;

verus! {

/// An HTTP status code counts as a success exactly when it lies in the
/// 2xx range.
pub open spec fn spec_is_success(status: u16) -> bool {
    200 <= status < 300
}

/// Executable test for a success status, used when classifying responses.
pub fn is_success_status(status: u16) -> (r: bool)
    ensures
        r == spec_is_success(status),
{
    200 <= status && status < 300
}

/// The failure taxonomy of a sync run.
///
/// - `Config`: a required environment credential is missing (pre-flight).
/// - `Auth`: the credential exchange failed or its response did not carry
///   the expected token structure.
/// - `Api`: a non-success HTTP response, with its status and raw body.
/// - `Decode`: a response body did not match the expected structure.
/// - `Filesystem`: a directory or file could not be created or written.
#[derive(Debug)]
pub enum SyncError {
    Config,
    Auth,
    Api { status: u16, body: String },
    Decode,
    Filesystem,
}

/// Classify an HTTP response: a success status hands the body on unchanged;
/// any other status becomes an `Api` error carrying the status and the raw
/// body, so that remote-side failures stay diagnosable.
pub fn classify_response(status: u16, body: String) -> (r: Result<String, SyncError>)
    ensures
        spec_is_success(status) ==> r == Ok::<String, SyncError>(body),
        !spec_is_success(status) ==> r == Err::<String, SyncError>(
            (SyncError::Api { status, body }),
        ),
{
    if is_success_status(status) {
        Ok(body)
    } else {
        Err(SyncError::Api { status, body })
    }
}

} // verus!
