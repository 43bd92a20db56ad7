//! The error taxonomy of the pipeline.

use vstd::prelude::*;

verus! {

/// Every failure of the pipeline falls under one of these kinds. No error is
/// retried or recovered anywhere: each one aborts the run and is surfaced to
/// the caller unchanged.
#[derive(Clone, Copy, Debug, PartialEq, Eq)]
pub enum Error {
    /// The remote page could not be reached (network or timeout failure).
    ExternalServiceUnavailable,
    /// The remote page responded, but its content no longer matches the
    /// expected structure (undecodable body, missing element, malformed
    /// address text).
    ExternalServiceSpecChanged,
    /// The local database file or path is invalid or inaccessible.
    LocalSettingInvalid,
    /// The insert statement against the local database failed (for example,
    /// the table is missing). Distinct from the remote-service kinds: a local
    /// storage failure is not an external service failure.
    StorageWriteFailed,
}

} // verus!
