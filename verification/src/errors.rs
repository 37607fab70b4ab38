//! Error taxonomy of the core: malformed caller data, missing course rows,
//! and failures of the storage collaborator.

use vstd::prelude::*;

verus! {

/// Terminal outcome of a request against the core.
///
/// `FormatError` marks a malformed identifier, `TimeParseError` a malformed
/// course-time string (fatal for the whole batch it occurs in), `NotFound` a
/// missed course/map lookup, and `StorageError` a failed read collaborator.
#[derive(Clone, Copy, Debug, PartialEq, Eq, Structural)]
pub enum ApiError {
    FormatError,
    TimeParseError,
    NotFound,
    StorageError,
}

impl ApiError {
    /// HTTP-style status for the error: missing data is a client-side miss,
    /// everything else a server-side failure.
    pub fn status_code(&self) -> (code: u16)
        ensures
            code == (if self is NotFound {
                404u16
            } else {
                500u16
            }),
    {
        match self {
            ApiError::NotFound => 404,
            _ => 500,
        }
    }

    /// Public message for the error.
    pub fn message(&self) -> (msg: &'static str)
        ensures
            self is NotFound ==> msg@ == "These aren't the droids you're looking for."@,
            self is StorageError ==> msg@ == "Database error."@,
            self is FormatError ==> msg@ == "Invalid identifier format."@,
            self is TimeParseError ==> msg@ == "Invalid time format."@,
    {
        match self {
            ApiError::NotFound => "These aren't the droids you're looking for.",
            ApiError::StorageError => "Database error.",
            ApiError::FormatError => "Invalid identifier format.",
            ApiError::TimeParseError => "Invalid time format.",
        }
    }
}

} // verus!
