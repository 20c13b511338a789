use vstd::prelude::*;

verus! {

/// Why a request could not be answered.
#[derive(Debug, Clone, Copy, PartialEq, Eq, Structural)]
pub enum FetchError {
    /// The link cannot be parsed, has too few path segments, an invalid
    /// fragment, an invalid pull number, or a zero or reversed line range.
    MalformedUrl,
    /// The requested line or range end lies past the last fetched line.
    LineIndexOutOfRange,
    /// The upstream endpoint could not be reached.
    UpstreamUnavailable,
    /// The upstream endpoint answered with a non-success status.
    UpstreamNotFound,
}

} // verus!
