//! The error taxonomy of the request pipeline and the HTTP status each kind
//! answers with.
//!
//! Every error found before the response's status line is committed maps to
//! a status code here. Once streaming has begun no status change is
//! possible: a mid-stream failure only truncates the body.

use vstd::prelude::*;

verus! {

/// What can go wrong before the response is committed.
pub enum GatewayError {
    /// The request path matches neither store-path grammar.
    PathParse,
    /// The metadata record could not be fetched: network failure or a
    /// non-success upstream status.
    MetadataFetch,
    /// The metadata record has no usable archive location.
    MetadataParse,
    /// The metadata record names a codec outside the known set; the message
    /// names the tag.
    UnsupportedCompression { message: String },
    /// The archive request could not be sent.
    ArchiveRequest,
    /// The archive fetch answered with a non-success upstream status.
    ArchiveStatus,
}

/// The status each error kind answers with: an unresolvable path is absent
/// (404), upstream fetch failures are bad-gateway (502) or internal (500),
/// and a malformed record or unknown codec is internal (500).
pub open spec fn status_of(e: GatewayError) -> u16 {
    match e {
        GatewayError::PathParse => 404,
        GatewayError::MetadataFetch => 502,
        GatewayError::MetadataParse => 500,
        GatewayError::UnsupportedCompression { .. } => 500,
        GatewayError::ArchiveRequest => 500,
        GatewayError::ArchiveStatus => 502,
    }
}

/// The HTTP status code for an error found before the response is committed.
pub fn status_code(e: &GatewayError) -> (s: u16)
    ensures
        s == status_of(*e),
{
    match e {
        GatewayError::PathParse => 404,
        GatewayError::MetadataFetch => 502,
        GatewayError::MetadataParse => 500,
        GatewayError::UnsupportedCompression { .. } => 500,
        GatewayError::ArchiveRequest => 500,
        GatewayError::ArchiveStatus => 502,
    }
}

} // verus!
