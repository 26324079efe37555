//! Verified core of an HTTP gateway that serves single files out of remote,
//! compressed, content-addressed archives.
//!
//! The library covers the request-to-bytes pipeline: store-path parsing,
//! metadata-record parsing, codec selection, the sequential walk of the
//! archive's directory tree, and the decisions of the producer/consumer byte
//! relay. Network and HTTP plumbing live outside the library.

pub mod codec;
pub mod nar;
pub mod narinfo;
pub mod relay;
pub mod status;
pub mod store_path;
pub mod text;
