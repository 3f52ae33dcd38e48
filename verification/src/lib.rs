//! Verified core of an Android OTA `payload.bin` dumper: the payload header,
//! the ZIP container that may wrap it, the manifest summary handed to the
//! user interface, the per-operation extraction rules and the buffered
//! HTTP range reader.

pub mod bytes;
pub mod constants;
pub mod digest;
pub mod dumper;
pub mod extract;
pub mod header;
pub mod manifest;
pub mod payload;
pub mod remote;
pub mod session;
pub mod zip;
