//! A one-shot extension protocol: a child process announces its identity to
//! its host, or answers exactly one length-prefixed JSON request read from its
//! standard input with one unframed text written to its standard output.
//!
//! - [`extension`] holds the extension, its requests and what it answers.
//! - [`framing`] reads the length line and the payload that follows it.
//! - [`json`] states what is relied on of `serde_json`.
//! - [`error`] names the ways in which a host can break the protocol.
pub mod error;
pub mod extension;
pub mod framing;
pub mod json;
mod utf8;

pub use error::FatalError;
pub use extension::{CGIExtension, CGIExtensionMethod, CGIExtensionRequest};
