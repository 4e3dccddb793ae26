//! The flat error taxonomy of the download pipeline. Every stage fails
//! immediately to its caller with one of these kinds; nothing is retried.

use vstd::prelude::*;

verus! {

/// Which stage of the pipeline failed, and how.
#[derive(Clone, Copy, Debug, PartialEq, Eq, Structural)]
pub enum ErrorKind {
    /// The input is neither a recognized video URL nor a numeric identifier.
    InvalidIdentifier,
    /// The token endpoint answered with a non-success status, or the
    /// transport failed outright.
    AuthRequestFailed,
    /// The token endpoint answered successfully, but the expected fields
    /// were absent or not strings.
    MalformedAuthResponse,
    /// The signed playlist could not be fetched (non-success status).
    ManifestFetchFailed,
    /// The external converter process could not be spawned.
    ConverterNotInstalled,
    /// Writing the manifest into the converter's standard input failed.
    PipeWriteFailed,
    /// The converter exited with a non-zero status.
    ConversionFailed,
}

/// An error surfaced verbatim to the end user: a kind plus a human-readable
/// message.
#[derive(Debug)]
pub struct TwitchError {
    pub kind: ErrorKind,
    pub message: String,
}

impl TwitchError {
    /// Builds an error of the given kind carrying the given message.
    pub fn with_msg(kind: ErrorKind, message: String) -> (r: TwitchError)
        ensures
            r.kind == kind,
            r.message == message,
    {
        TwitchError { kind, message }
    }
}

} // verus!
