//! Resolves a video identifier on a streaming platform into a signed playlist
//! URL, rewrites the fetched HLS manifest so every rendition stays selectable,
//! and decides each step of the hand-off into an external converter process.
//!
//! The library holds the logic of that pipeline: identifier parsing, request
//! building, response interpretation, manifest patching, and the converter
//! state machine. Network transport and process handling stay with the caller,
//! which feeds their outcomes back in as plain values.

pub mod convert;
pub mod error;
pub mod json;
pub mod patch;
pub mod twitch;
pub mod util;
