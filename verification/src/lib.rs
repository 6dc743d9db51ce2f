//! Verified core of a Spotify Connect / Snapcast audio daemon: the PCM frame
//! format of its FIFOs, command-line settings, the Snapcast JSON-RPC
//! messages and the decisions of its HTTP handlers and audio pipeline.

pub mod samples;
pub mod settings;
pub mod json;
pub mod snapcast;
pub mod api;
pub mod connect;
