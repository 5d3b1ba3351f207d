//! Plain message records that callers may exchange around the gateway: a
//! loosely structured mesh text message and the per-port envelope that
//! carries one line of raw input together with its parse, if any.

use vstd::prelude::*;

verus! {

/// A mesh text message with every field optional, as a device reports it.
#[derive(Debug, Clone, PartialEq, Eq)]
pub struct MeshMessage {
    pub from: Option<String>,
    pub to: Option<String>,
    pub text: Option<String>,
}

/// One raw line read from a port, together with the message parsed from it
/// when parsing succeeded.
#[derive(Debug, Clone, PartialEq, Eq)]
pub struct PortMessage {
    pub port: String,
    pub raw: String,
    pub parsed: Option<MeshMessage>,
}

} // verus!
