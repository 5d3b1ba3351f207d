//! Classification of decoded frames into events.
//!
//! A binary frame is decoded by the external protobuf decoder, whose result
//! shape — and nothing more — is modelled here as [`DecodeOutcome`]; the
//! classification of every possible outcome is pure, total and verified.  A
//! text frame is handed to the JSON parser, and a numeric node identifier is
//! read from it.

use vstd::prelude::*;
use crate::event::EventType;

verus! {

/// The payload carried by one successfully decoded radio message: the fields
/// the gateway reads, as plain values.
#[derive(Debug, Clone, Copy, PartialEq, Eq)]
pub enum RadioPayload {
    /// A mesh packet; `hop_limit` alone decides direct against relayed.
    Packet { from: u32, to: u32, hop_limit: u32 },
    /// A node-info record.
    NodeInfo { num: u32 },
    /// A payload variant the gateway does not interpret.
    Other,
}

/// What the external protobuf decoder produced for one binary frame.
#[derive(Debug, Clone, Copy, PartialEq, Eq)]
pub enum DecodeOutcome {
    /// The bytes did not decode.
    Failed,
    /// The bytes decoded, but the message carried no payload.
    Empty,
    /// The bytes decoded to a message carrying this payload.
    Payload(RadioPayload),
}

/// The event, if any, that one decode outcome is classified as.
///
/// A failed decode and an empty message yield nothing.  A mesh packet with a
/// positive hop limit yields `RelayedMesh`, one with a zero hop limit yields
/// `DirectMesh`; a node-info record yields `NodeInfo`; any other payload
/// yields `Unknown`.
pub open spec fn spec_classify(outcome: DecodeOutcome) -> Option<EventType> {
    match outcome {
        DecodeOutcome::Failed => None,
        DecodeOutcome::Empty => None,
        DecodeOutcome::Payload(p) => match p {
            RadioPayload::Packet { from, to, hop_limit } => if hop_limit > 0 {
                Some(EventType::RelayedMesh { from, to })
            } else {
                Some(EventType::DirectMesh { from, to })
            },
            RadioPayload::NodeInfo { num } => Some(EventType::NodeInfo { node_id: num }),
            RadioPayload::Other => Some(EventType::Unknown),
        },
    }
}

/// Classifies one decode outcome; see [`spec_classify`].
pub fn classify_decoded(outcome: &DecodeOutcome) -> (r: Option<EventType>)
    ensures
        r == spec_classify(*outcome),
{
    match outcome {
        DecodeOutcome::Failed => None,
        DecodeOutcome::Empty => None,
        DecodeOutcome::Payload(p) => match p {
            RadioPayload::Packet { from, to, hop_limit } => if *hop_limit > 0 {
                Some(EventType::RelayedMesh { from: *from, to: *to })
            } else {
                Some(EventType::DirectMesh { from: *from, to: *to })
            },
            RadioPayload::NodeInfo { num } => Some(EventType::NodeInfo { node_id: *num }),
            RadioPayload::Other => Some(EventType::Unknown),
        },
    }
}

/// The hop limit is the sole discriminant between direct and relayed
/// classification: a positive hop limit always yields `RelayedMesh` and a
/// zero hop limit always yields `DirectMesh`, whatever `from` and `to` hold.
pub proof fn lemma_hop_limit_discriminates(from: u32, to: u32, hop_limit: u32)
    ensures
        hop_limit > 0 ==> spec_classify(
            DecodeOutcome::Payload(RadioPayload::Packet { from, to, hop_limit }),
        ) == Some((EventType::RelayedMesh { from, to })),
        hop_limit == 0 ==> spec_classify(
            DecodeOutcome::Payload(RadioPayload::Packet { from, to, hop_limit }),
        ) == Some((EventType::DirectMesh { from, to })),
{
}

/// What the JSON parser finds in one text line for a given key: `None` when
/// the line is not valid JSON, otherwise the unsigned value of that key's
/// field, if the line has one.  A function of the bytes and the key alone.
pub uninterp spec fn json_key_u64(line: Seq<u8>, key: Seq<char>) -> Option<Option<u64>>;

/// Relies on `serde_json::from_slice::<Value>`, `Value::get` and
/// `Value::as_u64`: whether `line` parses as JSON and, if so, the unsigned
/// numeric value of its `key` field.  Parsing is a pure function of the
/// bytes and the key.
#[verifier::external_body]
fn json_u64_field(line: &[u8], key: &str) -> (r: Option<Option<u64>>)
    ensures
        r == json_key_u64(line@, key@),
{
    match serde_json::from_slice::<serde_json::Value>(line) {
        Ok(v) => Some(v.get(key).and_then(serde_json::Value::as_u64)),
        Err(_) => None,
    }
}

/// The node identifier read from a parsed line's `num` field: the field's
/// value taken in 32 bits, or zero when the field is absent or not an
/// unsigned number.
pub open spec fn node_id_of(num: Option<u64>) -> u32 {
    match num {
        Some(n) => (n % 0x1_0000_0000) as u32,
        None => 0,
    }
}

/// The event, if any, that one text line is dispatched as: nothing for a
/// line that is not valid JSON, otherwise a `NodeInfo` event carrying the
/// line's `num` field as node identifier.
pub open spec fn spec_dispatch_json(line: Seq<u8>) -> Option<EventType> {
    match json_key_u64(line, "num"@) {
        None => None,
        Some(num) => Some(EventType::NodeInfo { node_id: node_id_of(num) }),
    }
}

/// Dispatches one text line; see [`spec_dispatch_json`].
pub fn dispatch_json_line(line: &[u8]) -> (r: Option<EventType>)
    ensures
        r == spec_dispatch_json(line@),
{
    match json_u64_field(line, "num") {
        None => None,
        Some(num) => {
            let id: u32 = match num {
                Some(n) => (n % 0x1_0000_0000) as u32,
                None => 0u32,
            };
            Some(EventType::NodeInfo { node_id: id })
        },
    }
}

/// A line that the JSON parser rejects is dropped: it yields no event at
/// all, while the framing of whatever follows it in the stream is untouched
/// (see [`crate::frame::lemma_line_preserves_framing`]).
pub proof fn lemma_bad_line_yields_nothing(line: Seq<u8>)
    requires
        json_key_u64(line, "num"@) is None,
    ensures
        spec_dispatch_json(line) is None,
{
}

} // verus!
