//! Typed events and their wire form.
//!
//! An [`Event`] is what the gateway publishes for every frame it understands:
//! the identifier of the originating port and one of a fixed set of kinds.
//! Each event is delivered to subscribers as one line of JSON text, built
//! here byte by byte and proved equal to its specification, so that exactly
//! one serialization exists per event.

use vstd::prelude::*;
use vstd::string::*;
use vstd::utf8::encode_utf8;
use crate::frame::append_bytes;
use crate::frame::NEWLINE;

verus! {

/// What kind of event a decoded frame turned out to be.
///
/// A mesh packet is classified by its hop limit alone: a positive hop limit
/// means the packet was relayed, a zero hop limit means it arrived directly.
/// `NodeInfoJson` carries an uninterpreted JSON text through unchanged.
#[derive(Debug, Clone, PartialEq, Eq)]
pub enum EventType {
    DirectMesh { from: u32, to: u32 },
    RelayedMesh { from: u32, to: u32 },
    NodeInfo { node_id: u32 },
    NodeInfoJson(String),
    Unknown,
}

/// One unit published on the bus and delivered to every subscriber.
#[derive(Debug, Clone, PartialEq, Eq)]
pub struct Event {
    pub port: String,
    pub event_type: EventType,
}

/// The lowercase hexadecimal digit for `n`.
pub open spec fn hex_digit(n: nat) -> u8
    recommends
        n < 16,
{
    if n < 10 {
        (0x30 + n) as u8
    } else {
        (0x57 + n) as u8
    }
}

/// How one byte of a string appears inside a JSON string literal: quote and
/// backslash get a backslash, control bytes become `\u00XX`, and every other
/// byte stands for itself.
pub open spec fn escaped_byte(b: u8) -> Seq<u8> {
    if b == 0x22 {
        seq![0x5c, 0x22]
    } else if b == 0x5c {
        seq![0x5c, 0x5c]
    } else if b < 0x20 {
        seq![0x5c, 0x75, 0x30, 0x30, hex_digit(b as nat / 16), hex_digit(b as nat % 16)]
    } else {
        seq![b]
    }
}

/// The bytes `s`, escaped byte for byte for use inside a JSON string literal.
pub open spec fn escaped(s: Seq<u8>) -> Seq<u8>
    decreases s.len(),
{
    if s.len() == 0 {
        Seq::empty()
    } else {
        escaped(s.drop_last()) + escaped_byte(s.last())
    }
}

/// The decimal digits of `n`, most significant first.
pub open spec fn dec_digits(n: nat) -> Seq<u8>
    decreases n,
{
    if n < 10 {
        seq![(0x30 + n) as u8]
    } else {
        dec_digits(n / 10) + seq![(0x30 + n % 10) as u8]
    }
}

/// The part of an event's JSON line that follows `"kind":"`, closing the
/// kind string and carrying the kind's own fields.
pub open spec fn spec_kind_tail(k: EventType) -> Seq<u8> {
    match k {
        EventType::DirectMesh { from, to } => "DirectMesh\",\"from\":".spec_bytes() + dec_digits(
            from as nat,
        ) + ",\"to\":".spec_bytes() + dec_digits(to as nat),
        EventType::RelayedMesh { from, to } => "RelayedMesh\",\"from\":".spec_bytes() + dec_digits(
            from as nat,
        ) + ",\"to\":".spec_bytes() + dec_digits(to as nat),
        EventType::NodeInfo { node_id } => "NodeInfo\",\"node_id\":".spec_bytes() + dec_digits(
            node_id as nat,
        ),
        EventType::NodeInfoJson(text) => "NodeInfoJson\",\"value\":\"".spec_bytes() + escaped(
            encode_utf8(text@),
        ) + "\"".spec_bytes(),
        EventType::Unknown => "Unknown\"".spec_bytes(),
    }
}

/// The one line of JSON that carries `e` to a subscriber, newline included.
pub open spec fn spec_event_line(e: Event) -> Seq<u8> {
    "{\"port\":\"".spec_bytes() + escaped(encode_utf8(e.port@)) + "\",\"kind\":\"".spec_bytes()
        + spec_kind_tail(e.event_type) + seq![0x7d, NEWLINE]
}

/// Appends the bytes of `s` to `out`.
fn push_lit(out: &mut Vec<u8>, s: &str)
    ensures
        final(out)@ == old(out)@ + s.spec_bytes(),
{
    append_bytes(out, s.as_bytes());
}

/// The lowercase hexadecimal digit for `n`.
fn hex_digit_byte(n: u8) -> (r: u8)
    requires
        n < 16,
    ensures
        r == hex_digit(n as nat),
{
    if n < 10 {
        0x30 + n
    } else {
        0x57 + n
    }
}

/// Appends `s` to `out`, escaped for a JSON string literal.
fn push_escaped(out: &mut Vec<u8>, s: &[u8])
    ensures
        final(out)@ == old(out)@ + escaped(s@),
{
    let mut i: usize = 0;
    while i < s.len()
        invariant
            i <= s@.len(),
            out@ =~= old(out)@ + escaped(s@.take(i as int)),
        decreases s@.len() - i,
    {
        let b = s[i];
        if b == 0x22 {
            out.push(0x5c);
            out.push(0x22);
        } else if b == 0x5c {
            out.push(0x5c);
            out.push(0x5c);
        } else if b < 0x20 {
            out.push(0x5c);
            out.push(0x75);
            out.push(0x30);
            out.push(0x30);
            out.push(hex_digit_byte(b / 16));
            out.push(hex_digit_byte(b % 16));
        } else {
            out.push(b);
        }
        i = i + 1;
        proof {
            assert(s@.take(i as int).drop_last() =~= s@.take(i - 1));
            assert(s@.take(i as int).last() == s@[i - 1]);
        }
    }
    assert(s@.take(s@.len() as int) =~= s@);
}

/// Appends the decimal digits of `n` to `out`, most significant first.
fn push_decimal(out: &mut Vec<u8>, n: u32)
    ensures
        final(out)@ == old(out)@ + dec_digits(n as nat),
    decreases n,
{
    if n < 10 {
        out.push(0x30 + (n as u8));
    } else {
        push_decimal(out, n / 10);
        out.push(0x30 + ((n % 10) as u8));
        assert(old(out)@ + dec_digits(n as nat / 10) + seq![(0x30 + n as nat % 10) as u8]
            =~= old(out)@ + dec_digits(n as nat));
    }
}

/// Serializes `e` as its one line of JSON, newline included: the form every
/// subscriber receives.
pub fn event_json_line(e: &Event) -> (line: Vec<u8>)
    ensures
        line@ == spec_event_line(*e),
{
    let mut out: Vec<u8> = Vec::new();
    push_lit(&mut out, "{\"port\":\"");
    push_escaped(&mut out, e.port.as_str().as_bytes());
    push_lit(&mut out, "\",\"kind\":\"");
    match &e.event_type {
        EventType::DirectMesh { from, to } => {
            push_lit(&mut out, "DirectMesh\",\"from\":");
            push_decimal(&mut out, *from);
            push_lit(&mut out, ",\"to\":");
            push_decimal(&mut out, *to);
        },
        EventType::RelayedMesh { from, to } => {
            push_lit(&mut out, "RelayedMesh\",\"from\":");
            push_decimal(&mut out, *from);
            push_lit(&mut out, ",\"to\":");
            push_decimal(&mut out, *to);
        },
        EventType::NodeInfo { node_id } => {
            push_lit(&mut out, "NodeInfo\",\"node_id\":");
            push_decimal(&mut out, *node_id);
        },
        EventType::NodeInfoJson(text) => {
            push_lit(&mut out, "NodeInfoJson\",\"value\":\"");
            push_escaped(&mut out, text.as_str().as_bytes());
            push_lit(&mut out, "\"");
        },
        EventType::Unknown => {
            push_lit(&mut out, "Unknown\"");
        },
    }
    out.push(0x7d);
    out.push(NEWLINE);
    assert(out@ =~= spec_event_line(*e));
    out
}

} // verus!
