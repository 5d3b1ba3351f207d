// The per-device retry lifecycle, subscriber pruning, and end-to-end
// scenarios across the whole pipeline.

use mesh_gateway::dispatch::{classify_decoded, dispatch_json_line, DecodeOutcome, RadioPayload};
use mesh_gateway::event::{event_json_line, Event, EventType};
use mesh_gateway::frame::RawFrame;
use mesh_gateway::message::{MeshMessage, PortMessage};
use mesh_gateway::port::{PortAction, PortConnection, PortEvent, BACKOFF_MS, BAUD_RATE};
use mesh_gateway::subs::SubscriberSet;

#[test]
fn open_failure_backs_off_and_retries() {
    let mut conn = PortConnection::new();
    assert!(!conn.is_streaming());
    // Failure after failure: the same fixed backoff each time, and no state
    // accumulates between attempts.
    for _ in 0..3 {
        let (action, frames) = conn.step(PortEvent::OpenFailed);
        assert_eq!(action, PortAction::Backoff);
        assert!(frames.is_empty());
        assert!(!conn.is_streaming());
    }
    let (action, frames) = conn.step(PortEvent::Opened);
    assert_eq!(action, PortAction::Read);
    assert!(frames.is_empty());
    assert!(conn.is_streaming());
}

#[test]
fn backoff_interval_is_fixed() {
    assert_eq!(BACKOFF_MS, 2000);
    assert_eq!(BAUD_RATE, 921600);
}

#[test]
fn streaming_after_reconnect_starts_fresh() {
    let mut conn = PortConnection::new();
    conn.step(PortEvent::Opened);
    // Half a binary frame arrives, then the device disappears.
    let (_, frames) = conn.step(PortEvent::Bytes(vec![0x04, 0x00, 0xAA]));
    assert!(frames.is_empty());
    let (action, _) = conn.step(PortEvent::ReadFailed);
    assert_eq!(action, PortAction::Backoff);
    assert!(!conn.is_streaming());
    // The next session must not see the half frame: its stream starts fresh.
    conn.step(PortEvent::Opened);
    let (_, frames) = conn.step(PortEvent::Bytes(vec![0x01, 0x00, 0x33]));
    assert_eq!(frames.len(), 1);
    assert!(matches!(&frames[0], RawFrame::Binary(b) if b.as_slice() == [0x33]));
}

#[test]
fn eof_closes_the_session() {
    let mut conn = PortConnection::new();
    conn.step(PortEvent::Opened);
    let (action, frames) = conn.step(PortEvent::ReadEof);
    assert_eq!(action, PortAction::Backoff);
    assert!(frames.is_empty());
    assert!(!conn.is_streaming());
}

#[test]
fn failed_subscriber_is_pruned_others_keep_receiving() {
    let mut subs = SubscriberSet::new();
    assert!(subs.insert(1));
    assert!(subs.insert(2));
    assert!(subs.insert(3));
    assert!(!subs.insert(2));
    assert_eq!(subs.len(), 3);

    // The write of one event to subscriber 2 fails: 2 goes, 1 and 3 stay.
    subs.retain_ok(&vec![true, false, true]);
    assert_eq!(subs.len(), 2);
    assert!(subs.contains(1));
    assert!(!subs.contains(2));
    assert!(subs.contains(3));

    // The next event reaches the remaining two.
    subs.retain_ok(&vec![true, true]);
    assert_eq!(subs.len(), 2);
    assert!(subs.contains(1));
    assert!(subs.contains(3));
}

#[test]
fn pruned_subscriber_can_reconnect() {
    let mut subs = SubscriberSet::new();
    assert!(subs.insert(7));
    subs.retain_ok(&vec![false]);
    assert_eq!(subs.len(), 0);
    assert!(subs.insert(7));
    assert!(subs.contains(7));
}

#[test]
fn direct_mesh_packet_end_to_end() {
    // Device stream: prefix 0x005B little-endian, then a 91-byte encoded
    // mesh packet.  The demultiplexer hands the payload out whole; decoding
    // (external) reports a mesh packet with hop_limit 0, from 10, to 20; the
    // event goes to every connected subscriber as one line of JSON.
    let mut stream: Vec<u8> = vec![0x5B, 0x00];
    let payload: Vec<u8> = (0..91).map(|i| i as u8).collect();
    stream.extend_from_slice(&payload);

    let mut conn = PortConnection::new();
    conn.step(PortEvent::Opened);
    let (_, frames) = conn.step(PortEvent::Bytes(stream));
    assert_eq!(frames.len(), 1);
    let frame_payload = match &frames[0] {
        RawFrame::Binary(b) => b.clone(),
        RawFrame::Json(_) => panic!("expected a binary frame"),
    };
    assert_eq!(frame_payload, payload);

    let outcome = DecodeOutcome::Payload(RadioPayload::Packet { from: 10, to: 20, hop_limit: 0 });
    let kind = classify_decoded(&outcome).unwrap();
    assert_eq!(kind, EventType::DirectMesh { from: 10, to: 20 });

    let event = Event { port: String::from("dev0"), event_type: kind };
    let line = event_json_line(&event);
    assert_eq!(
        line,
        b"{\"port\":\"dev0\",\"kind\":\"DirectMesh\",\"from\":10,\"to\":20}\n".to_vec()
    );

    // All three subscribers take the write; everyone stays.
    let mut subs = SubscriberSet::new();
    subs.insert(1);
    subs.insert(2);
    subs.insert(3);
    subs.retain_ok(&vec![true, true, true]);
    assert_eq!(subs.len(), 3);
}

#[test]
fn node_info_line_end_to_end() {
    let mut conn = PortConnection::new();
    conn.step(PortEvent::Opened);
    let (_, frames) = conn.step(PortEvent::Bytes(b"{\"num\":42}\n".to_vec()));
    assert_eq!(frames.len(), 1);
    let line = match &frames[0] {
        RawFrame::Json(b) => b.clone(),
        RawFrame::Binary(_) => panic!("expected a text frame"),
    };
    let kind = dispatch_json_line(&line).unwrap();
    assert_eq!(kind, EventType::NodeInfo { node_id: 42 });
    let event = Event { port: String::from("dev0"), event_type: kind };
    assert_eq!(
        event_json_line(&event),
        b"{\"port\":\"dev0\",\"kind\":\"NodeInfo\",\"node_id\":42}\n".to_vec()
    );
}

#[test]
fn port_message_records_carry_their_fields() {
    let parsed = MeshMessage {
        from: Some(String::from("node-a")),
        to: None,
        text: Some(String::from("hello")),
    };
    let msg = PortMessage {
        port: String::from("dev0"),
        raw: String::from("{\"from\":\"node-a\",\"text\":\"hello\"}"),
        parsed: Some(parsed.clone()),
    };
    assert_eq!(msg.port, "dev0");
    assert_eq!(msg.parsed, Some(parsed));
}
