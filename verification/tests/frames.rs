// Frame synchronization: whole frames, chunked arrival, and resynchronization
// after corrupt input.

use mesh_gateway::frame::{Demux, RawFrame};

fn feed_all(demux: &mut Demux, chunks: &[&[u8]]) -> Vec<RawFrame> {
    let mut frames = Vec::new();
    for chunk in chunks {
        frames.extend(demux.feed(chunk));
    }
    frames
}

fn is_json(frame: &RawFrame, expected: &[u8]) -> bool {
    match frame {
        RawFrame::Json(b) => b.as_slice() == expected,
        RawFrame::Binary(_) => false,
    }
}

fn is_binary(frame: &RawFrame, expected: &[u8]) -> bool {
    match frame {
        RawFrame::Json(_) => false,
        RawFrame::Binary(b) => b.as_slice() == expected,
    }
}

#[test]
fn binary_frame_whole() {
    let mut demux = Demux::new();
    let frames = demux.feed(&[0x02, 0x00, 0xAA, 0xBB]);
    assert_eq!(frames.len(), 1);
    assert!(is_binary(&frames[0], &[0xAA, 0xBB]));
}

#[test]
fn json_line_whole() {
    let mut demux = Demux::new();
    let frames = demux.feed(b"{\"num\":42}\n");
    assert_eq!(frames.len(), 1);
    assert!(is_json(&frames[0], b"{\"num\":42}"));
}

#[test]
fn interleaved_stream_in_order() {
    let mut demux = Demux::new();
    let mut stream: Vec<u8> = Vec::new();
    stream.extend_from_slice(b"{\"num\":7}\n");
    stream.extend_from_slice(&[0x03, 0x00, 1, 2, 3]);
    stream.extend_from_slice(b"{\"num\":8}\n");
    let frames = demux.feed(&stream);
    assert_eq!(frames.len(), 3);
    assert!(is_json(&frames[0], b"{\"num\":7}"));
    assert!(is_binary(&frames[1], &[1, 2, 3]));
    assert!(is_json(&frames[2], b"{\"num\":8}"));
}

#[test]
fn chunking_is_invisible() {
    // The same stream, split at every byte boundary, yields the same frames.
    let mut stream: Vec<u8> = Vec::new();
    stream.extend_from_slice(b"{\"num\":7}\n");
    stream.extend_from_slice(&[0x03, 0x00, 1, 2, 3]);
    stream.extend_from_slice(&[0x01, 0x00, 9]);

    let mut whole = Demux::new();
    let expected = whole.feed(&stream);
    assert_eq!(expected.len(), 3);

    for split in 0..=stream.len() {
        let mut demux = Demux::new();
        let frames = feed_all(&mut demux, &[&stream[..split], &stream[split..]]);
        assert_eq!(frames.len(), expected.len());
    }

    let mut byte_by_byte = Demux::new();
    let mut frames = Vec::new();
    for b in &stream {
        frames.extend(byte_by_byte.feed(&[*b]));
    }
    assert_eq!(frames.len(), 3);
    assert!(is_json(&frames[0], b"{\"num\":7}"));
    assert!(is_binary(&frames[1], &[1, 2, 3]));
    assert!(is_binary(&frames[2], &[9]));
}

#[test]
fn split_mid_prefix_and_mid_payload() {
    let mut demux = Demux::new();
    assert_eq!(demux.feed(&[0x03]).len(), 0);
    assert_eq!(demux.feed(&[0x00]).len(), 0);
    assert_eq!(demux.feed(&[0xAA, 0xBB]).len(), 0);
    let frames = demux.feed(&[0xCC]);
    assert_eq!(frames.len(), 1);
    assert!(is_binary(&frames[0], &[0xAA, 0xBB, 0xCC]));
}

#[test]
fn corrupt_byte_costs_one_byte() {
    // 0xFF followed by the prefix low byte 0x02 spells length 767, which the
    // protocol rejects: the demultiplexer drops the one corrupt byte and the
    // frame behind it comes out whole.
    let mut demux = Demux::new();
    let frames = demux.feed(&[0xFF, 0x02, 0x00, 0xAA, 0xBB]);
    assert_eq!(frames.len(), 1);
    assert!(is_binary(&frames[0], &[0xAA, 0xBB]));
}

#[test]
fn zero_length_prefix_is_corrupt() {
    // Two zero bytes spell length 0 and are dropped one at a time: first
    // (0x00, 0x00) with length 0, then (0x00, 0x03) with length 768, both
    // rejected.  The following frame is recovered whole.
    let mut demux = Demux::new();
    let frames = demux.feed(&[0x00, 0x00, 0x03, 0x00, 0x5A, 0x5B, 0x5C]);
    assert_eq!(frames.len(), 1);
    assert!(is_binary(&frames[0], &[0x5A, 0x5B, 0x5C]));
}

#[test]
fn oversized_length_prefix_is_corrupt() {
    // 0x0301 little-endian declares 769 bytes, above the 512-byte bound.
    let mut demux = Demux::new();
    let frames = demux.feed(&[0x01, 0x03, 0x02, 0x00, 0xAA, 0xBB]);
    assert_eq!(frames.len(), 1);
    assert!(is_binary(&frames[0], &[0xAA, 0xBB]));
}

#[test]
fn unparsable_line_leaves_following_frame_intact() {
    let mut demux = Demux::new();
    let mut stream: Vec<u8> = Vec::new();
    stream.extend_from_slice(b"{oops\n");
    stream.extend_from_slice(&[0x02, 0x00, 0xAA, 0xBB]);
    let frames = demux.feed(&stream);
    assert_eq!(frames.len(), 2);
    assert!(is_json(&frames[0], b"{oops"));
    assert!(is_binary(&frames[1], &[0xAA, 0xBB]));
}

#[test]
fn max_length_frame_accepted() {
    let mut stream: Vec<u8> = vec![0x00, 0x02];
    stream.extend(std::iter::repeat(0x41).take(512));
    let mut demux = Demux::new();
    let frames = demux.feed(&stream);
    assert_eq!(frames.len(), 1);
    let payload: Vec<u8> = std::iter::repeat(0x41).take(512).collect();
    assert!(is_binary(&frames[0], &payload));
}

#[test]
fn reset_discards_buffered_bytes() {
    let mut demux = Demux::new();
    assert_eq!(demux.feed(&[0x05, 0x00, 0xAA]).len(), 0);
    demux.reset();
    // After the reset nothing of the incomplete frame survives; a fresh
    // stream parses from its first byte.
    let frames = demux.feed(&[0x01, 0x00, 0x7E]);
    assert_eq!(frames.len(), 1);
    assert!(is_binary(&frames[0], &[0x7E]));
}
