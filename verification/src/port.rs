//! The open/close lifecycle of one serial device.
//!
//! One [`PortConnection`] owns the framing state of one device and decides,
//! for everything the driving loop observes — an open attempt's outcome,
//! bytes read, end of stream, a read failure — what happens next: which
//! frames come out, what the next action is, and what framing state carries
//! over.  Open failure and mid-stream failure alike lead to the same fixed
//! backoff and a fresh attempt; a fresh open session always starts with an
//! empty buffer, so no framing state ever leaks across a reconnect.

use vstd::prelude::*;
use crate::frame::Demux;
use crate::frame::RawFrame;
use crate::frame::demux_frames;
use crate::frame::demux_residue;

verus! {

/// Fixed delay between a failure and the next open attempt, in milliseconds:
/// the same for an open failure and a mid-stream failure, and never growing.
pub const BACKOFF_MS: u64 = 2000;

/// The fixed rate at which every device is opened.
pub const BAUD_RATE: u32 = 921600;

/// What the driving loop observed of the device since the last step.
pub enum PortEvent {
    /// An open attempt succeeded.
    Opened,
    /// An open attempt failed.
    OpenFailed,
    /// A read delivered these bytes.
    Bytes(Vec<u8>),
    /// A read delivered zero bytes: the stream ended.
    ReadEof,
    /// A read failed.
    ReadFailed,
}

/// What the driving loop must do next.
#[derive(Debug, Clone, Copy, PartialEq, Eq)]
pub enum PortAction {
    /// Attempt to open the device.
    Open,
    /// Wait for more bytes.
    Read,
    /// Sleep for [`BACKOFF_MS`] milliseconds, then attempt to open again.
    Backoff,
}

/// The per-device connection state: whether a session is open, and the
/// framing state of the current session.
pub struct PortConnection {
    streaming: bool,
    demux: Demux,
}

impl PortConnection {
    /// Whether a session is currently open.
    pub closed spec fn is_streaming_spec(&self) -> bool {
        self.streaming
    }

    /// The bytes read in this session but not yet resolved into a frame.
    pub closed spec fn buffered(&self) -> Seq<u8> {
        self.demux@
    }

    /// A closed connection, about to make its first open attempt.
    pub fn new() -> (c: PortConnection)
        ensures
            !c.is_streaming_spec(),
            c.buffered() == Seq::<u8>::empty(),
    {
        PortConnection { streaming: false, demux: Demux::new() }
    }

    /// Whether a session is currently open.
    pub fn is_streaming(&self) -> (b: bool)
        ensures
            b == self.is_streaming_spec(),
    {
        self.streaming
    }

    /// Advances the lifecycle by one observation.
    ///
    /// While closed, an open attempt's outcome either starts a session — on
    /// a buffer that is always empty, whatever earlier attempts or sessions
    /// left behind — or leads to the fixed backoff and another attempt,
    /// with nothing accumulated from attempt to attempt.  While streaming,
    /// read bytes run through the demultiplexer and yield exactly the
    /// complete frames, and end of stream or a read failure closes the
    /// session, discards its buffer and leads to the same fixed backoff.
    pub fn step(&mut self, ev: PortEvent) -> (out: (PortAction, Vec<RawFrame>))
        requires
            old(self).is_streaming_spec() <==> (ev matches PortEvent::Bytes(_) || ev
                is ReadEof || ev is ReadFailed),
        ensures
            (match ev {
                PortEvent::Opened => final(self).is_streaming_spec() && final(self).buffered()
                    == Seq::<u8>::empty() && out.0 == PortAction::Read && out.1@.len() == 0,
                PortEvent::OpenFailed => !final(self).is_streaming_spec() && final(self).buffered()
                    == Seq::<u8>::empty() && out.0 == PortAction::Backoff && out.1@.len() == 0,
                PortEvent::Bytes(chunk) => final(self).is_streaming_spec() && out.1@.map_values(
                    |f: RawFrame| f@,
                ) == demux_frames(old(self).buffered() + chunk@) && final(self).buffered()
                    == demux_residue(old(self).buffered() + chunk@) && out.0 == PortAction::Read,
                PortEvent::ReadEof => !final(self).is_streaming_spec() && final(self).buffered()
                    == Seq::<u8>::empty() && out.0 == PortAction::Backoff && out.1@.len() == 0,
                PortEvent::ReadFailed => !final(self).is_streaming_spec() && final(self).buffered()
                    == Seq::<u8>::empty() && out.0 == PortAction::Backoff && out.1@.len() == 0,
            }),
    {
        match ev {
            PortEvent::Opened => {
                self.streaming = true;
                self.demux.reset();
                (PortAction::Read, Vec::new())
            },
            PortEvent::OpenFailed => {
                self.demux.reset();
                (PortAction::Backoff, Vec::new())
            },
            PortEvent::Bytes(chunk) => {
                let frames = self.demux.feed(chunk.as_slice());
                (PortAction::Read, frames)
            },
            PortEvent::ReadEof => {
                self.streaming = false;
                self.demux.reset();
                (PortAction::Backoff, Vec::new())
            },
            PortEvent::ReadFailed => {
                self.streaming = false;
                self.demux.reset();
                (PortAction::Backoff, Vec::new())
            },
        }
    }
}

} // verus!
