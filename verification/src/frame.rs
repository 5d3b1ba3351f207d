//! Frame synchronization: turns an arbitrarily chunked, corruption-prone byte
//! stream into a sequence of discrete frames.
//!
//! Two framings are interleaved on the wire:
//! - text lines that begin with `{` and end with a newline, and
//! - binary frames: a 2-byte little-endian length prefix followed by exactly
//!   that many payload bytes.
//!
//! The demultiplexer holds the bytes read so far in a buffer and extracts
//! every complete frame from its front.  A length prefix that declares zero
//! bytes or more than [`MAX_FRAME_LEN`] bytes is treated as corruption:
//! exactly one byte is dropped and scanning restarts, so that a single bad
//! byte costs at most one byte of resynchronization.

use vstd::prelude::*;

verus! {

/// Largest payload length a binary frame's length prefix may declare; a
/// prefix that declares zero bytes or more than this is treated as corrupt.
pub const MAX_FRAME_LEN: usize = 512;

/// First byte of a text line: ASCII `{`.
pub const JSON_OPEN: u8 = 123;

/// Line terminator: ASCII newline.
pub const NEWLINE: u8 = 10;

/// One frame extracted from the byte stream.
///
/// `Json` holds the bytes of one line, from the opening `{` up to but not
/// including the terminating newline.  `Binary` holds the payload of one
/// length-prefixed frame, the prefix excluded.
pub enum RawFrame {
    Json(Vec<u8>),
    Binary(Vec<u8>),
}

/// Mathematical counterpart of [`RawFrame`].
pub ghost enum FrameModel {
    Json(Seq<u8>),
    Binary(Seq<u8>),
}

impl View for RawFrame {
    type V = FrameModel;

    open spec fn view(&self) -> FrameModel {
        match self {
            RawFrame::Json(b) => FrameModel::Json(b@),
            RawFrame::Binary(b) => FrameModel::Binary(b@),
        }
    }
}

/// The payload length declared by a little-endian 16-bit prefix.
pub open spec fn le16(lo: u8, hi: u8) -> int {
    lo + 256 * hi
}

/// Index of the first newline in `s`, or `s.len()` if `s` holds none.
pub open spec fn nl_pos(s: Seq<u8>) -> nat
    decreases s.len(),
{
    if s.len() == 0 {
        0
    } else if s[0] == NEWLINE {
        0
    } else {
        1 + nl_pos(s.skip(1))
    }
}

/// `nl_pos` points at the first newline: it never runs past the end, a
/// newline stands at it whenever one exists, and no newline stands before it.
pub proof fn lemma_nl_pos(s: Seq<u8>)
    ensures
        nl_pos(s) <= s.len(),
        nl_pos(s) < s.len() ==> s[nl_pos(s) as int] == NEWLINE,
        forall|i: int| 0 <= i < nl_pos(s) ==> s[i] != NEWLINE,
    decreases s.len(),
{
    if s.len() == 0 {
    } else if s[0] == NEWLINE {
    } else {
        lemma_nl_pos(s.skip(1));
        assert forall|i: int| 0 <= i < nl_pos(s) implies s[i] != NEWLINE by {
            if i >= 1 {
                assert(s[i] == s.skip(1)[i - 1]);
            }
        }
    }
}

/// If no newline stands before `p` and either `p` is the end or a newline
/// stands at `p`, then `p` is `nl_pos(s)`.
pub proof fn lemma_nl_pos_unique(s: Seq<u8>, p: int)
    requires
        0 <= p <= s.len(),
        p < s.len() ==> s[p] == NEWLINE,
        forall|i: int| 0 <= i < p ==> s[i] != NEWLINE,
    ensures
        nl_pos(s) == p,
    decreases s.len(),
{
    if s.len() == 0 {
    } else if s[0] == NEWLINE {
        assert(p == 0);
    } else {
        assert(p >= 1);
        lemma_nl_pos_unique(s.skip(1), p - 1);
    }
}

/// Whether `buf` begins with a complete frame or a corrupt prefix byte, or
/// instead must wait for more input.
///
/// The buffer waits when it is empty, when a pending text line has no newline
/// yet, when fewer than 2 bytes are present for a length prefix, or when a
/// plausible prefix declares more payload bytes than are buffered.
pub open spec fn demux_waits(buf: Seq<u8>) -> bool {
    if buf.len() == 0 {
        true
    } else if buf[0] == JSON_OPEN {
        nl_pos(buf) >= buf.len()
    } else if buf.len() < 2 {
        true
    } else {
        let l = le16(buf[0], buf[1]);
        1 <= l <= MAX_FRAME_LEN && buf.len() < l + 2
    }
}

/// Every frame that a buffer holding exactly the bytes `buf` yields, in
/// order, under the resynchronization policy: a corrupt length prefix (zero,
/// or larger than [`MAX_FRAME_LEN`]) costs exactly one dropped byte.
pub open spec fn demux_frames(buf: Seq<u8>) -> Seq<FrameModel>
    decreases buf.len(),
{
    if buf.len() == 0 {
        Seq::empty()
    } else if buf[0] == JSON_OPEN {
        if nl_pos(buf) < buf.len() {
            let p = nl_pos(buf) as int;
            seq![FrameModel::Json(buf.subrange(0, p))] + demux_frames(buf.skip(p + 1))
        } else {
            Seq::empty()
        }
    } else if buf.len() < 2 {
        Seq::empty()
    } else {
        let l = le16(buf[0], buf[1]);
        if l == 0 || l > MAX_FRAME_LEN {
            demux_frames(buf.skip(1))
        } else if buf.len() < l + 2 {
            Seq::empty()
        } else {
            seq![FrameModel::Binary(buf.subrange(2, l + 2))] + demux_frames(buf.skip(l + 2))
        }
    }
}

/// The bytes left in the buffer once every complete frame and every corrupt
/// prefix byte has been taken from `buf`: the residue waits for more input.
pub open spec fn demux_residue(buf: Seq<u8>) -> Seq<u8>
    decreases buf.len(),
{
    if buf.len() == 0 {
        buf
    } else if buf[0] == JSON_OPEN {
        if nl_pos(buf) < buf.len() {
            demux_residue(buf.skip(nl_pos(buf) as int + 1))
        } else {
            buf
        }
    } else if buf.len() < 2 {
        buf
    } else {
        let l = le16(buf[0], buf[1]);
        if l == 0 || l > MAX_FRAME_LEN {
            demux_residue(buf.skip(1))
        } else if buf.len() < l + 2 {
            buf
        } else {
            demux_residue(buf.skip(l + 2))
        }
    }
}

/// The residue always waits for more input, and a waiting buffer is its own
/// residue and yields no frame.
pub proof fn lemma_residue_waits(buf: Seq<u8>)
    ensures
        demux_waits(demux_residue(buf)),
        demux_waits(buf) ==> demux_residue(buf) == buf && demux_frames(buf) == Seq::<
            FrameModel,
        >::empty(),
    decreases buf.len(),
{
    if buf.len() == 0 {
    } else if buf[0] == JSON_OPEN {
        if nl_pos(buf) < buf.len() {
            lemma_residue_waits(buf.skip(nl_pos(buf) as int + 1));
        }
    } else if buf.len() < 2 {
    } else {
        let l = le16(buf[0], buf[1]);
        if l == 0 || l > MAX_FRAME_LEN {
            lemma_residue_waits(buf.skip(1));
        } else if buf.len() < l + 2 {
        } else {
            lemma_residue_waits(buf.skip(l + 2));
        }
    }
}

/// How a stream may arrive in pieces is invisible in what comes out: feeding
/// `buf` and then `ext` yields the frames of `buf` followed by the frames of
/// `buf`'s residue extended with `ext`, and the matching residue.  Iterating
/// this equation over any chunking of a stream yields exactly the frames of
/// the whole stream, in order, wherever the chunk boundaries fall.
pub proof fn lemma_demux_extend(buf: Seq<u8>, ext: Seq<u8>)
    ensures
        demux_frames(buf + ext) == demux_frames(buf) + demux_frames(demux_residue(buf) + ext),
        demux_residue(buf + ext) == demux_residue(demux_residue(buf) + ext),
    decreases buf.len(),
{
    if demux_waits(buf) {
        lemma_residue_waits(buf);
        assert(demux_frames(buf) + demux_frames(demux_residue(buf) + ext) =~= demux_frames(
            buf + ext,
        ));
        assert(demux_residue(buf) + ext =~= buf + ext);
    } else if buf[0] == JSON_OPEN {
        let p = nl_pos(buf) as int;
        lemma_nl_pos(buf);
        lemma_nl_pos_unique(buf + ext, p);
        assert((buf + ext).subrange(0, p) =~= buf.subrange(0, p));
        assert((buf + ext).skip(p + 1) =~= buf.skip(p + 1) + ext);
        lemma_demux_extend(buf.skip(p + 1), ext);
        assert(seq![FrameModel::Json(buf.subrange(0, p))] + (demux_frames(buf.skip(p + 1))
            + demux_frames(demux_residue(buf.skip(p + 1)) + ext)) =~= (seq![
            FrameModel::Json(buf.subrange(0, p)),
        ] + demux_frames(buf.skip(p + 1))) + demux_frames(demux_residue(buf.skip(p + 1)) + ext));
    } else {
        let l = le16(buf[0], buf[1]);
        if l == 0 || l > MAX_FRAME_LEN {
            assert((buf + ext).skip(1) =~= buf.skip(1) + ext);
            lemma_demux_extend(buf.skip(1), ext);
        } else {
            assert((buf + ext).subrange(2, l + 2) =~= buf.subrange(2, l + 2));
            assert((buf + ext).skip(l + 2) =~= buf.skip(l + 2) + ext);
            lemma_demux_extend(buf.skip(l + 2), ext);
            assert(seq![FrameModel::Binary(buf.subrange(2, l + 2))] + (demux_frames(
                buf.skip(l + 2),
            ) + demux_frames(demux_residue(buf.skip(l + 2)) + ext)) =~= (seq![
                FrameModel::Binary(buf.subrange(2, l + 2)),
            ] + demux_frames(buf.skip(l + 2))) + demux_frames(
                demux_residue(buf.skip(l + 2)) + ext,
            ));
        }
    }
}

/// All the bytes of a session, in the order its chunks arrived.
pub open spec fn concat_chunks(chunks: Seq<Seq<u8>>) -> Seq<u8>
    decreases chunks.len(),
{
    if chunks.len() == 0 {
        Seq::empty()
    } else {
        chunks[0] + concat_chunks(chunks.skip(1))
    }
}

/// What one session of the demultiplexer does to a sequence of chunks,
/// starting from the buffered bytes `buf`: every frame emitted across all
/// the feeds, in order, and the bytes still buffered at the end.
pub open spec fn run_chunks(chunks: Seq<Seq<u8>>, buf: Seq<u8>) -> (Seq<FrameModel>, Seq<u8>)
    decreases chunks.len(),
{
    if chunks.len() == 0 {
        (Seq::empty(), buf)
    } else {
        let rest = run_chunks(chunks.skip(1), demux_residue(buf + chunks[0]));
        (demux_frames(buf + chunks[0]) + rest.0, rest.1)
    }
}

/// Feeding chunk by chunk is feeding everything at once: a session whose
/// buffer waits for input — as a fresh session's empty buffer does — emits,
/// over any chunking, the frames of the concatenated bytes, and buffers
/// their residue.
pub proof fn lemma_run_chunks(chunks: Seq<Seq<u8>>, buf: Seq<u8>)
    requires
        demux_waits(buf),
    ensures
        run_chunks(chunks, buf).0 == demux_frames(buf + concat_chunks(chunks)),
        run_chunks(chunks, buf).1 == demux_residue(buf + concat_chunks(chunks)),
    decreases chunks.len(),
{
    if chunks.len() == 0 {
        assert(buf + Seq::<u8>::empty() =~= buf);
        lemma_residue_waits(buf);
    } else {
        lemma_residue_waits(buf + chunks[0]);
        lemma_run_chunks(chunks.skip(1), demux_residue(buf + chunks[0]));
        lemma_demux_extend(buf + chunks[0], concat_chunks(chunks.skip(1)));
        assert((buf + chunks[0]) + concat_chunks(chunks.skip(1)) =~= buf + concat_chunks(chunks));
    }
}

/// A frame that the wire format can carry unambiguously.
///
/// A text line must begin with `{` and hold no newline.  A binary payload
/// must be of a length the protocol accepts, and the low byte of its length
/// prefix must differ from `{`, since a leading `{` always announces a text
/// line.
pub open spec fn wf_frame(f: FrameModel) -> bool {
    match f {
        FrameModel::Json(line) => line.len() >= 1 && line[0] == JSON_OPEN && (forall|i: int|
            0 <= i < line.len() ==> line[i] != NEWLINE),
        FrameModel::Binary(p) => 1 <= p.len() <= MAX_FRAME_LEN && p.len() % 256 != JSON_OPEN as nat,
    }
}

/// The bytes that carry one frame on the wire: the line with its terminating
/// newline, or the little-endian length prefix followed by the payload.
pub open spec fn encode_frame(f: FrameModel) -> Seq<u8> {
    match f {
        FrameModel::Json(line) => line + seq![NEWLINE],
        FrameModel::Binary(p) => seq![(p.len() % 256) as u8, (p.len() / 256) as u8] + p,
    }
}

/// The bytes that carry a whole sequence of frames, one after the other.
pub open spec fn encode_stream(fs: Seq<FrameModel>) -> Seq<u8>
    decreases fs.len(),
{
    if fs.len() == 0 {
        Seq::empty()
    } else {
        encode_frame(fs[0]) + encode_stream(fs.skip(1))
    }
}

/// A well-formed frame at the front of the buffer is extracted whole: exactly
/// the bytes that carry it are consumed, and the rest of the buffer is
/// processed as if the frame had never been there.
pub proof fn lemma_demux_frame_prefix(f: FrameModel, rest: Seq<u8>)
    requires
        wf_frame(f),
    ensures
        demux_frames(encode_frame(f) + rest) == seq![f] + demux_frames(rest),
        demux_residue(encode_frame(f) + rest) == demux_residue(rest),
{
    let buf = encode_frame(f) + rest;
    match f {
        FrameModel::Json(line) => {
            let p = line.len() as int;
            assert(buf[0] == line[0]);
            lemma_nl_pos_unique(buf, p);
            assert(buf.subrange(0, p) =~= line);
            assert(buf.skip(p + 1) =~= rest);
        },
        FrameModel::Binary(payload) => {
            let l = payload.len() as int;
            assert(buf[0] == (payload.len() % 256) as u8);
            assert(buf[1] == (payload.len() / 256) as u8);
            assert(buf[0] != JSON_OPEN);
            assert(le16(buf[0], buf[1]) == l);
            assert(buf.subrange(2, l + 2) =~= payload);
            assert(buf.skip(l + 2) =~= rest);
        },
    }
}

/// A stream that carries well-formed frames back to back yields exactly those
/// frames, in order, with nothing left over.
pub proof fn lemma_demux_stream(fs: Seq<FrameModel>)
    requires
        forall|i: int| 0 <= i < fs.len() ==> wf_frame(#[trigger] fs[i]),
    ensures
        demux_frames(encode_stream(fs)) == fs,
        demux_residue(encode_stream(fs)) == Seq::<u8>::empty(),
    decreases fs.len(),
{
    if fs.len() == 0 {
    } else {
        lemma_demux_stream(fs.skip(1));
        lemma_demux_frame_prefix(fs[0], encode_stream(fs.skip(1)));
        assert(seq![fs[0]] + fs.skip(1) =~= fs);
    }
}

/// Chunking independence over a whole session: however a stream that
/// carries well-formed frames back to back is cut into chunks — including
/// cuts in the middle of a length prefix or a payload — a fresh
/// demultiplexer fed those chunks emits exactly the carried frames, one
/// each, in stream order, and ends with an empty buffer.
pub proof fn lemma_stream_chunking_independent(fs: Seq<FrameModel>, chunks: Seq<Seq<u8>>)
    requires
        forall|i: int| 0 <= i < fs.len() ==> wf_frame(#[trigger] fs[i]),
        concat_chunks(chunks) == encode_stream(fs),
    ensures
        run_chunks(chunks, Seq::empty()).0 == fs,
        run_chunks(chunks, Seq::empty()).1 == Seq::<u8>::empty(),
{
    lemma_run_chunks(chunks, Seq::empty());
    assert(Seq::<u8>::empty() + concat_chunks(chunks) =~= encode_stream(fs));
    lemma_demux_stream(fs);
}

/// One corrupt byte in front of a well-formed binary frame costs exactly that
/// one byte: whenever the corrupt byte cannot open a text line and, together
/// with the low byte of the frame's length prefix, spells a length the
/// protocol rejects, it is dropped on its own and the frame behind it is
/// still extracted whole.
///
/// A corrupt byte outside these bounds can spell a plausible prefix instead
/// and is then not told apart from one; recovery then costs more than one
/// byte, so such bytes are excluded here.
pub proof fn lemma_corrupt_byte_resync(c: u8, payload: Seq<u8>, rest: Seq<u8>)
    requires
        wf_frame(FrameModel::Binary(payload)),
        c != JSON_OPEN,
        le16(c, (payload.len() % 256) as u8) == 0 || le16(c, (payload.len() % 256) as u8)
            > MAX_FRAME_LEN,
    ensures
        demux_frames(seq![c] + encode_frame(FrameModel::Binary(payload)) + rest) == seq![
            FrameModel::Binary(payload),
        ] + demux_frames(rest),
        demux_residue(seq![c] + encode_frame(FrameModel::Binary(payload)) + rest) == demux_residue(
            rest,
        ),
{
    let buf = seq![c] + encode_frame(FrameModel::Binary(payload)) + rest;
    assert(buf[1] == (payload.len() % 256) as u8);
    assert(buf.skip(1) =~= encode_frame(FrameModel::Binary(payload)) + rest);
    lemma_demux_frame_prefix(FrameModel::Binary(payload), rest);
}

/// A text line is cut out of the stream on its newline alone: whatever its
/// bytes hold — in particular a line that no JSON parser accepts — the frames
/// behind it are extracted exactly as if the line had never been there.
pub proof fn lemma_line_preserves_framing(line: Seq<u8>, rest: Seq<u8>)
    requires
        line.len() >= 1,
        line[0] == JSON_OPEN,
        forall|i: int| 0 <= i < line.len() ==> line[i] != NEWLINE,
    ensures
        demux_frames(line + seq![NEWLINE] + rest) == seq![FrameModel::Json(line)] + demux_frames(
            rest,
        ),
        demux_residue(line + seq![NEWLINE] + rest) == demux_residue(rest),
{
    lemma_demux_frame_prefix(FrameModel::Json(line), rest);
    assert(line + seq![NEWLINE] + rest =~= encode_frame(FrameModel::Json(line)) + rest);
}

/// Appends every byte of `chunk` to `buf`.
pub(crate) fn append_bytes(buf: &mut Vec<u8>, chunk: &[u8])
    ensures
        final(buf)@ == old(buf)@ + chunk@,
{
    let mut i: usize = 0;
    while i < chunk.len()
        invariant
            i <= chunk@.len(),
            buf@ =~= old(buf)@ + chunk@.take(i as int),
        decreases chunk@.len() - i,
    {
        buf.push(chunk[i]);
        i = i + 1;
        assert(chunk@.take(i as int) =~= chunk@.take(i - 1) + seq![chunk@[i - 1]]);
    }
    assert(chunk@.take(chunk@.len() as int) =~= chunk@);
}

/// Index of the first newline in `buf`, if any.
fn find_newline(buf: &Vec<u8>) -> (r: Option<usize>)
    ensures
        (match r {
            Some(p) => p < buf@.len() && p == nl_pos(buf@),
            None => nl_pos(buf@) == buf@.len(),
        }),
{
    let mut i: usize = 0;
    while i < buf.len()
        invariant
            i <= buf@.len(),
            forall|j: int| 0 <= j < i ==> buf@[j] != NEWLINE,
        decreases buf@.len() - i,
    {
        if buf[i] == NEWLINE {
            proof {
                lemma_nl_pos_unique(buf@, i as int);
            }
            return Some(i);
        }
        i = i + 1;
    }
    proof {
        lemma_nl_pos_unique(buf@, buf@.len() as int);
    }
    None
}

/// Removes the first `n` bytes of `buf` and returns them.
fn take_front(buf: &mut Vec<u8>, n: usize) -> (front: Vec<u8>)
    requires
        n <= old(buf)@.len(),
    ensures
        front@ == old(buf)@.take(n as int),
        final(buf)@ == old(buf)@.skip(n as int),
{
    let mut front: Vec<u8> = Vec::new();
    let mut i: usize = 0;
    while i < n
        invariant
            i <= n <= buf@.len(),
            buf@ == old(buf)@,
            front@ =~= old(buf)@.take(i as int),
        decreases n - i,
    {
        front.push(buf[i]);
        i = i + 1;
        assert(old(buf)@.take(i as int) =~= old(buf)@.take(i - 1) + seq![old(buf)@[i - 1]]);
    }
    let mut rest: Vec<u8> = Vec::new();
    let mut j: usize = n;
    while j < buf.len()
        invariant
            n <= j <= buf@.len(),
            buf@ == old(buf)@,
            rest@ =~= old(buf)@.subrange(n as int, j as int),
        decreases buf@.len() - j,
    {
        rest.push(buf[j]);
        j = j + 1;
        assert(old(buf)@.subrange(n as int, j as int) =~= old(buf)@.subrange(n as int, j - 1)
            + seq![old(buf)@[j - 1]]);
    }
    *buf = rest;
    front
}

/// The stateful frame demultiplexer for one open session of a device.
///
/// It holds the bytes read but not yet resolved into a frame.  Its view is
/// that buffer; a fresh demultiplexer starts empty, and a session's buffer is
/// never carried across a reconnect.
pub struct Demux {
    buf: Vec<u8>,
}

impl View for Demux {
    type V = Seq<u8>;

    closed spec fn view(&self) -> Seq<u8> {
        self.buf@
    }
}

impl Demux {
    /// A fresh demultiplexer with an empty buffer.
    pub fn new() -> (d: Demux)
        ensures
            d@ == Seq::<u8>::empty(),
    {
        Demux { buf: Vec::new() }
    }

    /// Discards the buffer, as a reconnect must: a fresh open session starts
    /// a fresh byte stream.
    pub fn reset(&mut self)
        ensures
            final(self)@ == Seq::<u8>::empty(),
    {
        self.buf.clear();
    }

    /// Appends newly read bytes and extracts every frame that is now
    /// complete, in stream order.
    ///
    /// The frames returned are exactly those of the buffered bytes followed
    /// by `chunk`, and what stays buffered is their residue — so any chunking
    /// of a stream yields the same frames (see [`lemma_demux_extend`]).
    pub fn feed(&mut self, chunk: &[u8]) -> (frames: Vec<RawFrame>)
        ensures
            frames@.map_values(|f: RawFrame| f@) == demux_frames(old(self)@ + chunk@),
            final(self)@ == demux_residue(old(self)@ + chunk@),
    {
        append_bytes(&mut self.buf, chunk);
        let ghost whole = self.buf@;
        let mut frames: Vec<RawFrame> = Vec::new();
        loop
            invariant
                demux_frames(whole) == frames@.map_values(|f: RawFrame| f@) + demux_frames(
                    self.buf@,
                ),
                demux_residue(whole) == demux_residue(self.buf@),
            ensures
                demux_waits(self.buf@),
            decreases self.buf@.len(),
        {
            let ghost pre = self.buf@;
            let ghost fpre = frames@;
            if self.buf.len() == 0 {
                break ;
            }
            if self.buf[0] == JSON_OPEN {
                match find_newline(&self.buf) {
                    Some(p) => {
                        let mut line = take_front(&mut self.buf, p + 1);
                        line.pop();
                        assert(line@ =~= pre.subrange(0, p as int));
                        frames.push(RawFrame::Json(line));
                        proof {
                            assert(frames@.map_values(|f: RawFrame| f@) =~= fpre.map_values(
                                |f: RawFrame| f@,
                            ) + seq![FrameModel::Json(pre.subrange(0, p as int))]);
                            assert(demux_frames(whole) =~= frames@.map_values(|f: RawFrame| f@)
                                + demux_frames(self.buf@));
                        }
                    },
                    None => {
                        break ;
                    },
                }
            } else if self.buf.len() < 2 {
                break ;
            } else {
                let l = (self.buf[0] as usize) + 256 * (self.buf[1] as usize);
                if l == 0 || l > MAX_FRAME_LEN {
                    let _ = take_front(&mut self.buf, 1);
                } else if self.buf.len() < l + 2 {
                    break ;
                } else {
                    let _ = take_front(&mut self.buf, 2);
                    let payload = take_front(&mut self.buf, l);
                    assert(payload@ =~= pre.subrange(2, l + 2));
                    assert(self.buf@ =~= pre.skip(l + 2));
                    frames.push(RawFrame::Binary(payload));
                    proof {
                        assert(frames@.map_values(|f: RawFrame| f@) =~= fpre.map_values(
                            |f: RawFrame| f@,
                        ) + seq![FrameModel::Binary(pre.subrange(2, l + 2))]);
                        assert(demux_frames(whole) =~= frames@.map_values(|f: RawFrame| f@)
                            + demux_frames(self.buf@));
                    }
                }
            }
        }
        proof {
            lemma_residue_waits(self.buf@);
            assert(frames@.map_values(|f: RawFrame| f@) =~= frames@.map_values(|f: RawFrame| f@)
                + demux_frames(self.buf@));
        }
        frames
    }
}

} // verus!
