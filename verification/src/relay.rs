//! The relay transport: a file sent through the signaling connection.
//!
//! The connection delivers in order and without loss, so there is no
//! acknowledgment here. The sender announces the file with `file_metadata`,
//! sends its bytes in binary frames, and ends with `file_end`. The receiver
//! is armed by the announcement, appends each binary frame to the file, and
//! puts the file to rest at the end.

use crate::datagram::chunking::{chunk_at, lemma_chunk_bounds};
use crate::json::{json_elements, json_parse};
use crate::plain_name::{is_plain_name, lemma_plain_name_is_plain, plain_name, plain_name_spec};
use crate::signaling::{
    decode_message, decode_spec, lemma_status_is_no_type, fields_of, text_is, text_member,
    MessageView, SignalingMessage,
};
use vstd::prelude::*;
use vstd::slice::{slice_subrange, slice_to_vec};

verus! {

/// The recommended size of a binary frame.
pub const RELAY_CHUNK_SIZE: usize = 64 * 1024;

/// The file is synced to disk whenever the count of its bytes passes a
/// multiple of this.
pub const SYNC_CADENCE: u64 = 5 * 1024 * 1024;

/// The number of binary frames that carry `len` bytes in chunks of `chunk`:
/// one for each full chunk, and one more for what is left, if anything is.
pub open spec fn frame_count(len: int, chunk: int) -> int {
    if len % chunk == 0 {
        len / chunk
    } else {
        len / chunk + 1
    }
}

/// The binary frames of a file: full chunks, and a shorter last one for what
/// is left. An empty file has no frames.
pub open spec fn frames_spec(content: Seq<u8>, chunk: int) -> Seq<Seq<u8>> {
    Seq::new(frame_count(content.len() as int, chunk) as nat, |k: int| chunk_at(content, chunk, k))
}

/// The views of a vector of frames.
pub open spec fn frame_views(frames: Seq<Vec<u8>>) -> Seq<Seq<u8>> {
    frames.map_values(|f: Vec<u8>| f@)
}

/// The frames cover the content and no more: there is none for an empty
/// file, and the last one begins inside the content.
pub proof fn lemma_frame_count(len: int, chunk: int)
    requires
        0 <= len,
        0 < chunk,
    ensures
        0 <= frame_count(len, chunk),
        frame_count(len, chunk) == 0 <==> len == 0,
        len <= frame_count(len, chunk) * chunk,
        len > 0 ==> (frame_count(len, chunk) - 1) * chunk < len,
{
    vstd::arithmetic::div_mod::lemma_fundamental_div_mod(len, chunk);
    let q = len / chunk;
    let r = len % chunk;
    assert(chunk * q == q * chunk) by (nonlinear_arith);
    assert((q + 1) * chunk == q * chunk + chunk) by (nonlinear_arith);
    assert((q - 1) * chunk == q * chunk - chunk) by (nonlinear_arith);
    assert(0 <= q) by (nonlinear_arith)
        requires
            0 <= len,
            0 < chunk,
            len == q * chunk + r,
            0 <= r < chunk,
    ;
    if q == 0 {
        assert(q * chunk == 0) by (nonlinear_arith)
            requires
                q == 0,
        ;
    }
}

/// Where the frames lie: frame `k` is not empty, and it is shorter than
/// `chunk` only if it is the last.
pub proof fn lemma_frame_bounds(len: int, chunk: int, k: int)
    requires
        0 <= len,
        0 < chunk,
        0 <= k < frame_count(len, chunk),
    ensures
        0 <= k * chunk < len,
        k + 1 < frame_count(len, chunk) ==> k * chunk + chunk <= len,
        k + 1 == frame_count(len, chunk) ==> len <= k * chunk + chunk,
{
    lemma_frame_count(len, chunk);
    let n = frame_count(len, chunk);
    assert(0 <= k * chunk) by (nonlinear_arith)
        requires
            0 <= k,
            0 < chunk,
    ;
    assert(k * chunk <= (n - 1) * chunk) by (nonlinear_arith)
        requires
            k <= n - 1,
            0 < chunk,
    ;
    assert((n - 1) * chunk + chunk == n * chunk) by (nonlinear_arith);
    assert(k * chunk + chunk == (k + 1) * chunk) by (nonlinear_arith);
    if k + 1 < n {
        assert((k + 1) * chunk <= (n - 1) * chunk) by (nonlinear_arith)
            requires
                k + 1 <= n - 1,
                0 < chunk,
        ;
    }
}

/// Cuts a file's content into binary frames of `chunk_size` bytes, the last
/// one shorter where the content is no whole number of chunks. `None` where
/// the chunk size is zero.
pub fn relay_frames(content: &[u8], chunk_size: usize) -> (r: Option<Vec<Vec<u8>>>)
    ensures
        r is Some <==> chunk_size > 0,
        r matches Some(frames) ==> frame_views(frames@) == frames_spec(
            content@,
            chunk_size as int,
        ),
{
    if chunk_size == 0 {
        return None;
    }
    let len = content.len();
    let ghost plan = frames_spec(content@, chunk_size as int);
    let mut frames: Vec<Vec<u8>> = Vec::new();
    let mut start: usize = 0;
    let ghost mut k: int = 0;
    assert(frame_views(frames@) =~= plan.take(0));
    proof {
        lemma_frame_count(len as int, chunk_size as int);
        assert(0 * chunk_size == 0);
    }
    while start < len
        invariant
            len == content@.len(),
            chunk_size > 0,
            plan == frames_spec(content@, chunk_size as int),
            0 <= k <= plan.len(),
            start == if k < plan.len() {
                k * chunk_size
            } else {
                len as int
            },
            frame_views(frames@) == plan.take(k),
        decreases plan.len() - k,
    {
        proof {
            lemma_frame_count(len as int, chunk_size as int);
            lemma_frame_bounds(len as int, chunk_size as int, k);
        }
        let end = if len - start > chunk_size {
            start + chunk_size
        } else {
            len
        };
        let frame = slice_to_vec(slice_subrange(content, start, end));
        assert(frame@ == plan[k]);
        let ghost before = frames@;
        frames.push(frame);
        proof {
            assert(frame_views(frames@) =~= frame_views(before).push(frame@));
            assert(plan.take(k + 1) =~= plan.take(k).push(plan[k]));
            assert((k + 1) * chunk_size == k * chunk_size + chunk_size) by (nonlinear_arith);
            k = k + 1;
        }
        start = end;
    }
    proof {
        if k < plan.len() {
            lemma_frame_bounds(len as int, chunk_size as int, k);
        }
        assert(plan.take(k) =~= plan);
    }
    Some(frames)
}

/// The frames put together are the content again: every byte is delivered
/// once and in its place.
pub proof fn lemma_frames_carry_content(content: Seq<u8>, chunk: int)
    requires
        0 < chunk,
    ensures
        frames_spec(content, chunk).flatten() == content,
{
    let frames = frames_spec(content, chunk);
    let len = content.len() as int;
    assert forall|k: int| 0 <= k <= frames.len() implies #[trigger] frames.take(k).flatten()
        == content.take(if k < frames.len() {
        k * chunk
    } else {
        len
    }) by {
        lemma_frames_prefix(content, chunk, k);
    }
    assert(frames.take(frames.len() as int) =~= frames);
    assert(content.take(len) =~= content);
}

/// The first `k` frames put together are the content up to where frame `k`
/// begins.
pub proof fn lemma_frames_prefix(content: Seq<u8>, chunk: int, k: int)
    requires
        0 < chunk,
        0 <= k <= frames_spec(content, chunk).len(),
    ensures
        frames_spec(content, chunk).take(k).flatten() == content.take(
            if k < frames_spec(content, chunk).len() {
                k * chunk
            } else {
                content.len() as int
            },
        ),
    decreases k,
{
    let frames = frames_spec(content, chunk);
    let len = content.len() as int;
    lemma_frame_count(len, chunk);
    if k == 0 {
        assert(frames.take(0) =~= Seq::<Seq<u8>>::empty());
        assert(0 * chunk == 0) by (nonlinear_arith);
        assert(content.take(0) =~= Seq::<u8>::empty());
    } else {
        lemma_frames_prefix(content, chunk, k - 1);
        lemma_frame_bounds(len, chunk, k - 1);
        assert(frames.take(k) =~= frames.take(k - 1).push(frames[k - 1]));
        frames.take(k - 1).lemma_flatten_push(frames[k - 1]);
        assert((k - 1) * chunk + chunk == k * chunk) by (nonlinear_arith);
        let end = if k < frames.len() {
            k * chunk
        } else {
            len
        };
        assert(content.take((k - 1) * chunk) + chunk_at(content, chunk, k - 1) =~= content.take(
            end,
        ));
    }
}

/// Where a relay sender stands: how much of which file it has sent.
pub struct RelaySender {
    name: String,
    size: u64,
    sent: u64,
    ended: bool,
}

/// What a [`RelaySender`] holds.
pub ghost struct RelaySenderView {
    pub name: Seq<char>,
    pub size: u64,
    pub sent: u64,
    pub ended: bool,
}

/// What the sending caller does with the bytes it has just read.
#[derive(Debug, Clone, PartialEq, Eq)]
pub enum RelaySendAction {
    /// Send the bytes as one binary frame; `sent` is the number of bytes
    /// sent with it, all frames together.
    Frame { sent: u64 },
    /// The file is read to its end: send this `file_end` message.
    End(SignalingMessage),
    /// The file was ended before: send nothing.
    Closed,
}

/// The sum of two counts, held at `u64::MAX` where it would go beyond.
pub open spec fn capped_sum(a: u64, n: int) -> u64 {
    if a + n > u64::MAX {
        u64::MAX
    } else {
        (a + n) as u64
    }
}

impl RelaySenderView {
    /// The state after the caller has read `len` bytes more, none at the end
    /// of the file.
    pub open spec fn on_chunk(self, len: int) -> RelaySenderView {
        if self.ended {
            self
        } else if len == 0 {
            RelaySenderView { name: self.name, size: self.size, sent: self.sent, ended: true }
        } else {
            RelaySenderView {
                name: self.name,
                size: self.size,
                sent: capped_sum(self.sent, len),
                ended: false,
            }
        }
    }
}

impl View for RelaySender {
    type V = RelaySenderView;

    closed spec fn view(&self) -> RelaySenderView {
        RelaySenderView { name: self.name@, size: self.size, sent: self.sent, ended: self.ended }
    }
}

impl RelaySender {
    /// Begins the sending of a file. The message is the `file_metadata` that
    /// announces it, to be sent before any frame.
    pub fn begin(name: String, size: u64) -> (r: (RelaySender, SignalingMessage))
        ensures
            r.0@ == (RelaySenderView { name: name@, size, sent: 0, ended: false }),
            r.1@ == (MessageView::FileMetadata { name: name@, size }),
    {
        let announced = name.clone();
        (
            RelaySender { name, size, sent: 0, ended: false },
            SignalingMessage::FileMetadata { name: announced, size },
        )
    }

    /// The number of bytes sent so far.
    pub fn sent(&self) -> (n: u64)
        ensures
            n == self@.sent,
    {
        self.sent
    }

    /// The size that was announced.
    pub fn size(&self) -> (n: u64)
        ensures
            n == self@.size,
    {
        self.size
    }

    /// Takes note of what the caller has read from the file: `len` bytes, or
    /// none at its end.
    ///
    /// Bytes go out as one binary frame and are counted. The end of the file
    /// is answered with the `file_end` message, once.
    pub fn on_chunk(&mut self, len: usize) -> (action: RelaySendAction)
        ensures
            final(self)@ == old(self)@.on_chunk(len as int),
            match action {
                RelaySendAction::Frame { sent } => {
                    &&& !old(self)@.ended
                    &&& len > 0
                    &&& sent == final(self)@.sent
                },
                RelaySendAction::End(m) => {
                    &&& !old(self)@.ended
                    &&& len == 0
                    &&& m@ == (MessageView::FileEnd { name: old(self)@.name })
                },
                RelaySendAction::Closed => old(self)@.ended,
            },
    {
        if self.ended {
            RelaySendAction::Closed
        } else if len == 0 {
            self.ended = true;
            RelaySendAction::End(SignalingMessage::FileEnd { name: self.name.clone() })
        } else {
            let n = len as u64;
            self.sent = if n > u64::MAX - self.sent {
                u64::MAX
            } else {
                self.sent + n
            };
            RelaySendAction::Frame { sent: self.sent }
        }
    }
}

/// Where a relay receiver stands.
#[derive(Debug, Clone, Copy, PartialEq, Eq, Structural)]
pub enum RelayPhase {
    /// No file is open.
    Idle,
    /// A file was announced and is being written.
    Armed,
    /// The connection ended while no file was open.
    Ended,
    /// The connection ended while a file was open: the file is incomplete.
    /// It stays where it is.
    Failed,
}

/// What the receiving caller does after a frame.
#[derive(Debug, Clone, Copy, PartialEq, Eq, Structural)]
pub enum RelayAction {
    /// Create the announced file in the destination directory, which is
    /// created if it is not there. A file that was open is closed as it is.
    Create,
    /// Append the frame's bytes to the open file, and sync it if `sync`.
    Append { sync: bool },
    /// Sync and close the open file: it is complete.
    Finalize,
    /// Do nothing. The frame may be logged.
    Ignore,
    /// Stop reading: the session is over.
    Stop,
}

/// A frame as it comes from the signaling connection.
pub enum Frame<'a> {
    /// A text frame: a signaling message.
    Text(&'a str),
    /// A binary frame: bytes of the file.
    Binary(&'a [u8]),
    /// The connection was closed, or failed.
    Close,
}

/// The state of the receiving side of a relay.
pub struct RelayReceiver {
    phase: RelayPhase,
    name: String,
    expected: u64,
    received: u64,
}

/// What a [`RelayReceiver`] holds: the phase and, of the file that was
/// announced last, the name it is written under, the announced size and the
/// bytes received.
pub ghost struct RelayReceiverView {
    pub phase: RelayPhase,
    pub name: Seq<char>,
    pub expected: u64,
    pub received: u64,
}

/// Whether a count that grows from `before` to `after` passes a multiple of
/// [`SYNC_CADENCE`], or comes to lie on one.
pub open spec fn passes_cadence(before: u64, after: u64) -> bool {
    after / SYNC_CADENCE > before / SYNC_CADENCE
}

impl RelayReceiverView {
    /// What holds of every receiver: the name of an open file is a plain
    /// file name, so that the file lies in the destination directory.
    pub open spec fn wf(self) -> bool {
        self.phase == RelayPhase::Armed ==> is_plain_name(self.name)
    }

    /// A receiver before the first frame.
    pub open spec fn start() -> RelayReceiverView {
        RelayReceiverView { phase: RelayPhase::Idle, name: Seq::empty(), expected: 0, received: 0 }
    }

    /// Whether the session is over.
    pub open spec fn is_over(self) -> bool {
        self.phase == RelayPhase::Ended || self.phase == RelayPhase::Failed
    }

    /// This state in another phase.
    pub open spec fn in_phase(self, phase: RelayPhase) -> RelayReceiverView {
        RelayReceiverView {
            phase,
            name: self.name,
            expected: self.expected,
            received: self.received,
        }
    }

    /// The state after the connection ended: failed if a file was open.
    pub open spec fn closed(self) -> RelayReceiverView {
        if self.is_over() {
            self
        } else if self.phase == RelayPhase::Armed {
            self.in_phase(RelayPhase::Failed)
        } else {
            self.in_phase(RelayPhase::Ended)
        }
    }

    /// The state after a signaling message, and what to do.
    pub open spec fn on_message(self, m: MessageView) -> (RelayReceiverView, RelayAction) {
        if self.is_over() {
            (self, RelayAction::Stop)
        } else {
            match m {
                MessageView::FileMetadata { name, size } => (
                    RelayReceiverView {
                        phase: RelayPhase::Armed,
                        name: plain_name_spec(name),
                        expected: size,
                        received: 0,
                    },
                    RelayAction::Create,
                ),
                MessageView::FileEnd { .. } => if self.phase == RelayPhase::Armed {
                    (self.in_phase(RelayPhase::Idle), RelayAction::Finalize)
                } else {
                    (self, RelayAction::Ignore)
                },
                MessageView::RelayControl { action } => if action == "end"@ {
                    (self.closed(), RelayAction::Stop)
                } else {
                    (self, RelayAction::Ignore)
                },
                _ => (self, RelayAction::Ignore),
            }
        }
    }

    /// The state after a binary frame of `len` bytes, and what to do.
    pub open spec fn on_binary(self, len: int) -> (RelayReceiverView, RelayAction) {
        if self.is_over() {
            (self, RelayAction::Stop)
        } else if self.phase == RelayPhase::Armed {
            let received = capped_sum(self.received, len);
            (
                RelayReceiverView {
                    phase: RelayPhase::Armed,
                    name: self.name,
                    expected: self.expected,
                    received,
                },
                RelayAction::Append { sync: passes_cadence(self.received, received) },
            )
        } else {
            (self, RelayAction::Ignore)
        }
    }

    /// The state after the connection ended, and what to do.
    pub open spec fn on_close(self) -> (RelayReceiverView, RelayAction) {
        (self.closed(), RelayAction::Stop)
    }

    /// The state after the open file could not be created or written: the
    /// file is given up and the session goes on.
    pub open spec fn on_write_failed(self) -> RelayReceiverView {
        if self.phase == RelayPhase::Armed {
            self.in_phase(RelayPhase::Idle)
        } else {
            self
        }
    }

    /// The state after a frame, and what to do. A text that is no signaling
    /// message is passed over.
    pub open spec fn on_frame(self, frame: Frame) -> (RelayReceiverView, RelayAction) {
        match frame {
            Frame::Text(t) => match decode_spec(t@) {
                Ok(m) => self.on_message(m),
                Err(_) => if self.is_over() {
                    (self, RelayAction::Stop)
                } else {
                    (self, RelayAction::Ignore)
                },
            },
            Frame::Binary(b) => self.on_binary(b@.len() as int),
            Frame::Close => self.on_close(),
        }
    }
}

impl View for RelayReceiver {
    type V = RelayReceiverView;

    closed spec fn view(&self) -> RelayReceiverView {
        RelayReceiverView {
            phase: self.phase,
            name: self.name@,
            expected: self.expected,
            received: self.received,
        }
    }
}

impl RelayReceiver {
    /// While a file is open, its name is a plain file name.
    #[verifier::type_invariant]
    spec fn armed_name_is_plain(self) -> bool {
        self.phase == RelayPhase::Armed ==> is_plain_name(self.name@)
    }

    /// A receiver before the first frame.
    pub fn new() -> (r: RelayReceiver)
        ensures
            r@ == RelayReceiverView::start(),
            r@.wf(),
    {
        RelayReceiver { phase: RelayPhase::Idle, name: String::new(), expected: 0, received: 0 }
    }

    /// The phase.
    pub fn phase(&self) -> (phase: RelayPhase)
        ensures
            phase == self@.phase,
    {
        self.phase
    }

    /// The name under which the file that was announced last is written.
    /// While the file is open this is a plain file name: joined to a
    /// directory it names a file in that directory.
    pub fn file_name(&self) -> (name: &String)
        ensures
            name@ == self@.name,
            self@.wf(),
            self@.phase == RelayPhase::Armed ==> is_plain_name(name@),
    {
        proof {
            use_type_invariant(self);
        }
        &self.name
    }

    /// The size that was announced for it.
    pub fn expected(&self) -> (n: u64)
        ensures
            n == self@.expected,
    {
        self.expected
    }

    /// The number of its bytes received so far.
    pub fn received(&self) -> (n: u64)
        ensures
            n == self@.received,
    {
        self.received
    }

    /// Whether the session is over.
    fn is_over(&self) -> (over: bool)
        ensures
            over == self@.is_over(),
    {
        match self.phase {
            RelayPhase::Ended => true,
            RelayPhase::Failed => true,
            _ => false,
        }
    }

    /// Whether a file is open.
    fn is_armed(&self) -> (armed: bool)
        ensures
            armed == (self@.phase == RelayPhase::Armed),
    {
        match self.phase {
            RelayPhase::Armed => true,
            _ => false,
        }
    }

    /// Takes a signaling message.
    ///
    /// `file_metadata` opens the announced file, under the plain name that
    /// [`plain_name`] makes of the announced one. `file_end` completes the
    /// open file. `relay_control` with the action `end` ends the session as
    /// a closed connection does. Every other message is passed over.
    pub fn on_message(&mut self, message: &SignalingMessage) -> (action: RelayAction)
        ensures
            (final(self)@, action) == old(self)@.on_message(message@),
            final(self)@.wf(),
    {
        proof {
            use_type_invariant(&*self);
        }
        if self.is_over() {
            return RelayAction::Stop;
        }
        match message {
            SignalingMessage::FileMetadata { name, size } => {
                self.name = plain_name(name.as_str());
                self.expected = *size;
                self.received = 0;
                self.phase = RelayPhase::Armed;
                RelayAction::Create
            },
            SignalingMessage::FileEnd { .. } => {
                if self.is_armed() {
                    self.phase = RelayPhase::Idle;
                    RelayAction::Finalize
                } else {
                    RelayAction::Ignore
                }
            },
            SignalingMessage::RelayControl { action } => {
                if text_is(action, "end") {
                    self.on_close()
                } else {
                    RelayAction::Ignore
                }
            },
            _ => RelayAction::Ignore,
        }
    }

    /// Takes a binary frame of `len` bytes.
    ///
    /// While a file is open the bytes are to be appended to it, and they are
    /// counted. The file is to be synced whenever the count passes a
    /// multiple of [`SYNC_CADENCE`] or comes to lie on one, whatever the
    /// lengths of the frames. Without an open file the frame belongs to
    /// nothing and is passed over.
    pub fn on_binary(&mut self, len: usize) -> (action: RelayAction)
        ensures
            (final(self)@, action) == old(self)@.on_binary(len as int),
            final(self)@.wf(),
    {
        proof {
            use_type_invariant(&*self);
        }
        if self.is_over() {
            return RelayAction::Stop;
        }
        if self.is_armed() {
            let n = len as u64;
            let before = self.received;
            self.received = if n > u64::MAX - before {
                u64::MAX
            } else {
                before + n
            };
            RelayAction::Append { sync: self.received / SYNC_CADENCE > before / SYNC_CADENCE }
        } else {
            RelayAction::Ignore
        }
    }

    /// Takes note that the connection ended.
    ///
    /// With a file open the outcome is `Failed`; the partial file is kept.
    pub fn on_close(&mut self) -> (action: RelayAction)
        ensures
            (final(self)@, action) == old(self)@.on_close(),
            final(self)@.wf(),
    {
        proof {
            use_type_invariant(&*self);
        }
        if !self.is_over() {
            if self.is_armed() {
                self.phase = RelayPhase::Failed;
            } else {
                self.phase = RelayPhase::Ended;
            }
        }
        RelayAction::Stop
    }

    /// Takes note that the open file could not be created or written: it is
    /// given up, and later frames for it are passed over.
    pub fn on_write_failed(&mut self)
        ensures
            final(self)@ == old(self)@.on_write_failed(),
            final(self)@.wf(),
    {
        proof {
            use_type_invariant(&*self);
        }
        if self.is_armed() {
            self.phase = RelayPhase::Idle;
        }
    }

    /// Takes a frame of either kind, or the end of the connection.
    ///
    /// Text is read as a signaling message; a text that is none is passed
    /// over and the session goes on. Binary frames go to the open file.
    pub fn on_frame(&mut self, frame: Frame) -> (action: RelayAction)
        ensures
            (final(self)@, action) == old(self)@.on_frame(frame),
            final(self)@.wf(),
    {
        proof {
            use_type_invariant(&*self);
        }
        match frame {
            Frame::Text(t) => match decode_message(t) {
                Ok(m) => self.on_message(&m),
                Err(_) => {
                    if self.is_over() {
                        RelayAction::Stop
                    } else {
                        RelayAction::Ignore
                    }
                },
            },
            Frame::Binary(b) => self.on_binary(b.len()),
            Frame::Close => self.on_close(),
        }
    }
}

/// Whatever arrives, the name of an open file is a plain file name.
pub proof fn lemma_relay_keeps_wf(s: RelayReceiverView, frame: Frame)
    requires
        s.wf(),
    ensures
        s.on_frame(frame).0.wf(),
        s.on_write_failed().wf(),
{
    match frame {
        Frame::Text(t) => {
            match decode_spec(t@) {
                Ok(MessageView::FileMetadata { name, size }) => {
                    lemma_plain_name_is_plain(name);
                },
                _ => {},
            }
        },
        _ => {},
    }
}

/// A text frame arms, completes or ends only as `file_metadata`, `file_end`
/// or `relay_control`. Every other text, be it no JSON, no message or
/// another message, is passed over: the state stays as it is, an open file
/// and its count with it, and the session goes on.
pub proof fn lemma_other_text_is_ignored(s: RelayReceiverView, frame: Frame)
    requires
        !s.is_over(),
        frame is Text,
        decode_spec(frame->Text_0@) matches Ok(m) ==> !(m is FileMetadata || m is FileEnd
            || m is RelayControl),
    ensures
        s.on_frame(frame) == (s, RelayAction::Ignore),
{
}

/// An object without a `type` member is passed over, whatever its `status`
/// and its other members say.
pub proof fn lemma_untyped_object_is_ignored(
    s: RelayReceiverView,
    frame: Frame,
    v: serde_json::Value,
)
    requires
        !s.is_over(),
        frame is Text,
        json_parse(frame->Text_0@) == Some(v),
        json_elements(v) is None,
        text_member(v, "type"@) is None,
    ensures
        s.on_frame(frame) == (s, RelayAction::Ignore),
{
    lemma_status_is_no_type(fields_of(v));
}

/// The file is synced at every cadence: whenever a multiple of
/// [`SYNC_CADENCE`] lies behind the old count and not behind the new one, the
/// frame that brings the count there is to be synced, and no other is.
pub proof fn lemma_sync_at_every_cadence(before: u64, after: u64, k: int)
    requires
        before <= after,
    ensures
        before < k * SYNC_CADENCE <= after ==> passes_cadence(before, after),
        passes_cadence(before, after) ==> before < (after / SYNC_CADENCE) * SYNC_CADENCE <= after,
{
    let c: int = 5242880;
    assert(SYNC_CADENCE == c);
    let qb = before as int / c;
    let qa = after as int / c;
    assert(before == c * qb + before as int % c);
    assert(after == c * qa + after as int % c);
    assert(k * SYNC_CADENCE == c * k);
    assert((after / SYNC_CADENCE) * SYNC_CADENCE == c * qa);
    if before < c * k && c * k <= after {
        assert(qb < k && k <= qa);
    }
    if qa > qb {
        assert(c * qa >= c * (qb + 1));
    }
}

/// Once the session is over, no frame changes anything and each is answered
/// with `Stop`.
pub proof fn lemma_over_is_final(s: RelayReceiverView, frame: Frame)
    requires
        s.is_over(),
    ensures
        s.on_frame(frame) == (s, RelayAction::Stop),
        s.on_write_failed() == s,
{
}

/// The end of the connection is a failure exactly when a file is open, and
/// it leaves the file's name and count as they are.
pub proof fn lemma_close_while_armed_fails(s: RelayReceiverView)
    requires
        !s.is_over(),
    ensures
        s.on_close().0.phase == if s.phase == RelayPhase::Armed {
            RelayPhase::Failed
        } else {
            RelayPhase::Ended
        },
        s.on_close().0.name == s.name,
        s.on_close().0.received == s.received,
{
}

} // verus!
