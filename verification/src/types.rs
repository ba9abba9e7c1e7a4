//! Descriptor entries and the per-kind state they carry.
use vstd::prelude::*;
use crate::poll::{PollEvents, FdFlags, FdKind, poll_hup};
use crate::json::{JsonValue, JsonNumber, JsonNum};
use std::collections::{HashMap, HashSet, VecDeque};
use std::time::Duration;
use vstd::std_specs::iter::IteratorSpec;

verus! {

broadcast use vstd::std_specs::hash::group_hash_axioms;

// ---------------------------------------------------------------------------
// Epoll
// ---------------------------------------------------------------------------

/// The interest list of an epoll descriptor with its change counter.
///
/// Every change to the interest list, every notification and closing bump
/// the counter (wrapping), so a waiter that remembers the counter can tell
/// whether anything happened since.
#[derive(Debug)]
pub struct EpollState {
    pub watch: HashMap<i32, PollEvents>,
    pub seq: u64,
    pub closed: bool,
}

impl EpollState {
    /// The interest list: watched descriptor to the events of interest.
    pub open spec fn spec_watch(&self) -> Map<i32, PollEvents> {
        self.watch@
    }

    /// The change counter.
    pub open spec fn spec_seq(&self) -> u64 {
        self.seq
    }

    /// Whether the epoll descriptor has been closed.
    pub open spec fn spec_closed(&self) -> bool {
        self.closed
    }

    /// An open epoll state with an empty interest list and counter 0.
    pub fn new() -> (r: Self)
        ensures
            r.spec_watch() == Map::<i32, PollEvents>::empty(),
            r.spec_seq() == 0,
            !r.spec_closed(),
    {
        EpollState { watch: HashMap::new(), seq: 0, closed: false }
    }

    /// Signals a readiness change to waiters.
    pub fn notify(&mut self)
        ensures
            *final(self) == (EpollState { seq: old(self).seq.wrapping_add(1), ..*old(self) }),
    {
        self.seq = self.seq.wrapping_add(1);
    }

    /// A copy of the interest list.
    pub fn snapshot_watch(&self) -> (r: HashMap<i32, PollEvents>)
        ensures
            r@ == self.spec_watch(),
    {
        self.watch.clone()
    }

    /// Adds `fd` with interest `events` (replacing an earlier interest).
    pub fn ctl_add(&mut self, fd: i32, events: PollEvents)
        ensures
            final(self).spec_watch() == old(self).spec_watch().insert(fd, events),
            final(self).spec_closed() == old(self).spec_closed(),
            final(self).spec_seq() == old(self).spec_seq().wrapping_add(1),
    {
        self.watch.insert(fd, events);
        self.seq = self.seq.wrapping_add(1);
    }

    /// Changes the interest of `fd` (adding it when absent).
    pub fn ctl_mod(&mut self, fd: i32, events: PollEvents)
        ensures
            final(self).spec_watch() == old(self).spec_watch().insert(fd, events),
            final(self).spec_closed() == old(self).spec_closed(),
            final(self).spec_seq() == old(self).spec_seq().wrapping_add(1),
    {
        self.watch.insert(fd, events);
        self.seq = self.seq.wrapping_add(1);
    }

    /// Removes `fd` from the interest list.
    pub fn ctl_del(&mut self, fd: i32)
        ensures
            final(self).spec_watch() == old(self).spec_watch().remove(fd),
            final(self).spec_closed() == old(self).spec_closed(),
            final(self).spec_seq() == old(self).spec_seq().wrapping_add(1),
    {
        self.watch.remove(&fd);
        self.seq = self.seq.wrapping_add(1);
    }

    /// The watched descriptors, each once, in no particular order.
    pub fn list_watched_fds(&self) -> (r: Vec<i32>)
        ensures
            r@.to_set() == self.spec_watch().dom(),
            r@.no_duplicates(),
    {
        let mut out: Vec<i32> = Vec::new();
        let ghost ks = vstd::std_specs::hash::spec_keys_iter(&self.watch).remaining();
        for k in it: self.watch.keys()
            invariant
                it.seq() == ks,
                out@.len() == it.index(),
                forall|j: int| 0 <= j < it.index() ==> out@[j] == *ks[j],
        {
            out.push(*k);
        }
        proof {
            assert(out@.len() == ks.len());
            assert(out@ =~= ks.unref());
        }
        out
    }

    /// Marks the epoll descriptor closed.
    pub fn mark_closed(&mut self)
        ensures
            *final(self) == (EpollState { closed: true, seq: old(self).seq.wrapping_add(1), ..*old(self) }),
    {
        self.closed = true;
        self.seq = self.seq.wrapping_add(1);
    }

    /// Whether a change happened since the counter value `last_seq` (or the
    /// epoll descriptor is closed).
    ///
    /// The state is borrowed for the whole call, so nothing can change it
    /// while the call lasts: a bounded wait ends with the answer it started
    /// with. An unbounded wait with nothing changed would never return and is
    /// left out by the precondition.
    pub fn wait_for_change(&self, last_seq: u64, timeout: Option<Duration>) -> (r: bool)
        requires
            timeout.is_some() || self.spec_closed() || self.spec_seq() != last_seq,
        ensures
            r == (self.spec_closed() || self.spec_seq() != last_seq),
    {
        if self.closed {
            return true;
        }
        if self.seq != last_seq {
            return true;
        }
        false
    }

    /// The change counter.
    pub fn current_seq(&self) -> (r: u64)
        ensures
            r == self.spec_seq(),
    {
        self.seq
    }

    /// The events of interest of `fd`, if it is watched.
    pub fn interest_of(&self, fd: i32) -> (r: Option<PollEvents>)
        ensures
            r == (if self.spec_watch().contains_key(fd) { Some(self.spec_watch()[fd]) } else { None }),
    {
        match self.watch.get(&fd) {
            Some(e) => Some(*e),
            None => None,
        }
    }

    /// Whether `fd` is watched.
    pub fn is_watching(&self, fd: i32) -> (r: bool)
        ensures
            r == self.spec_watch().contains_key(fd),
    {
        self.watch.contains_key(&fd)
    }
}

// ---------------------------------------------------------------------------
// Byte accounting of queues
// ---------------------------------------------------------------------------

/// Total length of a sequence of byte frames.
pub open spec fn frames_bytes(q: Seq<Vec<u8>>) -> nat
    decreases q.len(),
{
    if q.len() == 0 {
        0
    } else {
        frames_bytes(q.drop_last()) + q.last()@.len()
    }
}

/// Appending a frame adds its length.
pub proof fn lemma_frames_bytes_push(q: Seq<Vec<u8>>, x: Vec<u8>)
    ensures
        frames_bytes(q.push(x)) == frames_bytes(q) + x@.len(),
{
    assert(q.push(x).drop_last() =~= q);
}

/// Removing the first frame subtracts its length.
pub proof fn lemma_frames_bytes_drop_first(q: Seq<Vec<u8>>)
    requires
        q.len() > 0,
    ensures
        frames_bytes(q) == q[0]@.len() + frames_bytes(q.drop_first()),
    decreases q.len(),
{
    if q.len() > 1 {
        lemma_frames_bytes_drop_first(q.drop_last());
        assert(q.drop_last().drop_first() =~= q.drop_first().drop_last());
    } else {
        assert(q.drop_last() =~= Seq::<Vec<u8>>::empty());
        assert(q.drop_first() =~= Seq::<Vec<u8>>::empty());
    }
}

/// A copy of a byte slice.
pub fn bytes_to_vec(b: &[u8]) -> (r: Vec<u8>)
    ensures
        r@ == b@,
{
    let mut out: Vec<u8> = Vec::new();
    let mut i: usize = 0;
    while i < b.len()
        invariant
            0 <= i <= b.len(),
            out@ == b@.subrange(0, i as int),
        decreases b.len() - i,
    {
        out.push(b[i]);
        i = i + 1;
        assert(out@ =~= b@.subrange(0, i as int));
    }
    assert(b@.subrange(0, b.len() as int) =~= b@);
    out
}

// ---------------------------------------------------------------------------
// Chat
// ---------------------------------------------------------------------------

/// A chat message: its role, its content, and for tool results the call
/// it answers and the tool's name.
#[derive(Debug)]
pub struct ChatMessage {
    pub role: String,
    pub content: JsonValue,
    pub tool_call_id: Option<String>,
    pub name: Option<String>,
}

/// Chat session state: the messages so far, registered tools (offset,
/// description) and parameters by name.
#[derive(Debug)]
pub struct ChatSessionState {
    pub messages: Vec<ChatMessage>,
    pub tools: Vec<(i32, String)>,
    pub params: Vec<(String, JsonValue)>,
}

impl ChatSessionState {
    /// An empty session.
    pub fn default() -> (r: Self)
        ensures
            r.messages@.len() == 0,
            r.tools@.len() == 0,
            r.params@.len() == 0,
    {
        ChatSessionState { messages: Vec::new(), tools: Vec::new(), params: Vec::new() }
    }
}

/// A completed chat response: its bytes and its metrics document.
#[derive(Debug)]
pub struct ChatResponseState {
    pub bytes: Vec<u8>,
    pub metrics_bytes: Vec<u8>,
}

impl ChatResponseState {
    /// An empty response.
    pub fn default() -> (r: Self)
        ensures
            r.bytes@.len() == 0,
            r.metrics_bytes@.len() == 0,
    {
        ChatResponseState { bytes: Vec::new(), metrics_bytes: Vec::new() }
    }
}

// ---------------------------------------------------------------------------
// Realtime ASR
// ---------------------------------------------------------------------------

/// Connection state of a realtime ASR descriptor.
#[derive(Clone, Copy, Debug, PartialEq, Eq, Structural)]
pub enum RtAsrConnState {
    Init,
    Configured,
    Connecting,
    Connected,
    Draining,
    Closed,
    Error,
}

/// An item waiting to be sent upstream: raw audio or a text event.
#[derive(Debug)]
pub enum RtAsrSendItem {
    Audio(Vec<u8>),
    WsText(String),
}

/// Number of bytes of UTF-8 text.
pub open spec fn utf8_len(t: Seq<char>) -> nat {
    vstd::utf8::encode_utf8(t).len()
}

/// Byte length of text as the machine reports it (a `usize`).
pub open spec fn text_len(t: Seq<char>) -> usize {
    utf8_len(t) as usize
}

/// The byte length of a string.
pub fn string_len(s: &String) -> (r: usize)
    ensures
        r == text_len(s@),
{
    s.as_str().len()
}

impl RtAsrSendItem {
    /// Bytes the item occupies in the send queue.
    pub open spec fn spec_byte_len(&self) -> nat {
        match self {
            RtAsrSendItem::Audio(b) => b@.len(),
            RtAsrSendItem::WsText(s) => text_len(s@) as nat,
        }
    }

    /// Bytes the item occupies in the send queue.
    pub fn byte_len(&self) -> (r: usize)
        ensures
            r == self.spec_byte_len(),
    {
        match self {
            RtAsrSendItem::Audio(b) => b.len(),
            RtAsrSendItem::WsText(s) => string_len(s),
        }
    }
}

/// Total size of a sequence of send items.
pub open spec fn send_items_bytes(q: Seq<RtAsrSendItem>) -> nat
    decreases q.len(),
{
    if q.len() == 0 {
        0
    } else {
        send_items_bytes(q.drop_last()) + q.last().spec_byte_len()
    }
}

/// Appending an item adds its size.
pub proof fn lemma_send_items_bytes_push(q: Seq<RtAsrSendItem>, x: RtAsrSendItem)
    ensures
        send_items_bytes(q.push(x)) == send_items_bytes(q) + x.spec_byte_len(),
{
    assert(q.push(x).drop_last() =~= q);
}

/// Removing the first item subtracts its size.
pub proof fn lemma_send_items_bytes_drop_first(q: Seq<RtAsrSendItem>)
    requires
        q.len() > 0,
    ensures
        send_items_bytes(q) == q[0].spec_byte_len() + send_items_bytes(q.drop_first()),
    decreases q.len(),
{
    if q.len() > 1 {
        lemma_send_items_bytes_drop_first(q.drop_last());
        assert(q.drop_last().drop_first() =~= q.drop_first().drop_last());
    } else {
        assert(q.drop_last() =~= Seq::<RtAsrSendItem>::empty());
        assert(q.drop_first() =~= Seq::<RtAsrSendItem>::empty());
    }
}

/// How a realtime ASR stream is cut into segments.
#[derive(Clone, Copy, Debug, PartialEq, Eq, Structural)]
pub enum RtAsrSegmentationStrategy {
    Manual,
    ServerVad,
    ClientCommit,
}

/// Mode of client-side commits.
#[derive(Clone, Copy, Debug, PartialEq, Eq, Structural)]
pub enum RtAsrClientCommitMode {
    Hybrid,
}

/// Server-side voice activity detection settings. The threshold is kept as
/// the JSON number it was given as.
#[derive(Debug)]
pub struct RtAsrVadConfig {
    pub silence_ms: u64,
    pub threshold: Option<JsonNumber>,
    pub prefix_padding_ms: Option<u64>,
}

/// The content of [`RtAsrVadConfig`].
pub struct RtAsrVadView {
    pub silence_ms: u64,
    pub threshold: Option<JsonNum>,
    pub prefix_padding_ms: Option<u64>,
}

impl RtAsrVadConfig {
    pub open spec fn view(&self) -> RtAsrVadView {
        RtAsrVadView {
            silence_ms: self.silence_ms,
            threshold: match self.threshold {
                Some(t) => Some(t@),
                None => None,
            },
            prefix_padding_ms: self.prefix_padding_ms,
        }
    }
}

/// The decimal text of the default detection threshold.
pub open spec fn default_vad_threshold_text() -> Seq<char> {
    seq!['0', '.', '5']
}

impl RtAsrVadConfig {
    /// 500 ms of silence, threshold 0.5, 300 ms prefix padding.
    pub fn default() -> (r: Self)
        ensures
            r.silence_ms == 500,
            r.threshold matches Some(JsonNumber::Float(t)) && t@ == default_vad_threshold_text(),
            r.prefix_padding_ms == Some(300u64),
    {
        let t = String::from_str("0.5");
        proof {
            reveal_strlit("0.5");
            assert(t@ =~= default_vad_threshold_text());
        }
        RtAsrVadConfig { silence_ms: 500, threshold: Some(JsonNumber::Float(t)), prefix_padding_ms: Some(300) }
    }
}

/// Client-side commit settings.
#[derive(Clone, Copy, Debug, PartialEq, Eq, Structural)]
pub struct RtAsrClientCommitConfig {
    pub mode: RtAsrClientCommitMode,
    pub flush_interval_ms: Option<u64>,
    pub max_buffer_bytes: Option<usize>,
    pub silence_ms: Option<u64>,
    pub min_flush_gap_ms: u64,
}

impl RtAsrClientCommitConfig {
    /// Hybrid mode, no trigger, 500 ms minimal gap.
    pub fn default() -> (r: Self)
        ensures
            r == (RtAsrClientCommitConfig {
                mode: RtAsrClientCommitMode::Hybrid,
                flush_interval_ms: None,
                max_buffer_bytes: None,
                silence_ms: None,
                min_flush_gap_ms: 500,
            }),
    {
        RtAsrClientCommitConfig {
            mode: RtAsrClientCommitMode::Hybrid,
            flush_interval_ms: None,
            max_buffer_bytes: None,
            silence_ms: None,
            min_flush_gap_ms: 500,
        }
    }
}

/// Segmentation settings of a realtime ASR descriptor.
#[derive(Debug)]
pub struct RtAsrSegmentationConfig {
    pub strategy: RtAsrSegmentationStrategy,
    pub vad: Option<RtAsrVadConfig>,
    pub client_commit: Option<RtAsrClientCommitConfig>,
    pub flush_on_close: bool,
}

/// The content of [`RtAsrSegmentationConfig`].
pub struct RtAsrSegmentationView {
    pub strategy: RtAsrSegmentationStrategy,
    pub vad: Option<RtAsrVadView>,
    pub client_commit: Option<RtAsrClientCommitConfig>,
    pub flush_on_close: bool,
}

impl RtAsrSegmentationConfig {
    pub open spec fn view(&self) -> RtAsrSegmentationView {
        RtAsrSegmentationView {
            strategy: self.strategy,
            vad: match self.vad {
                Some(v) => Some(v@),
                None => None,
            },
            client_commit: self.client_commit,
            flush_on_close: self.flush_on_close,
        }
    }

    /// Server VAD with default detection settings.
    pub fn default() -> (r: Self)
        ensures
            r.strategy == RtAsrSegmentationStrategy::ServerVad,
            r.vad matches Some(v) && v.silence_ms == 500 && v.prefix_padding_ms == Some(300u64)
                && (v.threshold matches Some(JsonNumber::Float(t)) && t@ == default_vad_threshold_text()),
            r.client_commit is None,
            !r.flush_on_close,
    {
        RtAsrSegmentationConfig {
            strategy: RtAsrSegmentationStrategy::ServerVad,
            vad: Some(RtAsrVadConfig::default()),
            client_commit: None,
            flush_on_close: false,
        }
    }
}

/// State of a realtime ASR descriptor. Times are milliseconds on the host
/// clock.
#[derive(Debug)]
pub struct RtAsrState {
    pub state: RtAsrConnState,
    pub params: Vec<(String, JsonValue)>,
    pub send_queue: VecDeque<RtAsrSendItem>,
    pub send_queue_bytes: usize,
    pub max_send_queue_bytes: usize,
    pub recv_queue: VecDeque<Vec<u8>>,
    pub recv_queue_bytes: usize,
    pub max_recv_queue_bytes: usize,
    pub dropped_events: u64,
    pub last_error: Option<String>,
    pub tasks_spawned: bool,
    pub stub_connected: bool,
    pub stub_event_seq: u64,
    pub segmentation: RtAsrSegmentationConfig,
    pub pending_flush: bool,
    pub buffered_audio_bytes_since_flush: usize,
    pub last_flush_at_ms: u64,
    pub last_audio_at_ms: u64,
}

/// The segmentation a new stream starts with: server-side voice detection
/// with 500 ms of silence, threshold 0.5 and 300 ms prefix padding, no
/// client commit, no flush on close.
pub open spec fn default_segmentation_view() -> RtAsrSegmentationView {
    RtAsrSegmentationView {
        strategy: RtAsrSegmentationStrategy::ServerVad,
        vad: Some(
            RtAsrVadView {
                silence_ms: 500,
                threshold: Some(JsonNum::Float(default_vad_threshold_text())),
                prefix_padding_ms: Some(300u64),
            },
        ),
        client_commit: None,
        flush_on_close: false,
    }
}

/// Whether `s` is the state of a stream created at time `now_ms`: not yet
/// connected, no parameters, empty send and event queues with 1 MiB limits,
/// no error, nothing dropped, buffered or waiting to flush, no transport
/// started, the default segmentation, and both the last flush and the last
/// audio at `now_ms`.
pub open spec fn fresh_rtasr_state(s: RtAsrState, now_ms: u64) -> bool {
    &&& s.wf()
    &&& s.state == RtAsrConnState::Init
    &&& s.params@.len() == 0
    &&& s.send_queue@.len() == 0
    &&& s.send_queue_bytes == 0
    &&& s.max_send_queue_bytes == 1024 * 1024
    &&& s.recv_queue@.len() == 0
    &&& s.recv_queue_bytes == 0
    &&& s.max_recv_queue_bytes == 1024 * 1024
    &&& s.dropped_events == 0
    &&& s.last_error is None
    &&& !s.tasks_spawned
    &&& !s.stub_connected
    &&& s.stub_event_seq == 0
    &&& s.segmentation@ == default_segmentation_view()
    &&& !s.pending_flush
    &&& s.buffered_audio_bytes_since_flush == 0
    &&& s.last_flush_at_ms == now_ms
    &&& s.last_audio_at_ms == now_ms
}

impl RtAsrState {
    /// The queue counters match the queues.
    pub open spec fn wf(&self) -> bool {
        &&& self.send_queue_bytes == send_items_bytes(self.send_queue@)
        &&& self.recv_queue_bytes == frames_bytes(self.recv_queue@)
    }

    /// A fresh descriptor state created at time `now_ms`: no parameters,
    /// empty queues with 1 MiB limits, default segmentation (see
    /// [`fresh_rtasr_state`]).
    pub fn new(now_ms: u64) -> (r: Self)
        ensures
            fresh_rtasr_state(r, now_ms),
    {
        RtAsrState {
            state: RtAsrConnState::Init,
            params: Vec::new(),
            send_queue: VecDeque::new(),
            send_queue_bytes: 0,
            max_send_queue_bytes: 1024 * 1024,
            recv_queue: VecDeque::new(),
            recv_queue_bytes: 0,
            max_recv_queue_bytes: 1024 * 1024,
            dropped_events: 0,
            last_error: None,
            tasks_spawned: false,
            stub_connected: false,
            stub_event_seq: 0,
            segmentation: RtAsrSegmentationConfig::default(),
            pending_flush: false,
            buffered_audio_bytes_since_flush: 0,
            last_flush_at_ms: now_ms,
            last_audio_at_ms: now_ms,
        }
    }
}

// ---------------------------------------------------------------------------
// Microphone
// ---------------------------------------------------------------------------

/// Capture format of a microphone descriptor.
#[derive(Debug)]
pub struct MicConfig {
    pub sample_rate_hz: u32,
    pub channels: u8,
    pub frame_ms: u32,
    pub format: String,
}

/// State of a microphone descriptor.
#[derive(Debug)]
pub struct MicState {
    pub config: Option<MicConfig>,
    pub queue: VecDeque<Vec<u8>>,
    pub queue_bytes: usize,
    pub max_queue_bytes: usize,
    pub dropped_frames: u64,
    pub last_error: Option<String>,
    pub running: bool,
    pub generation: u64,
    pub stub_pcm16: Option<Vec<u8>>,
    pub stub_pcm16_offset: usize,
}

impl MicState {
    /// The queue counter matches the queue.
    pub open spec fn wf(&self) -> bool {
        self.queue_bytes == frames_bytes(self.queue@)
    }

    /// An idle microphone with an empty 512 KiB queue.
    pub fn default() -> (r: Self)
        ensures
            r.wf(),
            r.config is None,
            r.queue@.len() == 0,
            r.max_queue_bytes == 512 * 1024,
            r.dropped_frames == 0,
            r.last_error is None,
            !r.running,
            r.generation == 0,
            r.stub_pcm16 is None,
            r.stub_pcm16_offset == 0,
    {
        MicState {
            config: None,
            queue: VecDeque::new(),
            queue_bytes: 0,
            max_queue_bytes: 512 * 1024,
            dropped_frames: 0,
            last_error: None,
            running: false,
            generation: 0,
            stub_pcm16: None,
            stub_pcm16_offset: 0,
        }
    }
}

// ---------------------------------------------------------------------------
// User streams
// ---------------------------------------------------------------------------

/// Direction of a user stream descriptor.
#[derive(Clone, Copy, Debug, PartialEq, Eq, Structural)]
pub enum UserStreamDirection {
    In,
    Out,
    Bidi,
}

/// The direction numbered `v`: 1 is inbound, 2 outbound, 3 both; anything
/// else is no direction.
pub open spec fn direction_of(v: i32) -> Option<UserStreamDirection> {
    if v == 1 {
        Some(UserStreamDirection::In)
    } else if v == 2 {
        Some(UserStreamDirection::Out)
    } else if v == 3 {
        Some(UserStreamDirection::Bidi)
    } else {
        None
    }
}

impl UserStreamDirection {
    /// 1 is inbound, 2 outbound, 3 both; anything else is no direction.
    pub fn from_i32(v: i32) -> (r: Option<Self>)
        ensures
            r == direction_of(v),
    {
        match v {
            1 => Some(UserStreamDirection::In),
            2 => Some(UserStreamDirection::Out),
            3 => Some(UserStreamDirection::Bidi),
            _ => None,
        }
    }

    pub open spec fn spec_allows_read(self) -> bool {
        self is In || self is Bidi
    }

    pub open spec fn spec_allows_write(self) -> bool {
        self is Out || self is Bidi
    }

    /// Whether the guest may read.
    pub fn allows_read(self) -> (r: bool)
        ensures
            r == self.spec_allows_read(),
    {
        match self {
            UserStreamDirection::In | UserStreamDirection::Bidi => true,
            _ => false,
        }
    }

    /// Whether the guest may write.
    pub fn allows_write(self) -> (r: bool)
        ensures
            r == self.spec_allows_write(),
    {
        match self {
            UserStreamDirection::Out | UserStreamDirection::Bidi => true,
            _ => false,
        }
    }
}

/// Connection state of a user stream channel.
#[derive(Clone, Copy, Debug, PartialEq, Eq, Structural)]
pub enum UserStreamConnState {
    Init,
    Connected,
    Closed,
    Error,
}

/// Shared state of one logical user stream: inbound frames (from the
/// WebSocket peer to the guest), outbound frames (from the guest to the peer)
/// with their byte counters and limits, and the descriptors attached to it.
#[derive(Debug)]
pub struct UserStreamChannel {
    pub stream_id: u32,
    pub conn_state: UserStreamConnState,
    pub inbound: VecDeque<Vec<u8>>,
    pub inbound_bytes: usize,
    pub max_inbound_bytes: usize,
    pub outbound: VecDeque<Vec<u8>>,
    pub outbound_bytes: usize,
    pub max_outbound_bytes: usize,
    pub max_frame_bytes: usize,
    pub last_error: Option<String>,
    pub attached_fds: HashSet<i32>,
}

impl UserStreamChannel {
    /// The byte counters match the queues.
    pub open spec fn wf(&self) -> bool {
        &&& self.inbound_bytes == frames_bytes(self.inbound@)
        &&& self.outbound_bytes == frames_bytes(self.outbound@)
        &&& self.max_inbound_bytes < usize::MAX
        &&& self.max_outbound_bytes < usize::MAX
    }

    /// A fresh channel: not connected, empty queues of 8 MiB each, frames of
    /// at most 256 KiB.
    pub fn new(stream_id: u32) -> (r: Self)
        ensures
            r.wf(),
            r.stream_id == stream_id,
            r.conn_state == UserStreamConnState::Init,
            r.inbound@.len() == 0,
            r.outbound@.len() == 0,
            r.max_inbound_bytes == 8 * 1024 * 1024,
            r.max_outbound_bytes == 8 * 1024 * 1024,
            r.max_frame_bytes == 256 * 1024,
            r.last_error is None,
            r.attached_fds@ == Set::<i32>::empty(),
    {
        UserStreamChannel {
            stream_id,
            conn_state: UserStreamConnState::Init,
            inbound: VecDeque::new(),
            inbound_bytes: 0,
            max_inbound_bytes: 8 * 1024 * 1024,
            outbound: VecDeque::new(),
            outbound_bytes: 0,
            max_outbound_bytes: 8 * 1024 * 1024,
            max_frame_bytes: 256 * 1024,
            last_error: None,
            attached_fds: HashSet::new(),
        }
    }
}

/// A user stream descriptor's view of its channel: the execution, the
/// generation of the hub it was opened on, and the stream.
#[derive(Debug)]
pub struct UserStreamState {
    pub execution_id: String,
    pub hub_generation: u64,
    pub stream_id: u32,
    pub direction: UserStreamDirection,
}

/// The control descriptor of a session: pending 8-byte events.
#[derive(Debug)]
pub struct UserStreamCtlState {
    pub execution_id: String,
    pub pending: VecDeque<[u8; 8]>,
    pub max_pending: usize,
}

// ---------------------------------------------------------------------------
// Entries
// ---------------------------------------------------------------------------

/// Kind-specific state of a descriptor.
#[derive(Debug)]
pub enum FdInner {
    ChatSession(ChatSessionState),
    ChatResponse(ChatResponseState),
    Epoll(EpollState),
    RtAsr(Box<RtAsrState>),
    Mic(MicState),
    UserStream(Box<UserStreamState>),
    UserStreamCtl(Box<UserStreamCtlState>),
}

/// A descriptor: kind, flags, readiness mask, the epoll descriptors watching
/// it, whether it is closed, and its state.
#[derive(Debug)]
pub struct FdEntry {
    pub kind: FdKind,
    pub flags: FdFlags,
    pub poll_mask: PollEvents,
    pub watchers: HashSet<i32>,
    pub closed: bool,
    pub inner: FdInner,
}

impl FdEntry {
    /// The readiness mask, with hang-up added once closed.
    pub open spec fn spec_effective_poll_mask(&self) -> u32 {
        if self.closed {
            self.poll_mask.0 | poll_hup()
        } else {
            self.poll_mask.0
        }
    }

    /// The readiness mask, with hang-up added once closed.
    pub fn effective_poll_mask(&self) -> (r: PollEvents)
        ensures
            r.0 == self.spec_effective_poll_mask(),
    {
        if self.closed {
            self.poll_mask.or(PollEvents::HUP())
        } else {
            self.poll_mask
        }
    }
}

} // verus!
