//! Realtime speech-to-text descriptors: the send and receive queues with
//! back-pressure, the connection state machine, readiness, and the control
//! commands.
use vstd::prelude::*;
use std::collections::HashSet;
use crate::errno::{SPEAR_EAGAIN, SPEAR_EBADF, SPEAR_EIO};
use crate::poll::{FdFlags, FdKind, PollEvents};
use crate::json::JsonValue;
use crate::types::{FdEntry, FdInner, RtAsrConnState, RtAsrSendItem, RtAsrState, send_items_bytes, text_len, lemma_send_items_bytes_push, lemma_frames_bytes_drop_first, string_len, bytes_to_vec, fresh_rtasr_state};
use crate::fd_table::{FdTable, table_after_store, notified};
use crate::host::DefaultHostApi;

verus! {

broadcast use vstd::std_specs::hash::group_hash_axioms;

/// Control command: set a parameter.
pub const RTASR_CTL_SET_PARAM: i32 = 1;
/// Control command: connect.
pub const RTASR_CTL_CONNECT: i32 = 2;
/// Control command: read the status.
pub const RTASR_CTL_GET_STATUS: i32 = 3;
/// Control command: queue a client event.
pub const RTASR_CTL_SEND_EVENT: i32 = 4;
/// Control command: commit the buffered audio.
pub const RTASR_CTL_FLUSH: i32 = 5;
/// Control command: drop the buffered audio.
pub const RTASR_CTL_CLEAR: i32 = 6;
/// Control command: set the segmentation settings.
pub const RTASR_CTL_SET_AUTOFLUSH: i32 = 7;
/// Control command: read the segmentation settings.
pub const RTASR_CTL_GET_AUTOFLUSH: i32 = 8;

/// A control request: the parsed document and its compact text.
#[derive(Debug)]
pub struct CtlPayload {
    pub value: JsonValue,
    pub text: String,
}

/// The state of a realtime ASR entry.
pub open spec fn rtasr_st(e: FdEntry) -> RtAsrState {
    match e.inner {
        FdInner::RtAsr(b) => *b,
        _ => arbitrary(),
    }
}

/// Whether `fd` is an open realtime ASR descriptor.
pub open spec fn rtasr_usable(m: Map<i32, FdEntry>, fd: i32) -> bool {
    m.contains_key(fd) && !m[fd].closed && m[fd].inner is RtAsr
}

/// The readiness of a realtime ASR descriptor: readable with received
/// events, writable while the send queue is below its limit and the stream
/// accepts data, error in the error state, hang-up once closed.
pub open spec fn rtasr_readiness(st: RtAsrState, closed: bool) -> u32 {
    let m1: u32 = if st.recv_queue@.len() > 0 { 0u32 | 1u32 } else { 0u32 };
    let writable = st.send_queue_bytes < st.max_send_queue_bytes && st.state != RtAsrConnState::Draining
        && st.state != RtAsrConnState::Closed && st.state != RtAsrConnState::Error && !closed;
    let m2: u32 = if writable { m1 | 4u32 } else { m1 };
    let m3: u32 = if st.state == RtAsrConnState::Error { m2 | 8u32 } else { m2 };
    if closed || st.state == RtAsrConnState::Closed { m3 | 16u32 } else { m3 }
}

/// The table after the realtime ASR entry `fd` was updated in place: the
/// entry keeps kind, flags, watchers and closed state, its readiness is
/// recomputed, and watchers are notified when the readiness changed.
pub open spec fn rtasr_stored(m: Map<i32, FdEntry>, fd: i32, m2: Map<i32, FdEntry>) -> bool {
    &&& m2.contains_key(fd)
    &&& m2 == table_after_store(m, fd, m2[fd], m[fd].poll_mask.0)
    &&& m2[fd].kind == m[fd].kind
    &&& m2[fd].flags == m[fd].flags
    &&& m2[fd].watchers == m[fd].watchers
    &&& m2[fd].closed == m[fd].closed
    &&& m2[fd].inner is RtAsr
    &&& m2[fd].poll_mask.0 == rtasr_readiness(rtasr_st(m2[fd]), m2[fd].closed)
}

/// Settings and bookkeeping that the data path leaves alone.
pub open spec fn same_rtasr_config(a: RtAsrState, b: RtAsrState) -> bool {
    &&& b.params == a.params
    &&& b.max_send_queue_bytes == a.max_send_queue_bytes
    &&& b.max_recv_queue_bytes == a.max_recv_queue_bytes
    &&& b.dropped_events == a.dropped_events
    &&& b.last_error == a.last_error
    &&& b.tasks_spawned == a.tasks_spawned
    &&& b.stub_connected == a.stub_connected
    &&& b.stub_event_seq == a.stub_event_seq
    &&& b.segmentation == a.segmentation
}

/// The send queue and its counter are unchanged.
pub open spec fn same_send(a: RtAsrState, b: RtAsrState) -> bool {
    b.send_queue == a.send_queue && b.send_queue_bytes == a.send_queue_bytes
}

/// The receive queue and its counter are unchanged.
pub open spec fn same_recv(a: RtAsrState, b: RtAsrState) -> bool {
    b.recv_queue@ == a.recv_queue@ && b.recv_queue_bytes == a.recv_queue_bytes
}

/// The flush bookkeeping is unchanged.
pub open spec fn same_flush(a: RtAsrState, b: RtAsrState) -> bool {
    &&& b.pending_flush == a.pending_flush
    &&& b.buffered_audio_bytes_since_flush == a.buffered_audio_bytes_since_flush
    &&& b.last_flush_at_ms == a.last_flush_at_ms
    &&& b.last_audio_at_ms == a.last_audio_at_ms
}

/// `q2` is `q1` with a text item of `t` appended.
pub open spec fn pushed_text(q1: Seq<RtAsrSendItem>, q2: Seq<RtAsrSendItem>, t: Seq<char>) -> bool {
    &&& q2.len() == q1.len() + 1
    &&& q2.subrange(0, q1.len() as int) == q1
    &&& q2.last() matches RtAsrSendItem::WsText(s) && s@ == t
}

/// The commit event.
pub open spec fn flush_event_text() -> Seq<char> {
    "{\"type\":\"input_audio_buffer.commit\"}"@
}

/// The clear event.
pub open spec fn clear_event_text() -> Seq<char> {
    "{\"type\":\"input_audio_buffer.clear\"}"@
}

/// The commit event, as the upstream protocol spells it.
pub fn rtasr_flush_event_text() -> (r: String)
    ensures
        r@ == flush_event_text(),
{
    String::from_str("{\"type\":\"input_audio_buffer.commit\"}")
}

/// The clear event, as the upstream protocol spells it.
pub fn rtasr_clear_event_text() -> (r: String)
    ensures
        r@ == clear_event_text(),
{
    String::from_str("{\"type\":\"input_audio_buffer.clear\"}")
}

/// Whether `n` more bytes fit in the send queue (with a saturating sum).
pub open spec fn send_fits(st: RtAsrState, n: usize) -> bool {
    sat_add(st.send_queue_bytes, n as int) <= st.max_send_queue_bytes
}

/// `b` is `a` with text `t` queued for sending.
pub open spec fn queued_text(a: RtAsrState, b: RtAsrState, t: Seq<char>) -> bool {
    &&& pushed_text(a.send_queue@, b.send_queue@, t)
    &&& b.send_queue_bytes == sat_add(a.send_queue_bytes, text_len(t) as int)
}

impl DefaultHostApi {
    /// Recomputes the readiness of a realtime ASR entry.
    pub(crate) fn recompute_rtasr_readiness_locked(&self, e: &mut FdEntry)
        ensures
            final(e).kind == old(e).kind,
            final(e).flags == old(e).flags,
            final(e).watchers == old(e).watchers,
            final(e).closed == old(e).closed,
            final(e).inner == old(e).inner,
            old(e).inner is RtAsr ==> final(e).poll_mask.0 == rtasr_readiness(rtasr_st(*old(e)), old(e).closed),
            !(old(e).inner is RtAsr) ==> final(e).poll_mask == old(e).poll_mask,
    {
        let mask = match &e.inner {
            FdInner::RtAsr(st) => {
                let mut mask = PollEvents::EMPTY();
                if st.recv_queue.len() > 0 {
                    mask.insert(PollEvents::IN());
                }
                let writable = st.send_queue_bytes < st.max_send_queue_bytes && st.state != RtAsrConnState::Draining
                    && st.state != RtAsrConnState::Closed && st.state != RtAsrConnState::Error && !e.closed;
                if writable {
                    mask.insert(PollEvents::OUT());
                }
                if st.state == RtAsrConnState::Error {
                    mask.insert(PollEvents::ERR());
                }
                if e.closed || st.state == RtAsrConnState::Closed {
                    mask.insert(PollEvents::HUP());
                }
                mask
            },
            _ => { return; },
        };
        e.poll_mask = mask;
    }

    /// Creates a realtime ASR descriptor at time `now_ms`: writable, with the
    /// state of a new stream (see [`fresh_rtasr_state`]).
    pub fn rtasr_create(&mut self, now_ms: u64) -> (r: i32)
        ensures
            r == old(self).fd_table.spec_next_fd(),
            final(self).fd_table.spec_next_fd() == old(self).fd_table.spec_next_fd().wrapping_add(1),
            final(self).fd_table.spec_entries().dom() == old(self).fd_table.spec_entries().dom().insert(r),
            forall|k: i32| k != r ==> #[trigger] old(self).fd_table.spec_entries().contains_key(k)
                ==> final(self).fd_table.spec_entries()[k] == old(self).fd_table.spec_entries()[k],
            ({
                let e = final(self).fd_table.spec_entries()[r];
                &&& e.kind == FdKind::RtAsr
                &&& e.flags.0 == 0
                &&& e.poll_mask.0 == 4
                &&& e.watchers@ == Set::<i32>::empty()
                &&& !e.closed
                &&& e.inner is RtAsr
                &&& fresh_rtasr_state(rtasr_st(e), now_ms)
            }),
    {
        let e = FdEntry {
            kind: FdKind::RtAsr,
            flags: FdFlags::default(),
            poll_mask: PollEvents::OUT(),
            watchers: HashSet::new(),
            closed: false,
            inner: FdInner::RtAsr(Box::new(RtAsrState::new(now_ms))),
        };
        let r = self.fd_table.allocate(e);
        assert(self.fd_table.spec_entries().dom() =~= old(self).fd_table.spec_entries().dom().insert(r));
        r
    }

    /// Queues audio for sending at time `now_ms`. Returns the number of bytes
    /// queued, `-EAGAIN` when the send queue would exceed its limit, `-EIO`
    /// in the error state, `-EBADF` for a missing, closed or foreign
    /// descriptor. Queued audio may trigger an automatic commit.
    pub fn rtasr_write(&mut self, fd: i32, bytes: &[u8], now_ms: u64) -> (r: i32)
        ensures
            final(self).fd_table.spec_next_fd() == old(self).fd_table.spec_next_fd(),
            ({
                let m = old(self).fd_table.spec_entries();
                let m2 = final(self).fd_table.spec_entries();
                if !rtasr_usable(m, fd) {
                    r == -SPEAR_EBADF && m2 == m
                } else if rtasr_st(m[fd]).state == RtAsrConnState::Error {
                    r == -SPEAR_EIO && m2 == m
                } else {
                    let s1 = rtasr_st(m[fd]);
                    let s2 = rtasr_st(m2[fd]);
                    &&& rtasr_stored(m, fd, m2)
                    &&& same_rtasr_config(s1, s2)
                    &&& same_recv(s1, s2)
                    &&& s2.state == s1.state
                    &&& if !send_fits(s1, bytes@.len() as usize) {
                        r == -SPEAR_EAGAIN && same_send(s1, s2) && same_flush(s1, s2)
                    } else {
                        &&& r == bytes@.len() as i32
                        &&& audio_written(s1, s2, bytes@, now_ms)
                    }
                    &&& s1.wf() && s1.max_send_queue_bytes < usize::MAX ==> s2.wf()
                }
            }),
    {
        let mut e = match self.fd_table.take(fd) {
            None => { return -SPEAR_EBADF; },
            Some(e) => e,
        };
        let ghost m = old(self).fd_table.spec_entries();
        if e.closed || !matches!(e.inner, FdInner::RtAsr(_)) {
            self.fd_table.put(fd, e);
            assert(self.fd_table.spec_entries() =~= m);
            return -SPEAR_EBADF;
        }
        let is_error = match &e.inner {
            FdInner::RtAsr(st) => st.state == RtAsrConnState::Error,
            _ => false,
        };
        if is_error {
            self.fd_table.put(fd, e);
            assert(self.fd_table.spec_entries() =~= m);
            return -SPEAR_EIO;
        }
        let old_mask = e.poll_mask;
        let rc = match &mut e.inner {
            FdInner::RtAsr(st) => queue_audio(st, bytes, now_ms),
            _ => -SPEAR_EBADF,
        };
        self.recompute_rtasr_readiness_locked(&mut e);
        let ghost ef = e;
        self.fd_table.store_entry(fd, e, old_mask);
        proof {
            lemma_rtasr_store(m, fd, ef, old_mask.0, self.fd_table.spec_entries());
        }
        rc
    }
}

/// Storing a realtime ASR entry back under its number leaves it as stored.
pub proof fn lemma_rtasr_store(m: Map<i32, FdEntry>, fd: i32, e: FdEntry, old_mask: u32, m2: Map<i32, FdEntry>)
    requires
        m.contains_key(fd),
        e.inner is RtAsr,
        m2 == table_after_store(m.remove(fd), fd, e, old_mask),
    ensures
        m2 == table_after_store(m, fd, e, old_mask),
        m2.contains_key(fd),
        m2[fd] == e,
{
    assert(m.remove(fd).insert(fd, e) =~= m.insert(fd, e));
}

/// Queues audio at `now_ms` unless the send queue would exceed its limit.
fn queue_audio(st: &mut RtAsrState, bytes: &[u8], now_ms: u64) -> (r: i32)
    ensures
        same_rtasr_config(*old(st), *final(st)),
        same_recv(*old(st), *final(st)),
        final(st).state == old(st).state,
        if !send_fits(*old(st), bytes@.len() as usize) {
            r == -SPEAR_EAGAIN && same_send(*old(st), *final(st)) && same_flush(*old(st), *final(st))
        } else {
            &&& r == bytes@.len() as i32
            &&& audio_written(*old(st), *final(st), bytes@, now_ms)
        },
        old(st).wf() && old(st).max_send_queue_bytes < usize::MAX ==> final(st).wf(),
{
    let n = bytes.len();
    if st.send_queue_bytes.saturating_add(n) > st.max_send_queue_bytes {
        return -SPEAR_EAGAIN;
    }
    let ghost s0 = *st;
    let item = RtAsrSendItem::Audio(bytes_to_vec(bytes));
    proof {
        lemma_send_items_bytes_push(st.send_queue@, item);
    }
    st.send_queue.push_back(item);
    st.send_queue_bytes = st.send_queue_bytes.saturating_add(n);
    st.buffered_audio_bytes_since_flush = st.buffered_audio_bytes_since_flush.saturating_add(n);
    st.last_audio_at_ms = now_ms;
    let ghost s_mid = *st;
    assert(s_mid.send_queue@.subrange(0, s0.send_queue@.len() as int) =~= s0.send_queue@);
    maybe_enqueue_autoflush_locked(st, now_ms);
    proof {
        if autoflush_due(s_mid, now_ms) && send_fits(s_mid, text_len(flush_event_text())) {
            assert(st.send_queue@.subrange(0, s_mid.send_queue@.len() as int) == s_mid.send_queue@);
            assert(st.send_queue@.subrange(0, s0.send_queue@.len() as int) =~= s0.send_queue@) by {
                assert forall|j: int| 0 <= j < s0.send_queue@.len() implies st.send_queue@[j] == s0.send_queue@[j] by {
                    assert(st.send_queue@.subrange(0, s_mid.send_queue@.len() as int)[j] == s_mid.send_queue@[j]);
                }
            }
            assert(st.send_queue@[s0.send_queue@.len() as int] == s_mid.send_queue@[s0.send_queue@.len() as int]) by {
                assert(st.send_queue@.subrange(0, s_mid.send_queue@.len() as int)[s0.send_queue@.len() as int]
                    == s_mid.send_queue@[s0.send_queue@.len() as int]);
            }
        }
    }
    #[verifier::truncate]
    (n as i32)
}

/// Milliseconds from `earlier` to `later`, zero when `later` is earlier.
pub open spec fn elapsed_ms(later: u64, earlier: u64) -> u64 {
    if later >= earlier { (later - earlier) as u64 } else { 0 }
}

/// Whether an automatic commit is due at `now` for the given settings and
/// bookkeeping: client-side commits are configured, none is pending, audio
/// was buffered since the last commit, the minimal gap has passed, and the
/// byte, time or silence trigger fires.
pub open spec fn autoflush_due_at(
    seg: crate::types::RtAsrSegmentationConfig,
    pending: bool,
    buffered: usize,
    last_flush: u64,
    last_audio: u64,
    now: u64,
) -> bool {
    &&& seg.strategy == crate::types::RtAsrSegmentationStrategy::ClientCommit
    &&& seg.client_commit is Some
    &&& !pending
    &&& buffered != 0
    &&& elapsed_ms(now, last_flush) >= seg.client_commit->0.min_flush_gap_ms
    &&& {
        let cfg = seg.client_commit->0;
        ||| (cfg.max_buffer_bytes matches Some(mx) && buffered >= mx)
        ||| (cfg.flush_interval_ms matches Some(ms) && elapsed_ms(now, last_flush) >= ms)
        ||| (cfg.silence_ms matches Some(ms) && elapsed_ms(now, last_audio) >= ms)
    }
}

/// Whether an automatic commit is due for state `st` at `now`.
pub open spec fn autoflush_due(st: RtAsrState, now: u64) -> bool {
    autoflush_due_at(
        st.segmentation,
        st.pending_flush,
        st.buffered_audio_bytes_since_flush,
        st.last_flush_at_ms,
        st.last_audio_at_ms,
        now,
    )
}

/// The saturating sum of two sizes.
pub open spec fn sat_add(a: usize, b: int) -> usize {
    if a + b > usize::MAX { usize::MAX } else { (a + b) as usize }
}

/// `s2` is `s0` after audio `bytes` was queued at `now` (the queue had room):
/// the audio item is appended and counted, the buffered count grows, the
/// audio time is `now`, and an automatic commit follows when one is due and
/// fits.
pub open spec fn audio_written(s0: RtAsrState, s2: RtAsrState, bytes: Seq<u8>, now: u64) -> bool {
    let n0 = s0.send_queue@.len();
    let sb1 = sat_add(s0.send_queue_bytes, bytes.len() as int);
    let buf1 = sat_add(s0.buffered_audio_bytes_since_flush, bytes.len() as int);
    let flush_len = text_len(flush_event_text());
    let flushed = autoflush_due_at(s0.segmentation, s0.pending_flush, buf1, s0.last_flush_at_ms, now, now)
        && sat_add(sb1, flush_len as int) <= s0.max_send_queue_bytes;
    &&& s2.send_queue@.subrange(0, n0 as int) == s0.send_queue@
    &&& s2.send_queue@[n0 as int] matches RtAsrSendItem::Audio(v) && v@ == bytes
    &&& s2.last_audio_at_ms == now
    &&& if flushed {
        &&& s2.send_queue@.len() == n0 + 2
        &&& s2.send_queue@[n0 + 1int] matches RtAsrSendItem::WsText(t) && t@ == flush_event_text()
        &&& s2.send_queue_bytes == sat_add(sb1, flush_len as int)
        &&& s2.pending_flush
        &&& s2.buffered_audio_bytes_since_flush == 0
        &&& s2.last_flush_at_ms == now
    } else {
        &&& s2.send_queue@.len() == n0 + 1
        &&& s2.send_queue_bytes == sb1
        &&& s2.pending_flush == s0.pending_flush
        &&& s2.buffered_audio_bytes_since_flush == buf1
        &&& s2.last_flush_at_ms == s0.last_flush_at_ms
    }
}

/// `b` is what the automatic-commit check makes of `a` at `now`: when a
/// commit is due and fits, the commit event is queued, marked pending, the
/// buffered count reset and the commit time set; otherwise nothing changes.
pub open spec fn autoflush_step(a: RtAsrState, b: RtAsrState, now: u64) -> bool {
    &&& same_rtasr_config(a, b)
    &&& same_recv(a, b)
    &&& b.state == a.state
    &&& b.last_audio_at_ms == a.last_audio_at_ms
    &&& if autoflush_due(a, now) && send_fits(a, text_len(flush_event_text())) {
        &&& queued_text(a, b, flush_event_text())
        &&& b.pending_flush
        &&& b.buffered_audio_bytes_since_flush == 0
        &&& b.last_flush_at_ms == now
    } else {
        same_send(a, b) && same_flush(a, b)
    }
}

/// Queues a commit event when one is due (see [`autoflush_due`]).
pub(crate) fn maybe_enqueue_autoflush_locked(st: &mut RtAsrState, now_ms: u64)
    ensures
        autoflush_step(*old(st), *final(st), now_ms),
        old(st).send_queue_bytes == send_items_bytes(old(st).send_queue@) && old(st).max_send_queue_bytes < usize::MAX
            ==> final(st).send_queue_bytes == send_items_bytes(final(st).send_queue@),
{
    if st.segmentation.strategy != crate::types::RtAsrSegmentationStrategy::ClientCommit {
        return;
    }
    let cfg = match &st.segmentation.client_commit {
        Some(c) => *c,
        None => { return; },
    };
    if st.pending_flush {
        return;
    }
    if st.buffered_audio_bytes_since_flush == 0 {
        return;
    }
    let since_flush = if now_ms >= st.last_flush_at_ms { now_ms - st.last_flush_at_ms } else { 0 };
    let since_audio = if now_ms >= st.last_audio_at_ms { now_ms - st.last_audio_at_ms } else { 0 };
    if since_flush < cfg.min_flush_gap_ms {
        return;
    }
    let mut triggered = false;
    if let Some(max) = cfg.max_buffer_bytes {
        triggered = triggered || st.buffered_audio_bytes_since_flush >= max;
    }
    if let Some(ms) = cfg.flush_interval_ms {
        triggered = triggered || since_flush >= ms;
    }
    if let Some(ms) = cfg.silence_ms {
        triggered = triggered || since_audio >= ms;
    }
    if !triggered {
        return;
    }
    let txt = rtasr_flush_event_text();
    let n = string_len(&txt);
    if st.send_queue_bytes.saturating_add(n) > st.max_send_queue_bytes {
        return;
    }
    let item = RtAsrSendItem::WsText(txt);
    proof {
        lemma_send_items_bytes_push(st.send_queue@, item);
    }
    let ghost q0 = st.send_queue@;
    st.send_queue.push_back(item);
    st.send_queue_bytes = st.send_queue_bytes.saturating_add(n);
    st.pending_flush = true;
    st.buffered_audio_bytes_since_flush = 0;
    st.last_flush_at_ms = now_ms;
    assert(st.send_queue@.subrange(0, q0.len() as int) =~= q0);
}

} // verus!

verus! {

/// The readiness bits after a state change, on entry `e`.
pub open spec fn with_state(e: FdEntry, st: RtAsrState) -> FdEntry {
    FdEntry { inner: FdInner::RtAsr(Box::new(st)), ..e }
}

/// Reading a received event: the first event is handed out and removed.
pub open spec fn read_spec(m: Map<i32, FdEntry>, fd: i32, m2: Map<i32, FdEntry>, r: Result<Vec<u8>, i32>) -> bool {
    if !rtasr_usable(m, fd) {
        r matches Err(x) && x == -SPEAR_EBADF && m2 == m
    } else {
        let s1 = rtasr_st(m[fd]);
        let s2 = rtasr_st(m2[fd]);
        &&& rtasr_stored(m, fd, m2)
        &&& same_rtasr_config(s1, s2)
        &&& same_send(s1, s2)
        &&& same_flush(s1, s2)
        &&& s2.state == s1.state
        &&& if s1.recv_queue@.len() == 0 {
            r matches Err(x) && x == -SPEAR_EAGAIN && same_recv(s1, s2)
        } else {
            &&& r matches Ok(p) && p@ == s1.recv_queue@[0]@
            &&& s2.recv_queue@ == s1.recv_queue@.drop_first()
            &&& s2.recv_queue_bytes == (if s1.recv_queue_bytes >= s1.recv_queue@[0]@.len() {
                s1.recv_queue_bytes - s1.recv_queue@[0]@.len()
            } else {
                0
            })
        }
        &&& s1.wf() ==> s2.wf()
    }
}

impl DefaultHostApi {
    /// Takes the first received event: `-EAGAIN` when none is waiting,
    /// `-EBADF` for a missing, closed or foreign descriptor.
    pub fn rtasr_read(&mut self, fd: i32) -> (r: Result<Vec<u8>, i32>)
        ensures
            final(self).fd_table.spec_next_fd() == old(self).fd_table.spec_next_fd(),
            read_spec(old(self).fd_table.spec_entries(), fd, final(self).fd_table.spec_entries(), r),
    {
        let ghost m = old(self).fd_table.spec_entries();
        let mut e = match self.fd_table.take(fd) {
            None => {
                assert(self.fd_table.spec_entries() =~= m);
                return Err(-SPEAR_EBADF);
            },
            Some(e) => e,
        };
        if e.closed || !matches!(e.inner, FdInner::RtAsr(_)) {
            self.fd_table.put(fd, e);
            assert(self.fd_table.spec_entries() =~= m);
            return Err(-SPEAR_EBADF);
        }
        let old_mask = e.poll_mask;
        let payload = match &mut e.inner {
            FdInner::RtAsr(st) => pop_recv(st),
            _ => None,
        };
        self.recompute_rtasr_readiness_locked(&mut e);
        let ghost ef = e;
        self.fd_table.store_entry(fd, e, old_mask);
        proof {
            lemma_rtasr_store(m, fd, ef, old_mask.0, self.fd_table.spec_entries());
        }
        match payload {
            Some(p) => Ok(p),
            None => Err(-SPEAR_EAGAIN),
        }
    }

    /// Closes a realtime ASR descriptor: its stream state becomes closed,
    /// then the descriptor is closed as any other.
    pub fn rtasr_close(&mut self, fd: i32) -> (r: i32)
        ensures
            final(self).fd_table.spec_next_fd() == old(self).fd_table.spec_next_fd(),
            ({
                let m = old(self).fd_table.spec_entries();
                let m1 = if m.contains_key(fd) && m[fd].inner is RtAsr {
                    m.insert(fd, with_state(m[fd], RtAsrState { state: RtAsrConnState::Closed, ..rtasr_st(m[fd]) }))
                } else {
                    m
                };
                let m2 = final(self).fd_table.spec_entries();
                &&& !m1.contains_key(fd) ==> r == -SPEAR_EBADF && m2 == m1
                &&& m1.contains_key(fd) && m1[fd].closed ==> r == 0 && m2 == m1
                &&& m1.contains_key(fd) && !m1[fd].closed ==> r == 0 && FdTable::closed_table_ok(m1, fd, m2)
            }),
    {
        let ghost m = old(self).fd_table.spec_entries();
        if let Some(mut e) = self.fd_table.take(fd) {
            if let FdInner::RtAsr(st) = &mut e.inner {
                st.state = RtAsrConnState::Closed;
            }
            self.fd_table.put(fd, e);
            assert(self.fd_table.spec_entries() =~= (if m.contains_key(fd) && m[fd].inner is RtAsr {
                m.insert(fd, with_state(m[fd], RtAsrState { state: RtAsrConnState::Closed, ..rtasr_st(m[fd]) }))
            } else {
                m
            }));
        }
        self.fd_table.close(fd)
    }
}

/// Takes the first received event.
fn pop_recv(st: &mut RtAsrState) -> (r: Option<Vec<u8>>)
    ensures
        same_rtasr_config(*old(st), *final(st)),
        same_send(*old(st), *final(st)),
        same_flush(*old(st), *final(st)),
        final(st).state == old(st).state,
        if old(st).recv_queue@.len() == 0 {
            r is None && same_recv(*old(st), *final(st))
        } else {
            &&& r matches Some(p) && p@ == old(st).recv_queue@[0]@
            &&& final(st).recv_queue@ == old(st).recv_queue@.drop_first()
            &&& final(st).recv_queue_bytes == (if old(st).recv_queue_bytes >= old(st).recv_queue@[0]@.len() {
                old(st).recv_queue_bytes - old(st).recv_queue@[0]@.len()
            } else {
                0
            })
        },
        old(st).wf() ==> final(st).wf(),
{
    let ghost q0 = st.recv_queue@;
    match st.recv_queue.pop_front() {
        Some(p) => {
            proof {
                lemma_frames_bytes_drop_first(q0);
            }
            assert(st.recv_queue@ =~= q0.drop_first());
            st.recv_queue_bytes = st.recv_queue_bytes.saturating_sub(p.len());
            Some(p)
        },
        None => None,
    }
}

} // verus!
