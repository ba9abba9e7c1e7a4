//! The steps of the tasks that serve a connected realtime ASR descriptor:
//! the local stand-in that answers with synthetic events, and the
//! websocket session's writer (taking queued items) and reader (queuing
//! received events), with their error and hang-up reports.
use vstd::prelude::*;
use base64::Engine;
use crate::poll::PollEvents;
use crate::json::{spec_member, members_get};
use crate::types::{FdEntry, FdInner, RtAsrConnState, RtAsrSendItem, RtAsrState};
use crate::fd_table::{table_after_store, notified, lemma_store_back};
use crate::host::DefaultHostApi;
use crate::rtasr::{rtasr_st, rtasr_readiness, maybe_enqueue_autoflush_locked, autoflush_step};
use crate::mic::enqueue_result;
use crate::http_adapter::{decimal, decimal_string};

verus! {

/// The receive queue, its byte count and the drop count of `s` after event
/// `p` was queued with the oldest events dropped beyond the limit.
pub open spec fn recv_after(s: RtAsrState, p: Seq<u8>, q: Seq<Vec<u8>>, b: usize, d: u64) -> bool {
    exists|v: Vec<u8>| v@ == p && (q, b, d) == enqueue_result(
        s.recv_queue@.push(v),
        if s.recv_queue_bytes + p.len() > usize::MAX { usize::MAX } else { (s.recv_queue_bytes + p.len()) as usize },
        s.max_recv_queue_bytes,
        s.dropped_events,
    )
}

/// Queues received event `p`, dropping the oldest events while the receive
/// queue holds more than its limit; each dropped event is counted.
pub fn enqueue_event(st: &mut RtAsrState, p: Vec<u8>)
    ensures
        recv_after(*old(st), p@, final(st).recv_queue@, final(st).recv_queue_bytes, final(st).dropped_events),
        *final(st) == (RtAsrState {
            recv_queue: final(st).recv_queue,
            recv_queue_bytes: final(st).recv_queue_bytes,
            dropped_events: final(st).dropped_events,
            ..*old(st)
        }),
{
    let ghost pv = p;
    let ghost s0 = *st;
    st.recv_queue_bytes = st.recv_queue_bytes.saturating_add(p.len());
    st.recv_queue.push_back(p);
    let ghost target = enqueue_result(st.recv_queue@, st.recv_queue_bytes, st.max_recv_queue_bytes, st.dropped_events);
    let ghost s_in = *st;
    while st.recv_queue_bytes > st.max_recv_queue_bytes
        invariant
            enqueue_result(st.recv_queue@, st.recv_queue_bytes, st.max_recv_queue_bytes, st.dropped_events) == target,
            *st == (RtAsrState {
                recv_queue: st.recv_queue,
                recv_queue_bytes: st.recv_queue_bytes,
                dropped_events: st.dropped_events,
                ..s_in
            }),
        decreases st.recv_queue@.len(), st.recv_queue_bytes,
    {
        let ghost q0 = st.recv_queue@;
        if st.recv_queue.len() == 0 {
            st.recv_queue_bytes = 0;
        } else {
            let old = match st.recv_queue.pop_front() {
                Some(x) => x,
                None => Vec::new(),
            };
            assert(st.recv_queue@ =~= q0.drop_first());
            st.recv_queue_bytes = st.recv_queue_bytes.saturating_sub(old.len());
            st.dropped_events = st.dropped_events.wrapping_add(1);
        }
    }
    assert(recv_after(s0, pv@, st.recv_queue@, st.recv_queue_bytes, st.dropped_events));
}

/// Entry `e` with realtime ASR state `st`.
pub open spec fn with_rtasr(e: FdEntry, st: RtAsrState) -> FdEntry {
    FdEntry { inner: FdInner::RtAsr(Box::new(st)), ..e }
}

/// The readiness the stand-in computes (no hang-up bit).
pub open spec fn stub_readiness(st: RtAsrState) -> u32 {
    let m1: u32 = if st.recv_queue@.len() > 0 { 0u32 | 1u32 } else { 0u32 };
    let writable = st.send_queue_bytes < st.max_send_queue_bytes && st.state != RtAsrConnState::Draining
        && st.state != RtAsrConnState::Closed && st.state != RtAsrConnState::Error;
    let m2: u32 = if writable { m1 | 4u32 } else { m1 };
    if st.state == RtAsrConnState::Error { m2 | 8u32 } else { m2 }
}

/// A non-negative integer parameter of `s`, or `d`.
pub open spec fn param_u64(s: RtAsrState, k: Seq<char>, d: u64) -> u64 {
    match spec_member(s.params@, k) {
        Some(v) => match v.spec_as_u64() {
            Some(n) => n,
            None => d,
        },
        None => d,
    }
}

/// `n` letters `a`.
pub open spec fn a_run(n: nat) -> Seq<char> {
    Seq::new(n, |i: int| 'a')
}

/// The text of a synthetic event: its number, a run of `a` and its type,
/// as a JSON object with members in name order.
pub open spec fn stub_event_text(seq: u64, ty: Seq<char>, text_len: nat) -> Seq<char> {
    "{\"seq\":"@ + decimal(seq as nat) + ",\"text\":\""@ + a_run(text_len) + "\",\"type\":\""@ + ty + "\"}"@
}

/// The type of synthetic event number `seq`: every `completed_every`-th is
/// a completed transcription (none when it is 0), the others deltas.
pub open spec fn stub_event_type(seq: u64, completed_every: u64) -> Seq<char> {
    if completed_every != 0 && seq % completed_every == 0 {
        "transcription.completed"@
    } else {
        "transcription.delta"@
    }
}

fn a_string(n: usize) -> (r: String)
    ensures
        r@ == a_run(n as nat),
{
    let mut s = String::new();
    let mut i: usize = 0;
    while i < n
        invariant
            0 <= i <= n,
            s@ == a_run(i as nat),
        decreases n - i,
    {
        proof {
            reveal_strlit("a");
        }
        s = s.concat("a");
        i = i + 1;
        assert(s@ =~= a_run(i as nat));
    }
    s
}

/// The text of synthetic event number `seq` of type `ty` with `text_len`
/// letters.
pub fn stub_event(seq: u64, ty: &str, text_len: usize) -> (r: String)
    ensures
        r@ == stub_event_text(seq, ty@, text_len as nat),
{
    let d = decimal_string(seq);
    let a = a_string(text_len);
    String::from_str("{\"seq\":").concat(d.as_str()).concat(",\"text\":\"").concat(a.as_str()).concat("\",\"type\":\"").concat(
        ty,
    ).concat("\"}")
}

fn param_or(st: &RtAsrState, k: &str, d: u64) -> (r: u64)
    ensures
        r == param_u64(*st, k@, d),
{
    match members_get(&st.params, k) {
        Some(v) => match v.as_u64() {
            Some(n) => n,
            None => d,
        },
        None => d,
    }
}

/// State `s1` is `s0` with its first send item (if any) taken.
pub open spec fn send_popped(s0: RtAsrState, s1: RtAsrState) -> bool {
    &&& if s0.send_queue@.len() > 0 {
        &&& s1.send_queue@ == s0.send_queue@.drop_first()
        &&& s1.send_queue_bytes == (if s0.send_queue_bytes >= s0.send_queue@[0].spec_byte_len() {
            (s0.send_queue_bytes - s0.send_queue@[0].spec_byte_len()) as usize
        } else {
            0
        })
    } else {
        s1.send_queue@ == s0.send_queue@ && s1.send_queue_bytes == s0.send_queue_bytes
    }
    &&& s1 == (RtAsrState { send_queue: s1.send_queue, send_queue_bytes: s1.send_queue_bytes, ..s0 })
}

fn pop_send(st: &mut RtAsrState) -> (r: Option<RtAsrSendItem>)
    ensures
        send_popped(*old(st), *final(st)),
        match r {
            Some(it) => old(st).send_queue@.len() > 0 && it == old(st).send_queue@[0],
            None => old(st).send_queue@.len() == 0,
        },
{
    if st.send_queue.len() == 0 {
        return None;
    }
    let ghost q0 = st.send_queue@;
    let it = match st.send_queue.pop_front() {
        Some(it) => it,
        None => { return None; },
    };
    assert(st.send_queue@ =~= q0.drop_first());
    st.send_queue_bytes = st.send_queue_bytes.saturating_sub(it.byte_len());
    Some(it)
}

impl DefaultHostApi {
    /// One step of the local stand-in of stream `fd` at `now_ms`, the last
    /// event having gone out at `last_emit_ms`: it takes one queued item
    /// (as if sent), and once the `stub_event_interval_ms` parameter (100)
    /// has passed queues the next synthetic event (see [`stub_event_text`];
    /// `stub_event_payload_bytes` (256) less 80 letters, every
    /// `stub_emit_completed_every`-th (20) completed), then recomputes the
    /// readiness. Returns the new last-event time, or `None` once the
    /// descriptor is gone, closed or foreign (the stand-in stops).
    pub fn rtasr_stub_tick(&mut self, fd: i32, now_ms: u64, last_emit_ms: u64) -> (r: Option<u64>)
        ensures
            final(self).fd_table.spec_next_fd() == old(self).fd_table.spec_next_fd(),
            ({
                let m = old(self).fd_table.spec_entries();
                let m2 = final(self).fd_table.spec_entries();
                if !m.contains_key(fd) || m[fd].closed || !(m[fd].inner is RtAsr) {
                    r is None && m2 == m
                } else {
                    let s0 = rtasr_st(m[fd]);
                    let s2 = rtasr_st(m2[fd]);
                    let interval = param_u64(s0, "stub_event_interval_ms"@, 100);
                    let payload_bytes = param_u64(s0, "stub_event_payload_bytes"@, 256);
                    let every = param_u64(s0, "stub_emit_completed_every"@, 20);
                    let due = (if now_ms >= last_emit_ms { now_ms - last_emit_ms } else { 0 }) >= interval;
                    let seq = s0.stub_event_seq.wrapping_add(1);
                    let text_len: nat = if (payload_bytes as usize) >= 80 { ((payload_bytes as usize) - 80) as nat } else { 0 };
                    &&& m2 == table_after_store(m, fd, FdEntry { poll_mask: PollEvents(stub_readiness(s2)), ..with_rtasr(m[fd], s2) }, m[fd].poll_mask.0)
                    &&& exists|s1: RtAsrState| #[trigger] send_popped(s0, s1) && if due {
                        &&& r == Some(now_ms)
                        &&& s2.stub_event_seq == seq
                        &&& recv_after(s1, vstd::utf8::encode_utf8(stub_event_text(seq, stub_event_type(seq, every), text_len)), s2.recv_queue@, s2.recv_queue_bytes, s2.dropped_events)
                        &&& s2 == (RtAsrState { recv_queue: s2.recv_queue, recv_queue_bytes: s2.recv_queue_bytes, dropped_events: s2.dropped_events, stub_event_seq: seq, ..s1 })
                    } else {
                        r == Some(last_emit_ms) && s2 == s1
                    }
                }
            }),
    {
        let ghost m = self.fd_table.spec_entries();
        let mut e = match self.fd_table.take(fd) {
            None => {
                assert(self.fd_table.spec_entries() =~= m);
                return None;
            },
            Some(e) => e,
        };
        if e.closed || !matches!(e.inner, FdInner::RtAsr(_)) {
            self.fd_table.put(fd, e);
            assert(self.fd_table.spec_entries() =~= m);
            return None;
        }
        let old_mask = e.poll_mask;
        let mut last = last_emit_ms;
        let mask = match &mut e.inner {
            FdInner::RtAsr(st) => {
                let _ = pop_send(st);
                let ghost s1 = **st;
                let interval = param_or(st, "stub_event_interval_ms", 100);
                let payload_bytes = param_or(st, "stub_event_payload_bytes", 256);
                let every = param_or(st, "stub_emit_completed_every", 20);
                let elapsed = now_ms.saturating_sub(last_emit_ms);
                if elapsed >= interval {
                    last = now_ms;
                    st.stub_event_seq = st.stub_event_seq.wrapping_add(1);
                    let seq = st.stub_event_seq;
                    let completed = every != 0 && seq % every == 0;
                    let ty: &str = if completed { "transcription.completed" } else { "transcription.delta" };
                    let n = payload_bytes as usize;
                    let text_len = n.saturating_sub(80);
                    let text = stub_event(seq, ty, text_len);
                    let payload = crate::types::bytes_to_vec(text.as_str().as_bytes());
                    enqueue_event(st, payload);
                }
                let mut mk = PollEvents::EMPTY();
                if st.recv_queue.len() > 0 {
                    mk.insert(PollEvents::IN());
                }
                let writable = st.send_queue_bytes < st.max_send_queue_bytes && st.state != RtAsrConnState::Draining
                    && st.state != RtAsrConnState::Closed && st.state != RtAsrConnState::Error;
                if writable {
                    mk.insert(PollEvents::OUT());
                }
                if st.state == RtAsrConnState::Error {
                    mk.insert(PollEvents::ERR());
                }
                mk
            },
            _ => PollEvents::EMPTY(),
        };
        e.poll_mask = mask;
        let ghost en = e;
        self.fd_table.store_entry(fd, e, old_mask);
        proof {
            lemma_store_back(m, fd, en, old_mask.0);
        }
        Some(last)
    }
}

/// What the standard (padded) base64 engine of the `base64` crate encodes
/// bytes to.
pub uninterp spec fn base64_standard_encoded(b: Seq<u8>) -> Seq<char>;

/// `base64::engine::general_purpose::STANDARD.encode`.
#[verifier::external_body]
fn base64_standard_encode(b: &[u8]) -> (r: String)
    ensures
        r@ == base64_standard_encoded(b@),
{
    base64::engine::general_purpose::STANDARD.encode(b)
}

/// The upstream event that appends audio `chunk`: a JSON object with the
/// base64 text of the audio and the event type, members in name order.
pub open spec fn audio_append_text(chunk: Seq<u8>) -> Seq<char> {
    "{\"audio\":\""@ + base64_standard_encoded(chunk) + "\",\"type\":\"input_audio_buffer.append\"}"@
}

/// The text the websocket writer sends for a queued item: the text as
/// queued, or the append event of queued audio.
pub fn send_item_text(item: &RtAsrSendItem) -> (r: String)
    ensures
        r@ == match item {
            RtAsrSendItem::Audio(b) => audio_append_text(b@),
            RtAsrSendItem::WsText(t) => t@,
        },
{
    match item {
        RtAsrSendItem::Audio(b) => {
            let enc = base64_standard_encode(b.as_slice());
            String::from_str("{\"audio\":\"").concat(enc.as_str()).concat("\",\"type\":\"input_audio_buffer.append\"}")
        },
        RtAsrSendItem::WsText(t) => t.clone(),
    }
}

impl DefaultHostApi {
    /// The websocket session of stream `fd` failed with `msg`: the stream
    /// enters the error state with that error, the error bit is raised and
    /// the watchers are notified.
    pub fn rtasr_set_error(&mut self, fd: i32, msg: String)
        ensures
            final(self).fd_table.spec_next_fd() == old(self).fd_table.spec_next_fd(),
            ({
                let m = old(self).fd_table.spec_entries();
                let m2 = final(self).fd_table.spec_entries();
                if !m.contains_key(fd) {
                    m2 == m
                } else {
                    let e = m[fd];
                    let e1 = if e.inner is RtAsr {
                        with_rtasr(e, RtAsrState { last_error: Some(msg), state: RtAsrConnState::Error, ..rtasr_st(e) })
                    } else {
                        e
                    };
                    let e2 = FdEntry { poll_mask: PollEvents(e.poll_mask.0 | 8u32), ..e1 };
                    m2 == notified(m.insert(fd, e2), e2.watchers@)
                }
            }),
    {
        let ghost m = self.fd_table.spec_entries();
        let mut e = match self.fd_table.take(fd) {
            None => {
                assert(self.fd_table.spec_entries() =~= m);
                return;
            },
            Some(e) => e,
        };
        if let FdInner::RtAsr(st) = &mut e.inner {
            st.last_error = Some(msg);
            st.state = RtAsrConnState::Error;
        }
        e.poll_mask.insert(PollEvents::ERR());
        self.fd_table.put(fd, e);
        proof {
            assert(m.remove(fd).insert(fd, e) =~= m.insert(fd, e));
        }
        self.fd_table.notify_watchers(fd);
    }

    /// The peer closed the websocket session of stream `fd`: the hang-up
    /// bit is raised and the watchers are notified.
    pub fn rtasr_set_hup(&mut self, fd: i32)
        ensures
            final(self).fd_table.spec_next_fd() == old(self).fd_table.spec_next_fd(),
            ({
                let m = old(self).fd_table.spec_entries();
                let m2 = final(self).fd_table.spec_entries();
                if !m.contains_key(fd) {
                    m2 == m
                } else {
                    let e2 = FdEntry { poll_mask: PollEvents(m[fd].poll_mask.0 | 16u32), ..m[fd] };
                    m2 == notified(m.insert(fd, e2), e2.watchers@)
                }
            }),
    {
        let ghost m = self.fd_table.spec_entries();
        let mut e = match self.fd_table.take(fd) {
            None => {
                assert(self.fd_table.spec_entries() =~= m);
                return;
            },
            Some(e) => e,
        };
        e.poll_mask.insert(PollEvents::HUP());
        self.fd_table.put(fd, e);
        proof {
            assert(m.remove(fd).insert(fd, e) =~= m.insert(fd, e));
        }
        self.fd_table.notify_watchers(fd);
    }

    /// An event `payload` arrived from the websocket session of stream
    /// `fd`: unless the descriptor is closed it is queued (see
    /// [`enqueue_event`]) and the readiness recomputed.
    pub fn rtasr_push_event(&mut self, fd: i32, payload: Vec<u8>)
        ensures
            final(self).fd_table.spec_next_fd() == old(self).fd_table.spec_next_fd(),
            ({
                let m = old(self).fd_table.spec_entries();
                let m2 = final(self).fd_table.spec_entries();
                if !m.contains_key(fd) || m[fd].closed || !(m[fd].inner is RtAsr) {
                    m2 == m
                } else {
                    let s0 = rtasr_st(m[fd]);
                    let s2 = rtasr_st(m2[fd]);
                    &&& recv_after(s0, payload@, s2.recv_queue@, s2.recv_queue_bytes, s2.dropped_events)
                    &&& s2 == (RtAsrState { recv_queue: s2.recv_queue, recv_queue_bytes: s2.recv_queue_bytes, dropped_events: s2.dropped_events, ..s0 })
                    &&& m2 == table_after_store(m, fd, FdEntry { poll_mask: PollEvents(rtasr_readiness(s2, false)), ..with_rtasr(m[fd], s2) }, m[fd].poll_mask.0)
                }
            }),
    {
        let ghost m = self.fd_table.spec_entries();
        let mut e = match self.fd_table.take(fd) {
            None => {
                assert(self.fd_table.spec_entries() =~= m);
                return;
            },
            Some(e) => e,
        };
        if e.closed || !matches!(e.inner, FdInner::RtAsr(_)) {
            self.fd_table.put(fd, e);
            assert(self.fd_table.spec_entries() =~= m);
            return;
        }
        let old_mask = e.poll_mask;
        if let FdInner::RtAsr(st) = &mut e.inner {
            enqueue_event(st, payload);
        }
        self.recompute_rtasr_readiness_locked(&mut e);
        let ghost en = e;
        self.fd_table.store_entry(fd, e, old_mask);
        proof {
            lemma_store_back(m, fd, en, old_mask.0);
        }
    }

    /// The websocket writer of stream `fd` takes the next queued item and
    /// the readiness is recomputed; nothing once the descriptor is gone or
    /// closed, or the stream failed or closed. `Err` for a descriptor of
    /// another kind.
    pub fn rtasr_pop_send_item(&mut self, fd: i32) -> (r: Result<Option<RtAsrSendItem>, ()>)
        ensures
            final(self).fd_table.spec_next_fd() == old(self).fd_table.spec_next_fd(),
            ({
                let m = old(self).fd_table.spec_entries();
                let m2 = final(self).fd_table.spec_entries();
                if !m.contains_key(fd) || m[fd].closed {
                    r == Ok::<Option<RtAsrSendItem>, ()>(None) && m2 == m
                } else if !(m[fd].inner is RtAsr) {
                    r is Err && m2 == m
                } else if rtasr_st(m[fd]).state == RtAsrConnState::Error || rtasr_st(m[fd]).state == RtAsrConnState::Closed {
                    r == Ok::<Option<RtAsrSendItem>, ()>(None) && m2 == m
                } else {
                    let s0 = rtasr_st(m[fd]);
                    let s2 = rtasr_st(m2[fd]);
                    &&& send_popped(s0, s2)
                    &&& match r {
                        Ok(Some(it)) => s0.send_queue@.len() > 0 && it == s0.send_queue@[0],
                        Ok(None) => s0.send_queue@.len() == 0,
                        Err(_) => false,
                    }
                    &&& m2 == table_after_store(m, fd, FdEntry { poll_mask: PollEvents(rtasr_readiness(s2, false)), ..with_rtasr(m[fd], s2) }, m[fd].poll_mask.0)
                }
            }),
    {
        let ghost m = self.fd_table.spec_entries();
        let mut e = match self.fd_table.take(fd) {
            None => {
                assert(self.fd_table.spec_entries() =~= m);
                return Ok(None);
            },
            Some(e) => e,
        };
        let chk: Option<Result<Option<RtAsrSendItem>, ()>> = match &e.inner {
            FdInner::RtAsr(st) => if e.closed {
                Some(Ok(None))
            } else if st.state == RtAsrConnState::Error || st.state == RtAsrConnState::Closed {
                Some(Ok(None))
            } else {
                None
            },
            _ => if e.closed { Some(Ok(None)) } else { Some(Err(())) },
        };
        if let Some(res) = chk {
            self.fd_table.put(fd, e);
            assert(self.fd_table.spec_entries() =~= m);
            return res;
        }
        let old_mask = e.poll_mask;
        let item = match &mut e.inner {
            FdInner::RtAsr(st) => pop_send(st),
            _ => None,
        };
        self.recompute_rtasr_readiness_locked(&mut e);
        let ghost en = e;
        self.fd_table.store_entry(fd, e, old_mask);
        proof {
            lemma_store_back(m, fd, en, old_mask.0);
        }
        Ok(item)
    }

    /// With nothing queued, the websocket writer of stream `fd` lets an
    /// automatic commit come due at `now_ms` (see
    /// [`crate::rtasr::autoflush_step`]); returns whether one was queued.
    pub fn rtasr_maybe_autoflush(&mut self, fd: i32, now_ms: u64) -> (r: bool)
        ensures
            final(self).fd_table.spec_next_fd() == old(self).fd_table.spec_next_fd(),
            ({
                let m = old(self).fd_table.spec_entries();
                let m2 = final(self).fd_table.spec_entries();
                if !m.contains_key(fd) || m[fd].closed || !(m[fd].inner is RtAsr) {
                    !r && m2 == m
                } else {
                    let s0 = rtasr_st(m[fd]);
                    let s2 = rtasr_st(m2[fd]);
                    &&& autoflush_step(s0, s2, now_ms)
                    &&& r == (s2.send_queue_bytes != s0.send_queue_bytes)
                    &&& m2 == m.insert(fd, with_rtasr(m[fd], s2))
                }
            }),
    {
        let ghost m = self.fd_table.spec_entries();
        let mut e = match self.fd_table.take(fd) {
            None => {
                assert(self.fd_table.spec_entries() =~= m);
                return false;
            },
            Some(e) => e,
        };
        if e.closed || !matches!(e.inner, FdInner::RtAsr(_)) {
            self.fd_table.put(fd, e);
            assert(self.fd_table.spec_entries() =~= m);
            return false;
        }
        let changed = match &mut e.inner {
            FdInner::RtAsr(st) => {
                let before = st.send_queue_bytes;
                maybe_enqueue_autoflush_locked(st, now_ms);
                st.send_queue_bytes != before
            },
            _ => false,
        };
        self.fd_table.put(fd, e);
        proof {
            assert(self.fd_table.spec_entries() =~= m.insert(fd, with_rtasr(m[fd], rtasr_st(self.fd_table.spec_entries()[fd]))));
        }
        changed
    }

    /// The websocket writer of stream `fd` sent a text item: no commit is
    /// pending any more.
    pub fn rtasr_clear_pending_flush(&mut self, fd: i32)
        ensures
            final(self).fd_table.spec_next_fd() == old(self).fd_table.spec_next_fd(),
            ({
                let m = old(self).fd_table.spec_entries();
                let m2 = final(self).fd_table.spec_entries();
                if !m.contains_key(fd) || !(m[fd].inner is RtAsr) {
                    m2 == m
                } else {
                    m2 == m.insert(fd, with_rtasr(m[fd], RtAsrState { pending_flush: false, ..rtasr_st(m[fd]) }))
                }
            }),
    {
        let ghost m = self.fd_table.spec_entries();
        let mut e = match self.fd_table.take(fd) {
            None => {
                assert(self.fd_table.spec_entries() =~= m);
                return;
            },
            Some(e) => e,
        };
        let ghost e0 = e;
        if let FdInner::RtAsr(st) = &mut e.inner {
            st.pending_flush = false;
        }
        self.fd_table.put(fd, e);
        proof {
            if e0.inner is RtAsr {
                assert(self.fd_table.spec_entries() =~= m.insert(fd, with_rtasr(m[fd], RtAsrState { pending_flush: false, ..rtasr_st(m[fd]) })));
            } else {
                assert(self.fd_table.spec_entries() =~= m);
            }
        }
    }
}

} // verus!