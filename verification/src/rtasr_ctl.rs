//! The control commands of realtime ASR descriptors.
use vstd::prelude::*;
use crate::errno::{SPEAR_EAGAIN, SPEAR_EBADF, SPEAR_EINVAL, SPEAR_EIO};
use crate::json::{JsonValue, JsonData, JsonNum, JsonObjectBuilder, json_str, json_u64, members_get, members_upsert, spec_member, str_eq, lemma_as_u64_view};
use crate::types::{FdEntry, FdInner, RtAsrConnState, RtAsrSendItem, RtAsrState, text_len, string_len, lemma_send_items_bytes_push};

use crate::host::DefaultHostApi;
use crate::termination::opt_text;
use crate::segmentation::{member_str, parse_segmentation_config, parse_segmentation_spec, segmentation_config_to_json, segmentation_data};
use crate::rtasr::{CtlPayload, RTASR_CTL_SET_PARAM, RTASR_CTL_CONNECT, RTASR_CTL_GET_STATUS, RTASR_CTL_SEND_EVENT, RTASR_CTL_FLUSH, RTASR_CTL_CLEAR, RTASR_CTL_SET_AUTOFLUSH, RTASR_CTL_GET_AUTOFLUSH, rtasr_st, rtasr_stored, same_rtasr_config, same_send, same_recv, same_flush, send_fits, queued_text, flush_event_text, clear_event_text, rtasr_flush_event_text, rtasr_clear_event_text, lemma_rtasr_store};

verus! {

/// How the host should bring a stream up after a connect command.
#[derive(Debug)]
pub enum RtAsrConnectPlan {
    /// A local stand-in that produces events without an upstream service.
    Stub,
    /// A websocket session with the upstream service, with the overrides the
    /// descriptor's parameters gave.
    Websocket {
        backend: Option<String>,
        model: Option<String>,
        ws_url: Option<String>,
        client_secret: Option<String>,
    },
}

/// The content of a [`RtAsrConnectPlan`].
pub enum RtAsrConnectPlanView {
    Stub,
    Websocket {
        backend: Option<Seq<char>>,
        model: Option<Seq<char>>,
        ws_url: Option<Seq<char>>,
        client_secret: Option<Seq<char>>,
    },
}

impl RtAsrConnectPlan {
    pub open spec fn view(&self) -> RtAsrConnectPlanView {
        match self {
            RtAsrConnectPlan::Stub => RtAsrConnectPlanView::Stub,
            RtAsrConnectPlan::Websocket { backend, model, ws_url, client_secret } => RtAsrConnectPlanView::Websocket {
                backend: opt_text(*backend),
                model: opt_text(*model),
                ws_url: opt_text(*ws_url),
                client_secret: opt_text(*client_secret),
            },
        }
    }
}

/// What a successful control command hands back.
#[derive(Debug)]
pub enum RtAsrCtlOutcome {
    /// Nothing to report.
    Done,
    /// A JSON document for the caller.
    Reply(JsonValue),
    /// The stream was connected; the host brings it up as planned.
    Connect(RtAsrConnectPlan),
}

/// The text of parameter `k`, where it is a string.
pub open spec fn param_str(s: RtAsrState, k: Seq<char>) -> Option<Seq<char>> {
    match spec_member(s.params@, k) {
        Some(v) => v.spec_as_str(),
        None => None,
    }
}

/// The plan a first connect makes: a websocket session where the
/// `transport` parameter says `websocket`, the local stand-in otherwise.
pub open spec fn connect_plan(s: RtAsrState) -> RtAsrConnectPlanView {
    if param_str(s, "transport"@) == Some("websocket"@) {
        RtAsrConnectPlanView::Websocket {
            backend: param_str(s, "backend"@),
            model: param_str(s, "model"@),
            ws_url: param_str(s, "ws_url"@),
            client_secret: param_str(s, "client_secret"@),
        }
    } else {
        RtAsrConnectPlanView::Stub
    }
}

/// The error of a command on a stream in state `st`: closed streams are
/// `-EBADF`, failed ones `-EIO`.
pub open spec fn state_error(st: RtAsrState) -> Option<i32> {
    if st.state == RtAsrConnState::Closed {
        Some(-SPEAR_EBADF as i32)
    } else if st.state == RtAsrConnState::Error {
        Some(-SPEAR_EIO as i32)
    } else {
        None
    }
}

/// The result is error `code` and the table is unchanged.
pub open spec fn failed_with(m: Map<i32, FdEntry>, m2: Map<i32, FdEntry>, r: Result<RtAsrCtlOutcome, i32>, code: i32) -> bool {
    r matches Err(x) && x == code && m2 == m
}

/// Whether entry `e` is not an open realtime ASR descriptor.
pub open spec fn not_rtasr(e: FdEntry) -> bool {
    e.closed || !(e.inner is RtAsr)
}

/// All but the parameters, the state and the queue limits are unchanged.
pub open spec fn same_but_params(a: RtAsrState, b: RtAsrState) -> bool {
    &&& same_send(a, b)
    &&& same_recv(a, b)
    &&& same_flush(a, b)
    &&& b.dropped_events == a.dropped_events
    &&& b.last_error == a.last_error
    &&& b.tasks_spawned == a.tasks_spawned
    &&& b.stub_connected == a.stub_connected
    &&& b.stub_event_seq == a.stub_event_seq
    &&& b.segmentation == a.segmentation
}

/// The key of a parameter request (empty when missing).
pub open spec fn request_key(p: JsonValue) -> Seq<char> {
    match member_str(p, "key"@) {
        Some(s) => s,
        None => ""@,
    }
}

/// The value of a parameter request (`null` when missing).
pub open spec fn request_value(p: JsonValue) -> JsonValue {
    match p.spec_get("value"@) {
        Some(v) => v,
        None => JsonValue::Null,
    }
}

/// A queue limit after parameter `key` was set to `v`: the limit named
/// `name` follows a non-negative integer value.
pub open spec fn limit_after(old_limit: usize, key: Seq<char>, name: Seq<char>, v: JsonValue) -> usize {
    if key == name && v.spec_as_u64() is Some {
        v.spec_as_u64().unwrap() as usize
    } else {
        old_limit
    }
}

/// State `b` is `a` with parameter `key` set to `v`.
pub open spec fn param_set(a: RtAsrState, b: RtAsrState, key: Seq<char>, v: JsonValue) -> bool {
    &&& spec_member(b.params@, key) matches Some(x) && x@ == v@
    &&& forall|k: Seq<char>| k != key ==> #[trigger] spec_member(b.params@, k) == spec_member(a.params@, k)
    &&& b.state == (if a.state == RtAsrConnState::Init { RtAsrConnState::Configured } else { a.state })
    &&& b.max_send_queue_bytes == limit_after(a.max_send_queue_bytes, key, "max_send_queue_bytes"@, v)
    &&& b.max_recv_queue_bytes == limit_after(a.max_recv_queue_bytes, key, "max_recv_queue_bytes"@, v)
    &&& same_but_params(a, b)
}

/// The outcome of setting a parameter on existing descriptor `fd`.
pub open spec fn set_param_spec(m: Map<i32, FdEntry>, fd: i32, payload: Option<JsonValue>, m2: Map<i32, FdEntry>, r: Result<RtAsrCtlOutcome, i32>) -> bool {
    match payload {
        None => failed_with(m, m2, r, -SPEAR_EINVAL as i32),
        Some(p) => if request_key(p).len() == 0 {
            failed_with(m, m2, r, -SPEAR_EINVAL as i32)
        } else if not_rtasr(m[fd]) {
            failed_with(m, m2, r, -SPEAR_EBADF as i32)
        } else {
            &&& r matches Ok(RtAsrCtlOutcome::Done)
            &&& rtasr_stored(m, fd, m2)
            &&& param_set(rtasr_st(m[fd]), rtasr_st(m2[fd]), request_key(p), request_value(p))
        },
    }
}

/// The outcome of a connect command on existing descriptor `fd`: the first
/// connect marks the stream connected and returns the plan; later ones
/// change nothing.
pub open spec fn connect_spec(m: Map<i32, FdEntry>, fd: i32, m2: Map<i32, FdEntry>, r: Result<RtAsrCtlOutcome, i32>) -> bool {
    if not_rtasr(m[fd]) {
        failed_with(m, m2, r, -SPEAR_EBADF as i32)
    } else if state_error(rtasr_st(m[fd])) is Some {
        failed_with(m, m2, r, state_error(rtasr_st(m[fd])).unwrap())
    } else {
        let s1 = rtasr_st(m[fd]);
        let s2 = rtasr_st(m2[fd]);
        &&& rtasr_stored(m, fd, m2)
        &&& if s1.stub_connected {
            r matches Ok(RtAsrCtlOutcome::Done) && s2 == s1
        } else {
            &&& r matches Ok(RtAsrCtlOutcome::Connect(p)) && p@ == connect_plan(s1)
            &&& s2 == RtAsrState { stub_connected: true, state: RtAsrConnState::Connected, ..s1 }
        }
    }
}

/// The name of a stream state.
pub open spec fn conn_state_text(c: RtAsrConnState) -> Seq<char> {
    match c {
        RtAsrConnState::Init => "Init"@,
        RtAsrConnState::Configured => "Configured"@,
        RtAsrConnState::Connecting => "Connecting"@,
        RtAsrConnState::Connected => "Connected"@,
        RtAsrConnState::Draining => "Draining"@,
        RtAsrConnState::Closed => "Closed"@,
        RtAsrConnState::Error => "Error"@,
    }
}

/// A count as a JSON number.
pub open spec fn count_data(n: int) -> JsonData {
    JsonData::Number(JsonNum::PosInt(n as u64))
}

/// The status document of a stream.
pub open spec fn status_data(s: RtAsrState) -> JsonData {
    JsonData::Object(
        seq![
            ("dropped_events"@, count_data(s.dropped_events as int)),
            ("last_error"@, match s.last_error {
                Some(t) => JsonData::Str(t@),
                None => JsonData::Null,
            }),
            ("max_recv_queue_bytes"@, count_data(s.max_recv_queue_bytes as int)),
            ("max_send_queue_bytes"@, count_data(s.max_send_queue_bytes as int)),
            ("recv_queue_bytes"@, count_data(s.recv_queue_bytes as int)),
            ("send_queue_bytes"@, count_data(s.send_queue_bytes as int)),
            ("state"@, JsonData::Str(conn_state_text(s.state))),
        ],
    )
}

/// A command that only reads: `-EBADF` for a closed or foreign
/// descriptor, else the document `doc` of its state.
pub open spec fn read_cmd_spec(m: Map<i32, FdEntry>, fd: i32, m2: Map<i32, FdEntry>, r: Result<RtAsrCtlOutcome, i32>, doc: JsonData) -> bool {
    if not_rtasr(m[fd]) {
        failed_with(m, m2, r, -SPEAR_EBADF as i32)
    } else {
        m2 == m && (r matches Ok(RtAsrCtlOutcome::Reply(j)) && j@ == doc)
    }
}

/// All but the send queue and the flush bookkeeping are unchanged.
pub open spec fn same_but_send_and_flush(a: RtAsrState, b: RtAsrState) -> bool {
    &&& same_rtasr_config(a, b)
    &&& same_recv(a, b)
    &&& b.state == a.state
    &&& b.last_audio_at_ms == a.last_audio_at_ms
}

/// Queuing text `t` on existing descriptor `fd`: the usual checks, then
/// `-EAGAIN` when it does not fit, else the text is queued and the flush
/// bookkeeping set by `flush`: `Some(pending)` resets the audio count and
/// the flush time to `now_ms`, `None` leaves it.
pub open spec fn queue_text_spec(
    m: Map<i32, FdEntry>,
    fd: i32,
    t: Seq<char>,
    flush: Option<bool>,
    now_ms: u64,
    m2: Map<i32, FdEntry>,
    r: Result<RtAsrCtlOutcome, i32>,
) -> bool {
    if not_rtasr(m[fd]) {
        failed_with(m, m2, r, -SPEAR_EBADF as i32)
    } else if state_error(rtasr_st(m[fd])) is Some {
        failed_with(m, m2, r, state_error(rtasr_st(m[fd])).unwrap())
    } else if !send_fits(rtasr_st(m[fd]), text_len(t) as usize) {
        failed_with(m, m2, r, -SPEAR_EAGAIN as i32)
    } else {
        let s1 = rtasr_st(m[fd]);
        let s2 = rtasr_st(m2[fd]);
        &&& r matches Ok(RtAsrCtlOutcome::Done)
        &&& rtasr_stored(m, fd, m2)
        &&& queued_text(s1, s2, t)
        &&& same_but_send_and_flush(s1, s2)
        &&& match flush {
            Some(pending) => {
                &&& s2.pending_flush == pending
                &&& s2.buffered_audio_bytes_since_flush == 0
                &&& s2.last_flush_at_ms == now_ms
            },
            None => same_flush(s1, s2),
        }
        &&& s1.wf() && s1.max_send_queue_bytes < usize::MAX ==> s2.wf()
    }
}

/// Setting the segmentation on existing descriptor `fd` at `now_ms`.
pub open spec fn set_autoflush_spec(
    m: Map<i32, FdEntry>,
    fd: i32,
    payload: Option<JsonValue>,
    now_ms: u64,
    m2: Map<i32, FdEntry>,
    r: Result<RtAsrCtlOutcome, i32>,
) -> bool {
    match payload {
        None => failed_with(m, m2, r, -SPEAR_EINVAL as i32),
        Some(p) => match parse_segmentation_spec(p) {
            Err(e) => failed_with(m, m2, r, e),
            Ok(cfg) => if not_rtasr(m[fd]) {
                failed_with(m, m2, r, -SPEAR_EBADF as i32)
            } else {
                let s1 = rtasr_st(m[fd]);
                let s2 = rtasr_st(m2[fd]);
                &&& r matches Ok(RtAsrCtlOutcome::Done)
                &&& rtasr_stored(m, fd, m2)
                &&& s2.segmentation@ == cfg
                &&& !s2.pending_flush
                &&& s2.buffered_audio_bytes_since_flush == 0
                &&& s2.last_flush_at_ms == now_ms
                &&& s2.last_audio_at_ms == now_ms
                &&& s2.state == s1.state
                &&& same_send(s1, s2)
                &&& same_recv(s1, s2)
                &&& s2.params == s1.params
                &&& s2.max_send_queue_bytes == s1.max_send_queue_bytes
                &&& s2.max_recv_queue_bytes == s1.max_recv_queue_bytes
                &&& s2.stub_connected == s1.stub_connected
                &&& s2.dropped_events == s1.dropped_events
                &&& s2.last_error == s1.last_error
                &&& s1.wf() ==> s2.wf()
            },
        },
    }
}

/// The outcome of control command `cmd` on descriptor `fd` at `now_ms`.
pub open spec fn rtasr_ctl_spec(
    m: Map<i32, FdEntry>,
    fd: i32,
    cmd: i32,
    payload: Option<(JsonValue, Seq<char>)>,
    now_ms: u64,
    m2: Map<i32, FdEntry>,
    r: Result<RtAsrCtlOutcome, i32>,
) -> bool {
    let value = match payload {
        Some(p) => Some(p.0),
        None => None,
    };
    if !m.contains_key(fd) {
        failed_with(m, m2, r, -SPEAR_EBADF as i32)
    } else if cmd == RTASR_CTL_SET_PARAM {
        set_param_spec(m, fd, value, m2, r)
    } else if cmd == RTASR_CTL_CONNECT {
        connect_spec(m, fd, m2, r)
    } else if cmd == RTASR_CTL_GET_STATUS {
        read_cmd_spec(m, fd, m2, r, status_data(rtasr_st(m[fd])))
    } else if cmd == RTASR_CTL_SEND_EVENT {
        match payload {
            None => failed_with(m, m2, r, -SPEAR_EINVAL as i32),
            Some(p) => queue_text_spec(m, fd, p.1, None, now_ms, m2, r),
        }
    } else if cmd == RTASR_CTL_FLUSH {
        queue_text_spec(m, fd, flush_event_text(), Some(true), now_ms, m2, r)
    } else if cmd == RTASR_CTL_CLEAR {
        queue_text_spec(m, fd, clear_event_text(), Some(false), now_ms, m2, r)
    } else if cmd == RTASR_CTL_SET_AUTOFLUSH {
        set_autoflush_spec(m, fd, value, now_ms, m2, r)
    } else if cmd == RTASR_CTL_GET_AUTOFLUSH {
        read_cmd_spec(m, fd, m2, r, segmentation_data(rtasr_st(m[fd]).segmentation@))
    } else {
        failed_with(m, m2, r, -SPEAR_EINVAL as i32)
    }
}

/// The payload as (document, text).
pub open spec fn payload_view(p: Option<&CtlPayload>) -> Option<(JsonValue, Seq<char>)> {
    match p {
        Some(c) => Some((c.value, c.text@)),
        None => None,
    }
}

fn state_error_of(st: &RtAsrState) -> (r: Option<i32>)
    ensures
        r == state_error(*st),
{
    if st.state == RtAsrConnState::Closed {
        Some(-SPEAR_EBADF)
    } else if st.state == RtAsrConnState::Error {
        Some(-SPEAR_EIO)
    } else {
        None
    }
}

fn param_text(st: &RtAsrState, k: &str) -> (r: Option<String>)
    ensures
        opt_text(r) == param_str(*st, k@),
{
    match members_get(&st.params, k) {
        Some(v) => match v.as_str() {
            Some(s) => Some(s.to_string()),
            None => None,
        },
        None => None,
    }
}

fn apply_param(st: &mut RtAsrState, key: String, value: JsonValue)
    requires
        key@.len() > 0,
    ensures
        param_set(*old(st), *final(st), key@, value),
{
    let ghost v0 = value;
    let send_limit = str_eq(key.as_str(), "max_send_queue_bytes");
    let recv_limit = str_eq(key.as_str(), "max_recv_queue_bytes");
    let n = value.as_u64();
    let ghost k = key@;
    members_upsert(&mut st.params, key, value);
    if st.state == RtAsrConnState::Init {
        st.state = RtAsrConnState::Configured;
    }
    if send_limit {
        if let Some(x) = n {
            st.max_send_queue_bytes = x as usize;
        }
    }
    if recv_limit {
        if let Some(x) = n {
            st.max_recv_queue_bytes = x as usize;
        }
    }
    proof {
        reveal_strlit("max_send_queue_bytes");
        reveal_strlit("max_recv_queue_bytes");
    }
}

fn connect_state(st: &mut RtAsrState) -> (r: Option<RtAsrConnectPlan>)
    ensures
        old(st).stub_connected ==> r is None && *final(st) == *old(st),
        !old(st).stub_connected ==> (r matches Some(p) && p@ == connect_plan(*old(st)))
            && *final(st) == (RtAsrState { stub_connected: true, state: RtAsrConnState::Connected, ..*old(st) }),
{
    if st.stub_connected {
        return None;
    }
    let websocket = match members_get(&st.params, "transport") {
        Some(v) => match v.as_str() {
            Some(s) => str_eq(s, "websocket"),
            None => false,
        },
        None => false,
    };
    let plan = if websocket {
        RtAsrConnectPlan::Websocket {
            backend: param_text(st, "backend"),
            model: param_text(st, "model"),
            ws_url: param_text(st, "ws_url"),
            client_secret: param_text(st, "client_secret"),
        }
    } else {
        RtAsrConnectPlan::Stub
    };
    st.stub_connected = true;
    st.state = RtAsrConnState::Connected;
    Some(plan)
}

fn count_json(n: u64) -> (r: JsonValue)
    ensures
        r@ == count_data(n as int),
{
    json_u64(n)
}

fn status_json(st: &RtAsrState) -> (r: JsonValue)
    ensures
        r@ == status_data(*st),
{
    let state: &str = match st.state {
        RtAsrConnState::Init => "Init",
        RtAsrConnState::Configured => "Configured",
        RtAsrConnState::Connecting => "Connecting",
        RtAsrConnState::Connected => "Connected",
        RtAsrConnState::Draining => "Draining",
        RtAsrConnState::Closed => "Closed",
        RtAsrConnState::Error => "Error",
    };
    let last_error = match &st.last_error {
        Some(t) => JsonValue::Str(t.clone()),
        None => JsonValue::Null,
    };
    let mut o = JsonObjectBuilder::new();
    o.add("dropped_events", count_json(st.dropped_events));
    o.add("last_error", last_error);
    o.add("max_recv_queue_bytes", count_json(st.max_recv_queue_bytes as u64));
    o.add("max_send_queue_bytes", count_json(st.max_send_queue_bytes as u64));
    o.add("recv_queue_bytes", count_json(st.recv_queue_bytes as u64));
    o.add("send_queue_bytes", count_json(st.send_queue_bytes as u64));
    o.add("state", json_str(state));
    let r = o.build();
    assert(o@ =~= match status_data(*st) {
        JsonData::Object(s) => s,
        _ => Seq::empty(),
    });
    r
}

/// Queues `txt`, setting the flush bookkeeping as `flush` says.
fn push_text(st: &mut RtAsrState, txt: String, flush: Option<bool>, now_ms: u64)
    requires
        send_fits(*old(st), text_len(txt@)),
    ensures
        queued_text(*old(st), *final(st), txt@),
        same_but_send_and_flush(*old(st), *final(st)),
        match flush {
            Some(pending) => {
                &&& final(st).pending_flush == pending
                &&& final(st).buffered_audio_bytes_since_flush == 0
                &&& final(st).last_flush_at_ms == now_ms
            },
            None => same_flush(*old(st), *final(st)),
        },
        old(st).wf() && old(st).max_send_queue_bytes < usize::MAX ==> final(st).wf(),
{
    let n = string_len(&txt);
    let item = RtAsrSendItem::WsText(txt);
    proof {
        lemma_send_items_bytes_push(st.send_queue@, item);
    }
    let ghost q0 = st.send_queue@;
    st.send_queue.push_back(item);
    st.send_queue_bytes = st.send_queue_bytes.saturating_add(n);
    assert(st.send_queue@.subrange(0, q0.len() as int) =~= q0);
    if let Some(pending) = flush {
        st.pending_flush = pending;
        st.buffered_audio_bytes_since_flush = 0;
        st.last_flush_at_ms = now_ms;
    }
}

fn fits(st: &RtAsrState, n: usize) -> (r: bool)
    ensures
        r == send_fits(*st, n),
{
    st.send_queue_bytes.saturating_add(n) <= st.max_send_queue_bytes
}

impl DefaultHostApi {
    fn rtasr_set_param(&mut self, fd: i32, payload: Option<&JsonValue>) -> (r: Result<RtAsrCtlOutcome, i32>)
        requires
            old(self).fd_table.spec_entries().contains_key(fd),
        ensures
            final(self).fd_table.spec_next_fd() == old(self).fd_table.spec_next_fd(),
            set_param_spec(
                old(self).fd_table.spec_entries(),
                fd,
                match payload {
                    Some(p) => Some(*p),
                    None => None,
                },
                final(self).fd_table.spec_entries(),
                r,
            ),
    {
        let ghost m = self.fd_table.spec_entries();
        let p = match payload {
            None => { return Err(-SPEAR_EINVAL); },
            Some(p) => p,
        };
        let key: String = match p.get("key") {
            Some(k) => match k.as_str() {
                Some(s) => s.to_string(),
                None => String::new(),
            },
            None => String::new(),
        };
        let value = match p.get("value") {
            Some(v) => v.duplicate(),
            None => JsonValue::Null,
        };
        proof {
            reveal_strlit("");
        }
        assert(key@ == request_key(*p));
        if key.as_str().unicode_len() == 0 {
            return Err(-SPEAR_EINVAL);
        }
        let mut e = match self.fd_table.take(fd) {
            None => { return Err(-SPEAR_EBADF); },
            Some(e) => e,
        };
        if e.closed || !matches!(e.inner, FdInner::RtAsr(_)) {
            self.fd_table.put(fd, e);
            assert(self.fd_table.spec_entries() =~= m);
            return Err(-SPEAR_EBADF);
        }
        let old_mask = e.poll_mask;
        match &mut e.inner {
            FdInner::RtAsr(st) => apply_param(st, key, value),
            _ => {},
        }
        self.recompute_rtasr_readiness_locked(&mut e);
        let ghost ef = e;
        self.fd_table.store_entry(fd, e, old_mask);
        proof {
            lemma_rtasr_store(m, fd, ef, old_mask.0, self.fd_table.spec_entries());
            lemma_param_set_view(rtasr_st(m[fd]), rtasr_st(ef), request_key(*p), value, request_value(*p));
        }
        Ok(RtAsrCtlOutcome::Done)
    }
}

impl DefaultHostApi {
    fn rtasr_connect(&mut self, fd: i32) -> (r: Result<RtAsrCtlOutcome, i32>)
        requires
            old(self).fd_table.spec_entries().contains_key(fd),
        ensures
            final(self).fd_table.spec_next_fd() == old(self).fd_table.spec_next_fd(),
            connect_spec(old(self).fd_table.spec_entries(), fd, final(self).fd_table.spec_entries(), r),
    {
        let ghost m = self.fd_table.spec_entries();
        let mut e = match self.fd_table.take(fd) {
            None => { return Err(-SPEAR_EBADF); },
            Some(e) => e,
        };
        let chk = match &e.inner {
            FdInner::RtAsr(st) => if e.closed { Some(-SPEAR_EBADF) } else { state_error_of(st) },
            _ => Some(-SPEAR_EBADF),
        };
        if let Some(code) = chk {
            self.fd_table.put(fd, e);
            assert(self.fd_table.spec_entries() =~= m);
            return Err(code);
        }
        let old_mask = e.poll_mask;
        let plan = match &mut e.inner {
            FdInner::RtAsr(st) => connect_state(st),
            _ => None,
        };
        self.recompute_rtasr_readiness_locked(&mut e);
        let ghost ef = e;
        self.fd_table.store_entry(fd, e, old_mask);
        proof {
            lemma_rtasr_store(m, fd, ef, old_mask.0, self.fd_table.spec_entries());
        }
        match plan {
            Some(p) => Ok(RtAsrCtlOutcome::Connect(p)),
            None => Ok(RtAsrCtlOutcome::Done),
        }
    }

    fn rtasr_read_doc(&mut self, fd: i32, segmentation: bool) -> (r: Result<RtAsrCtlOutcome, i32>)
        requires
            old(self).fd_table.spec_entries().contains_key(fd),
        ensures
            final(self).fd_table.spec_next_fd() == old(self).fd_table.spec_next_fd(),
            read_cmd_spec(
                old(self).fd_table.spec_entries(),
                fd,
                final(self).fd_table.spec_entries(),
                r,
                if segmentation {
                    segmentation_data(rtasr_st(old(self).fd_table.spec_entries()[fd]).segmentation@)
                } else {
                    status_data(rtasr_st(old(self).fd_table.spec_entries()[fd]))
                },
            ),
    {
        let ghost m = self.fd_table.spec_entries();
        let e = match self.fd_table.take(fd) {
            None => { return Err(-SPEAR_EBADF); },
            Some(e) => e,
        };
        let doc = match &e.inner {
            FdInner::RtAsr(st) => if e.closed {
                None
            } else if segmentation {
                Some(segmentation_config_to_json(&st.segmentation))
            } else {
                Some(status_json(st))
            },
            _ => None,
        };
        self.fd_table.put(fd, e);
        assert(self.fd_table.spec_entries() =~= m);
        match doc {
            Some(j) => Ok(RtAsrCtlOutcome::Reply(j)),
            None => Err(-SPEAR_EBADF),
        }
    }

    fn rtasr_queue_text(&mut self, fd: i32, txt: String, flush: Option<bool>, now_ms: u64) -> (r: Result<RtAsrCtlOutcome, i32>)
        requires
            old(self).fd_table.spec_entries().contains_key(fd),
        ensures
            final(self).fd_table.spec_next_fd() == old(self).fd_table.spec_next_fd(),
            queue_text_spec(old(self).fd_table.spec_entries(), fd, txt@, flush, now_ms, final(self).fd_table.spec_entries(), r),
    {
        let ghost m = self.fd_table.spec_entries();
        let mut e = match self.fd_table.take(fd) {
            None => { return Err(-SPEAR_EBADF); },
            Some(e) => e,
        };
        let n = string_len(&txt);
        let chk = match &e.inner {
            FdInner::RtAsr(st) => if e.closed {
                Some(-SPEAR_EBADF)
            } else {
                match state_error_of(st) {
                    Some(c) => Some(c),
                    None => if fits(st, n) { None } else { Some(-SPEAR_EAGAIN) },
                }
            },
            _ => Some(-SPEAR_EBADF),
        };
        if let Some(code) = chk {
            self.fd_table.put(fd, e);
            assert(self.fd_table.spec_entries() =~= m);
            return Err(code);
        }
        let old_mask = e.poll_mask;
        match &mut e.inner {
            FdInner::RtAsr(st) => push_text(st, txt, flush, now_ms),
            _ => {},
        }
        self.recompute_rtasr_readiness_locked(&mut e);
        let ghost ef = e;
        self.fd_table.store_entry(fd, e, old_mask);
        proof {
            lemma_rtasr_store(m, fd, ef, old_mask.0, self.fd_table.spec_entries());
        }
        Ok(RtAsrCtlOutcome::Done)
    }

    fn rtasr_set_autoflush(&mut self, fd: i32, payload: Option<&JsonValue>, now_ms: u64) -> (r: Result<RtAsrCtlOutcome, i32>)
        requires
            old(self).fd_table.spec_entries().contains_key(fd),
        ensures
            final(self).fd_table.spec_next_fd() == old(self).fd_table.spec_next_fd(),
            set_autoflush_spec(
                old(self).fd_table.spec_entries(),
                fd,
                match payload {
                    Some(p) => Some(*p),
                    None => None,
                },
                now_ms,
                final(self).fd_table.spec_entries(),
                r,
            ),
    {
        let ghost m = self.fd_table.spec_entries();
        let p = match payload {
            None => { return Err(-SPEAR_EINVAL); },
            Some(p) => p,
        };
        let cfg = match parse_segmentation_config(p) {
            Ok(c) => c,
            Err(code) => { return Err(code); },
        };
        let mut e = match self.fd_table.take(fd) {
            None => { return Err(-SPEAR_EBADF); },
            Some(e) => e,
        };
        if e.closed || !matches!(e.inner, FdInner::RtAsr(_)) {
            self.fd_table.put(fd, e);
            assert(self.fd_table.spec_entries() =~= m);
            return Err(-SPEAR_EBADF);
        }
        let old_mask = e.poll_mask;
        match &mut e.inner {
            FdInner::RtAsr(st) => {
                st.segmentation = cfg;
                st.pending_flush = false;
                st.buffered_audio_bytes_since_flush = 0;
                st.last_flush_at_ms = now_ms;
                st.last_audio_at_ms = now_ms;
            },
            _ => {},
        }
        self.recompute_rtasr_readiness_locked(&mut e);
        let ghost ef = e;
        self.fd_table.store_entry(fd, e, old_mask);
        proof {
            lemma_rtasr_store(m, fd, ef, old_mask.0, self.fd_table.spec_entries());
        }
        Ok(RtAsrCtlOutcome::Done)
    }

    /// Runs control command `cmd` on realtime ASR descriptor `fd` at time
    /// `now_ms`; see [`rtasr_ctl_spec`] for each command. `payload` is the
    /// request document with its compact text, where the caller sent one
    /// that parses; a request that does not parse is refused by the caller
    /// with `-EINVAL`, as a missing one is here.
    pub fn rtasr_ctl(&mut self, fd: i32, cmd: i32, payload: Option<&CtlPayload>, now_ms: u64) -> (r: Result<RtAsrCtlOutcome, i32>)
        ensures
            final(self).fd_table.spec_next_fd() == old(self).fd_table.spec_next_fd(),
            rtasr_ctl_spec(old(self).fd_table.spec_entries(), fd, cmd, payload_view(payload), now_ms,
                final(self).fd_table.spec_entries(), r),
    {
        if !self.fd_table.contains(fd) {
            return Err(-SPEAR_EBADF);
        }
        let value = match payload {
            Some(p) => Some(&p.value),
            None => None,
        };
        if cmd == RTASR_CTL_SET_PARAM {
            self.rtasr_set_param(fd, value)
        } else if cmd == RTASR_CTL_CONNECT {
            self.rtasr_connect(fd)
        } else if cmd == RTASR_CTL_GET_STATUS {
            self.rtasr_read_doc(fd, false)
        } else if cmd == RTASR_CTL_SEND_EVENT {
            match payload {
                None => Err(-SPEAR_EINVAL),
                Some(p) => self.rtasr_queue_text(fd, p.text.clone(), None, now_ms),
            }
        } else if cmd == RTASR_CTL_FLUSH {
            self.rtasr_queue_text(fd, rtasr_flush_event_text(), Some(true), now_ms)
        } else if cmd == RTASR_CTL_CLEAR {
            self.rtasr_queue_text(fd, rtasr_clear_event_text(), Some(false), now_ms)
        } else if cmd == RTASR_CTL_SET_AUTOFLUSH {
            self.rtasr_set_autoflush(fd, value, now_ms)
        } else if cmd == RTASR_CTL_GET_AUTOFLUSH {
            self.rtasr_read_doc(fd, true)
        } else {
            Err(-SPEAR_EINVAL)
        }
    }
}

/// Parameter updates only depend on the content of the value.
proof fn lemma_param_set_view(a: RtAsrState, b: RtAsrState, key: Seq<char>, v1: JsonValue, v2: JsonValue)
    requires
        param_set(a, b, key, v1),
        v1@ == v2@,
    ensures
        param_set(a, b, key, v2),
{
    lemma_as_u64_view(v1, v2);
}

} // verus!
