//! Properties of the library that relate several operations or hold of
//! every state.
use vstd::prelude::*;
use crate::poll::PollEvents;
use crate::types::{ChatResponseState, FdEntry, FdInner, UserStreamChannel, RtAsrState, frames_bytes, lemma_frames_bytes_drop_first, lemma_frames_bytes_push};
use crate::rtasr_tasks::recv_after;
use crate::fd_table::{EP_CTL_ADD, EP_CTL_DEL, ep_ctl_spec, interest_list, notified};
use crate::termination::{TerminationRecord, TerminationScope, TerminationSnapshot, records_after_request, pending_snapshot, opt_text};
use crate::rtasr::rtasr_st;
use crate::rtasr_ctl::{RtAsrCtlOutcome, set_autoflush_spec, read_cmd_spec, queue_text_spec};
use crate::segmentation::{parse_segmentation_spec, segmentation_data};
use crate::json::JsonValue;
use crate::wasm_logs::last_n;
use crate::mic::{enqueue_result, mic_ctl_spec, mic_st, not_mic, mic_params, mic_status_data, MicCtlOutcome, MIC_CTL_SET_PARAM, MIC_CTL_GET_STATUS};
use crate::runtime::{RuntimeExecutionResponse, ExecutionStatus, ExecutionMode, status_in_progress, status_failed, status_terminal};
use crate::http_adapter::{http_status, response_failed, status_doc, http_response_of, AsyncStatusResponse, HttpResponse, HttpBody};
use crate::rtasr::{autoflush_step, audio_written, sat_add};
use crate::types::{RtAsrSendItem, RtAsrSegmentationStrategy, text_len, MicConfig, UserStreamConnState};
use crate::mic::frame_len;
use crate::user_stream::user_stream_mask;
use crate::execution_flow::{counters_after, record_completed, record_successful, ExecutionCounters, ExecutionResponse};
use crate::execution_error::ExecutionError;
use crate::user_stream::{inbound_pushed, outbound_popped};
use crate::user_stream_host::{inbound_popped, outbound_pushed};
use crate::cchat::{response_st, tool_names};
use crate::registry::{registry_plan, LlmBackendConfig, CredentialView};
use crate::runtime::RuntimeType;
use crate::runtime_manager::{has_type, types_distinct, types_of};

verus! {

/// Adding interest in a descriptor and then removing it leaves the epoll
/// descriptor's interest list without it and the descriptor's watcher set
/// without the epoll descriptor.
pub proof fn law_ep_add_then_del(
    m: Map<i32, FdEntry>,
    epfd: i32,
    fd: i32,
    ev1: PollEvents,
    ev2: PollEvents,
    m1: Map<i32, FdEntry>,
    m2: Map<i32, FdEntry>,
)
    requires
        ep_ctl_spec(m, epfd, EP_CTL_ADD, fd, ev1, m1, 0),
        ep_ctl_spec(m1, epfd, EP_CTL_DEL, fd, ev2, m2, 0),
    ensures
        interest_list(m2[epfd]) == interest_list(m[epfd]).remove(fd),
        m2[fd].watchers@ == m[fd].watchers@.remove(epfd),
        m2.dom() == m.dom(),
{
    assert(interest_list(m[epfd]).insert(fd, ev1).remove(fd) =~= interest_list(m[epfd]).remove(fd));
    assert(m[fd].watchers@.insert(epfd).remove(epfd) =~= m[fd].watchers@.remove(epfd));
}

/// After a request, reading gives it back: terminated, with the scope and
/// errno of the first request for the key (for a new key, the registry's
/// scope and the request's errno) and the latest message.
pub proof fn law_request_then_read(
    m: Map<Seq<char>, TerminationRecord>,
    scope: TerminationScope,
    key: Seq<char>,
    errno: i32,
    message: Option<String>,
    r: Option<TerminationSnapshot>,
)
    requires
        pending_snapshot(records_after_request(m, scope, key, errno, message), key, r),
    ensures
        r matches Some(s) && s.errno == (if m.contains_key(key) { m[key].errno } else { errno }) && opt_text(s.message)
            == opt_text(message) && s.scope == (if m.contains_key(key) { m[key].scope } else { scope }),
{
}

/// A repeated request keeps the errno of the first one.
pub proof fn law_repeated_request_keeps_errno(
    m: Map<Seq<char>, TerminationRecord>,
    scope: TerminationScope,
    key: Seq<char>,
    e1: i32,
    m1: Option<String>,
    e2: i32,
    m2: Option<String>,
)
    requires
        !m.contains_key(key),
    ensures
        records_after_request(records_after_request(m, scope, key, e1, m1), scope, key, e2, m2)[key].errno == e1,
        records_after_request(records_after_request(m, scope, key, e1, m1), scope, key, e2, m2)[key].message == m2,
{
}

/// After a request is cleared, reading finds none.
pub proof fn law_clear_then_read(m: Map<Seq<char>, TerminationRecord>, key: Seq<char>, r: Option<TerminationSnapshot>)
    requires
        pending_snapshot(m.remove(key), key, r),
    ensures
        r is None,
{
}

/// Segmentation settings that were set read back as set: after a
/// successful set, reading them gives the document of the settings the
/// request selected.
pub proof fn law_autoflush_set_then_get(
    m: Map<i32, FdEntry>,
    fd: i32,
    p: JsonValue,
    now_ms: u64,
    m1: Map<i32, FdEntry>,
    r1: Result<RtAsrCtlOutcome, i32>,
    m2: Map<i32, FdEntry>,
    r2: Result<RtAsrCtlOutcome, i32>,
)
    requires
        set_autoflush_spec(m, fd, Some(p), now_ms, m1, r1),
        r1 is Ok,
        read_cmd_spec(m1, fd, m2, r2, segmentation_data(rtasr_st(m1[fd]).segmentation@)),
    ensures
        parse_segmentation_spec(p) is Ok,
        r2 matches Ok(RtAsrCtlOutcome::Reply(j)) && j@ == segmentation_data(parse_segmentation_spec(p)->Ok_0),
{
}

/// A successful queuing of text never takes the send queue past its
/// limit.
pub proof fn law_send_queue_within_limit(
    m: Map<i32, FdEntry>,
    fd: i32,
    t: Seq<char>,
    flush: Option<bool>,
    now_ms: u64,
    m2: Map<i32, FdEntry>,
    r: Result<RtAsrCtlOutcome, i32>,
)
    requires
        queue_text_spec(m, fd, t, flush, now_ms, m2, r),
        r is Ok,
    ensures
        rtasr_st(m2[fd]).send_queue_bytes <= rtasr_st(m2[fd]).max_send_queue_bytes,
        rtasr_st(m2[fd]).max_send_queue_bytes == rtasr_st(m[fd]).max_send_queue_bytes,
{
}

/// A ring's newest line is the one appended last.
pub proof fn law_ring_newest_last<A>(s: Seq<A>, x: A, cap: nat)
    requires
        cap >= 1,
    ensures
        last_n(s.push(x), cap).len() >= 1,
        last_n(s.push(x), cap).last() == x,
        last_n(s.push(x), cap).len() <= cap,
{
}

/// Queuing with drop-oldest keeps a consistent queue within its limit: the
/// queue that remains is a suffix of the one offered, its byte count is
/// its size and at most the limit, each dropped frame is counted, and no
/// more frames are dropped than needed: keeping one more of the newest
/// frames would exceed the limit.
pub proof fn law_enqueue_bounded(q: Seq<Vec<u8>>, bytes: usize, max: usize, dropped: u64)
    requires
        bytes == frames_bytes(q),
    ensures
        ({
            let (q2, b2, d2) = enqueue_result(q, bytes, max, dropped);
            &&& b2 <= max
            &&& b2 == frames_bytes(q2)
            &&& q2.len() <= q.len()
            &&& q2 == q.subrange(q.len() - q2.len(), q.len() as int)
            &&& d2 as int == (dropped as int + (q.len() - q2.len())) % 0x1_0000_0000_0000_0000
            &&& q2.len() < q.len() ==> frames_bytes(q.subrange(q.len() - q2.len() - 1, q.len() as int)) > max
        }),
    decreases q.len(),
{
    if bytes <= max {
        assert(q.subrange(0, q.len() as int) =~= q);
    } else if q.len() == 0 {
    } else {
        lemma_frames_bytes_drop_first(q);
        let b1: usize = if bytes >= q[0]@.len() { (bytes - q[0]@.len()) as usize } else { 0 };
        law_enqueue_bounded(q.drop_first(), b1, max, dropped.wrapping_add(1));
        let (q2, b2, d2) = enqueue_result(q.drop_first(), b1, max, dropped.wrapping_add(1));
        assert(q.drop_first().subrange(q.drop_first().len() - q2.len(), q.drop_first().len() as int) =~= q.subrange(
            q.len() - q2.len(),
            q.len() as int,
        ));
        assert(dropped.wrapping_add(1) as int == (dropped as int + 1) % 0x1_0000_0000_0000_0000);
        assert((((dropped as int + 1) % 0x1_0000_0000_0000_0000) + (q.drop_first().len() - q2.len())) % 0x1_0000_0000_0000_0000
            == (dropped as int + (q.len() - q2.len())) % 0x1_0000_0000_0000_0000) by {
            vstd::arithmetic::div_mod::lemma_add_mod_noop(dropped as int + 1, q.drop_first().len() - q2.len(), 0x1_0000_0000_0000_0000);
            vstd::arithmetic::div_mod::lemma_mod_twice(dropped as int + 1, 0x1_0000_0000_0000_0000);
            vstd::arithmetic::div_mod::lemma_add_mod_noop(
                (dropped as int + 1) % 0x1_0000_0000_0000_0000,
                q.drop_first().len() - q2.len(),
                0x1_0000_0000_0000_0000,
            );
        }
        let dl = q.drop_first().len() - q2.len();
        assert(d2 as int == ((dropped.wrapping_add(1) as int) + dl) % 0x1_0000_0000_0000_0000);
        if q2.len() < q.drop_first().len() {
            assert(q.drop_first().subrange(q.drop_first().len() - q2.len() - 1, q.drop_first().len() as int)
                =~= q.subrange(q.len() - q2.len() - 1, q.len() as int));
        } else {
            assert(q.subrange(q.len() - q2.len() - 1, q.len() as int) =~= q);
        }
    }
}

/// A successful execution has ended, has not failed, and is not under way;
/// an execution under way has not ended.
pub proof fn law_response_predicates(r: RuntimeExecutionResponse)
    ensures
        r.execution_status == ExecutionStatus::Completed && r.error is None ==> status_terminal(r.execution_status)
            && !(r.error is Some || status_failed(r.execution_status)) && !status_in_progress(r.execution_status),
        status_in_progress(r.execution_status) ==> !status_terminal(r.execution_status),
        status_failed(r.execution_status) ==> status_terminal(r.execution_status),
{
}

/// A failed execution is answered with status 500, except that an unknown
/// mode is answered with 400; an asynchronous execution under way is
/// answered with 202.
pub proof fn law_http_status(r: RuntimeExecutionResponse)
    ensures
        r.execution_mode != ExecutionMode::Unknown && response_failed(r) ==> http_status(r) == 500,
        r.execution_mode == ExecutionMode::Unknown ==> http_status(r) == 400,
        r.execution_mode == ExecutionMode::Async && !response_failed(r) && status_in_progress(r.execution_status)
            ==> http_status(r) == 202,
{
}

/// Frames come out of a channel in the order they went in: two frames
/// accepted onto an empty inbound queue are read first the one, then the
/// other.
pub proof fn law_inbound_first_in_first_out(
    c0: UserStreamChannel,
    sid: u32,
    f1: Seq<u8>,
    c1: UserStreamChannel,
    f2: Seq<u8>,
    c2: UserStreamChannel,
    c3: UserStreamChannel,
)
    requires
        c0.inbound@.len() == 0,
        inbound_pushed(true, c0, sid, f1, c1, 0),
        inbound_pushed(true, c1, sid, f2, c2, 0),
        inbound_popped(c2, c3),
    ensures
        c2.inbound@.len() == 2,
        c2.inbound@[0]@ == f1,
        c3.inbound@.len() == 1,
        c3.inbound@[0]@ == f2,
{
    assert(c1.inbound@.len() == 1);
    assert(c2.inbound@[0] == c2.inbound@.subrange(0, 1)[0]);
}

/// The same holds of the outbound queue that the websocket drains.
pub proof fn law_outbound_first_in_first_out(
    c0: UserStreamChannel,
    f1: Seq<u8>,
    c1: UserStreamChannel,
    f2: Seq<u8>,
    c2: UserStreamChannel,
    c3: UserStreamChannel,
)
    requires
        c0.outbound@.len() == 0,
        outbound_pushed(c0, f1, c1),
        outbound_pushed(c1, f2, c2),
        outbound_popped(c2, c3),
    ensures
        c2.outbound@.len() == 2,
        c2.outbound@[0]@ == f1,
        c3.outbound@.len() == 1,
        c3.outbound@[0]@ == f2,
{
    assert(c1.outbound@.len() == 1);
    assert(c2.outbound@[0] == c2.outbound@.subrange(0, 1)[0]);
}

/// What a response descriptor is given is what reading it returns, and the
/// descriptor becomes readable: the table that storing a reply leaves
/// holds the reply's bytes and metrics under the descriptor.
pub proof fn law_response_put_then_recv(m: Map<i32, FdEntry>, fd: i32, bytes: Vec<u8>, metrics_bytes: Vec<u8>)
    requires
        m.contains_key(fd),
        m[fd].inner is ChatResponse,
    ensures
        ({
            let e2 = FdEntry {
                inner: FdInner::ChatResponse(ChatResponseState { bytes, metrics_bytes }),
                poll_mask: PollEvents(m[fd].poll_mask.0 | 1u32),
                ..m[fd]
            };
            let m2 = notified(m.insert(fd, e2), e2.watchers@);
            &&& m2.dom() == m.dom()
            &&& m2[fd].inner is ChatResponse
            &&& response_st(m2[fd]).bytes@ == bytes@
            &&& response_st(m2[fd]).metrics_bytes@ == metrics_bytes@
            &&& m2[fd].poll_mask.0 & 1u32 == 1u32
        }),
{
    let x = m[fd].poll_mask.0;
    assert((x | 1u32) & 1u32 == 1u32) by (bit_vector);
    let e2 = FdEntry {
        inner: FdInner::ChatResponse(ChatResponseState { bytes, metrics_bytes }),
        poll_mask: PollEvents(m[fd].poll_mask.0 | 1u32),
        ..m[fd]
    };
    assert(notified(m.insert(fd, e2), e2.watchers@).dom() =~= m.dom());
}

/// No two backends of the registry share a name.
pub proof fn law_registry_names_distinct(
    bs: Seq<LlmBackendConfig>,
    index: Map<Seq<char>, CredentialView>,
    env: Seq<(String, String)>,
)
    ensures
        forall|i: int, j: int|
            0 <= i < j < registry_plan(bs, index, env).len() ==> registry_plan(bs, index, env)[i].name
                != registry_plan(bs, index, env)[j].name,
    decreases bs.len(),
{
    if bs.len() > 0 {
        law_registry_names_distinct(bs.drop_last(), index, env);
    }
}

/// No two tools of the name index share a name.
pub proof fn law_tool_names_distinct(tools: Seq<(i32, Option<JsonValue>)>)
    ensures
        forall|i: int, j: int| 0 <= i < j < tool_names(tools).len() ==> tool_names(tools)[i].0 != tool_names(tools)[j].0,
    decreases tools.len(),
{
    if tools.len() > 0 {
        let prev = tool_names(tools.drop_last());
        law_tool_names_distinct(tools.drop_last());
        let r = tool_names(tools);
        assert(r == prev || (r.len() == prev.len() + 1 && r.drop_last() == prev && forall|k: int|
            0 <= k < prev.len() ==> #[trigger] prev[k].0 != r.last().0));
        assert forall|i: int, j: int| 0 <= i < j < r.len() implies r[i].0 != r[j].0 by {
            if r != prev {
                assert(r[i] == prev[i] || i == prev.len());
                if j == prev.len() {
                    assert(r[i] == r.drop_last()[i]);
                    assert(prev[i].0 != r.last().0);
                } else {
                    assert(r[i] == r.drop_last()[i]);
                    assert(r[j] == r.drop_last()[j]);
                }
            }
        }
    }
}

/// Registering a runtime for a kind that has none keeps the kinds distinct,
/// and afterwards a lookup of that kind finds exactly that runtime, while a
/// second registration of the kind is refused.
pub proof fn law_register_then_get<R>(s: Seq<(RuntimeType, R)>, t: RuntimeType, r: R)
    requires
        types_distinct(s),
        !has_type(s, t),
    ensures
        types_distinct(s.push((t, r))),
        has_type(s.push((t, r)), t),
        forall|i: int| 0 <= i < s.len() + 1 && #[trigger] s.push((t, r))[i].0 == t ==> s.push((t, r))[i].1 == r,
{
    let n = s.push((t, r));
    assert(n[s.len() as int].0 == t);
    assert forall|i: int| 0 <= i < s.len() + 1 && #[trigger] n[i].0 == t implies n[i].1 == r by {
        if i < s.len() {
            assert(s[i].0 == t);
        }
    }
    assert forall|i: int, j: int| 0 <= i < j < n.len() implies #[trigger] n[i].0 != #[trigger] n[j].0 by {
        if j == s.len() {
            if n[i].0 == t {
                assert(s[i].0 == t);
            }
        } else {
            assert(n[i] == s[i] && n[j] == s[j]);
        }
    }
}

/// The kinds a manager lists never repeat.
pub proof fn law_listed_kinds_distinct<R>(s: Seq<(RuntimeType, R)>)
    requires
        types_distinct(s),
    ensures
        forall|i: int, j: int| 0 <= i < j < types_of(s).len() ==> types_of(s)[i] != types_of(s)[j],
{
    assert forall|i: int, j: int| 0 <= i < j < types_of(s).len() implies types_of(s)[i] != types_of(s)[j] by {
        assert(s[i].0 != s[j].0);
    }
}

/// An event pushed onto a realtime ASR stream's receive queue (see
/// `rtasr_push_event`) leaves the queue as the old queue with the event
/// appended, less its `k` oldest events, where `k` is the fewest that brings
/// the queue within its limit; the byte count is the size of what remains,
/// and `k` more events are counted as dropped.
pub proof fn law_event_push_drops_fewest(s0: RtAsrState, p: Seq<u8>, q: Seq<Vec<u8>>, b: usize, d: u64)
    requires
        s0.wf(),
        s0.recv_queue_bytes + p.len() <= usize::MAX,
        recv_after(s0, p, q, b, d),
    ensures
        exists|v: Vec<u8>, k: int| #![trigger s0.recv_queue@.push(v).subrange(k, s0.recv_queue@.len() as int + 1)] {
            let full = s0.recv_queue@.push(v);
            &&& v@ == p
            &&& 0 <= k <= full.len()
            &&& q == full.subrange(k, full.len() as int)
            &&& b == frames_bytes(q)
            &&& b <= s0.max_recv_queue_bytes
            &&& d as int == (s0.dropped_events as int + k) % 0x1_0000_0000_0000_0000
            &&& k > 0 ==> frames_bytes(full.subrange(k - 1, full.len() as int)) > s0.max_recv_queue_bytes
        },
{
    let v = choose|v: Vec<u8>| v@ == p && (q, b, d) == crate::mic::enqueue_result(
        s0.recv_queue@.push(v),
        if s0.recv_queue_bytes + p.len() > usize::MAX { usize::MAX } else { (s0.recv_queue_bytes + p.len()) as usize },
        s0.max_recv_queue_bytes,
        s0.dropped_events,
    );
    let full = s0.recv_queue@.push(v);
    lemma_frames_bytes_push(s0.recv_queue@, v);
    law_enqueue_bounded(full, (s0.recv_queue_bytes + p.len()) as usize, s0.max_recv_queue_bytes, s0.dropped_events);
    let k = full.len() - q.len();
    assert(full.subrange(k, full.len() as int) == q);
    assert(s0.recv_queue@.push(v).subrange(k, s0.recv_queue@.len() as int + 1) == q);
}

/// Setting a microphone's parameters and then reading its status reports
/// the new capture generation (one past the old) and the settings the
/// request asked for.
pub proof fn law_mic_set_then_status(
    m: Map<i32, FdEntry>,
    fd: i32,
    v: JsonValue,
    m2: Map<i32, FdEntry>,
    r1: Result<MicCtlOutcome, i32>,
    m3: Map<i32, FdEntry>,
    r2: Result<MicCtlOutcome, i32>,
)
    requires
        m.contains_key(fd),
        !not_mic(m[fd]),
        mic_ctl_spec(m, fd, MIC_CTL_SET_PARAM, Some(v), m2, r1),
        r1 is Ok,
        mic_ctl_spec(m2, fd, MIC_CTL_GET_STATUS, None, m3, r2),
    ensures
        r2 matches Ok(MicCtlOutcome::Reply(j)) && j@ == mic_status_data(mic_st(m2[fd])),
        mic_st(m2[fd]).generation == mic_st(m[fd]).generation.wrapping_add(1),
        mic_st(m2[fd]).config matches Some(c) && c@ == mic_params(v).config,
        m3 == m2,
{
    assert(m2.contains_key(fd));
    assert(!not_mic(m2[fd]));
}

/// The lower-case name of each execution status.
pub open spec fn lower_status_name(s: ExecutionStatus) -> Seq<char> {
    match s {
        ExecutionStatus::Unknown => "unknown"@,
        ExecutionStatus::Pending => "pending"@,
        ExecutionStatus::Running => "running"@,
        ExecutionStatus::Completed => "completed"@,
        ExecutionStatus::Failed => "failed"@,
        ExecutionStatus::Cancelled => "cancelled"@,
        ExecutionStatus::Timeout => "timeout"@,
    }
}

/// The status document of a response names the response's status by its
/// lower-case name ("running" for a running execution, "pending" for a
/// pending one, and so on), and different statuses are named differently;
/// the HTTP answer to an asynchronous execution carries that document.
pub proof fn law_status_document_names_status(
    s1: AsyncStatusResponse,
    r1: RuntimeExecutionResponse,
    s2: AsyncStatusResponse,
    r2: RuntimeExecutionResponse,
    h: HttpResponse,
)
    requires
        status_doc(s1, r1),
        status_doc(s2, r2),
    ensures
        s1.status@ == lower_status_name(r1.execution_status),
        r1.execution_status == ExecutionStatus::Running ==> s1.status@ == "running"@,
        r1.execution_status == ExecutionStatus::Pending ==> s1.status@ == "pending"@,
        r1.execution_status != r2.execution_status ==> s1.status@ != s2.status@,
        http_response_of(r1, h) && r1.execution_mode == ExecutionMode::Async ==> (h.body matches HttpBody::Status(d)
            && d.status@ == lower_status_name(r1.execution_status)),
{
    reveal_strlit("unknown");
    reveal_strlit("pending");
    reveal_strlit("running");
    reveal_strlit("completed");
    reveal_strlit("failed");
    reveal_strlit("cancelled");
    reveal_strlit("timeout");
    if r1.execution_status != r2.execution_status {
        let a = lower_status_name(r1.execution_status);
        let b = lower_status_name(r2.execution_status);
        if a.len() == b.len() {
            assert(a[0] != b[0] || a[1] != b[1] || a[a.len() - 1] != b[b.len() - 1]);
        }
    }
}

/// The commit event of client-side segmentation.
pub open spec fn commit_event_text() -> Seq<char> {
    "{\"type\":\"input_audio_buffer.commit\"}"@
}

/// With client-commit segmentation, no commit pending, some audio buffered,
/// the minimal gap passed and room in the send queue, once the audio
/// buffered since the last commit reaches the byte limit the automatic
/// commit check queues the commit event, marks it pending, resets the
/// buffered count and notes the time.
pub proof fn law_commit_on_buffer_limit(a: RtAsrState, b: RtAsrState, now: u64, mx: usize)
    requires
        autoflush_step(a, b, now),
        a.segmentation.strategy == RtAsrSegmentationStrategy::ClientCommit,
        a.segmentation.client_commit matches Some(cfg) && cfg.max_buffer_bytes == Some(mx) && (if now
            >= a.last_flush_at_ms { now - a.last_flush_at_ms } else { 0 }) >= cfg.min_flush_gap_ms,
        !a.pending_flush,
        a.buffered_audio_bytes_since_flush > 0,
        a.buffered_audio_bytes_since_flush >= mx,
        a.send_queue_bytes + text_len(commit_event_text()) <= a.max_send_queue_bytes,
    ensures
        b.send_queue@.len() == a.send_queue@.len() + 1,
        b.send_queue@.subrange(0, a.send_queue@.len() as int) == a.send_queue@,
        b.send_queue@.last() matches RtAsrSendItem::WsText(t) && t@ == commit_event_text(),
        b.pending_flush,
        b.buffered_audio_bytes_since_flush == 0,
        b.last_flush_at_ms == now,
{
}

/// The automatic commit check sends nothing and changes no bookkeeping
/// while a commit is pending, before the minimal gap since the last commit
/// has passed, with nothing buffered, or without client-commit segmentation.
pub proof fn law_no_commit_when_not_due(a: RtAsrState, b: RtAsrState, now: u64)
    requires
        autoflush_step(a, b, now),
        ({
            ||| a.pending_flush
            ||| a.buffered_audio_bytes_since_flush == 0
            ||| a.segmentation.strategy != RtAsrSegmentationStrategy::ClientCommit
            ||| a.segmentation.client_commit is None
            ||| (a.segmentation.client_commit matches Some(cfg) && (if now >= a.last_flush_at_ms {
                now - a.last_flush_at_ms
            } else {
                0
            }) < cfg.min_flush_gap_ms)
        }),
    ensures
        b.send_queue@ == a.send_queue@,
        b.send_queue_bytes == a.send_queue_bytes,
        b.pending_flush == a.pending_flush,
        b.buffered_audio_bytes_since_flush == a.buffered_audio_bytes_since_flush,
        b.last_flush_at_ms == a.last_flush_at_ms,
{
}

/// Writing audio with room in the send queue, under client-commit
/// segmentation with no commit pending and the minimal gap passed, queues
/// the audio and then, once the audio buffered since the last commit reaches
/// the byte limit (and the commit fits), the commit event; the commit is
/// then pending and the buffered count is reset.
pub proof fn law_audio_write_commits_on_buffer_limit(s0: RtAsrState, s2: RtAsrState, bytes: Seq<u8>, now: u64, mx: usize)
    requires
        audio_written(s0, s2, bytes, now),
        s0.segmentation.strategy == RtAsrSegmentationStrategy::ClientCommit,
        s0.segmentation.client_commit matches Some(cfg) && cfg.max_buffer_bytes == Some(mx) && (if now
            >= s0.last_flush_at_ms { now - s0.last_flush_at_ms } else { 0 }) >= cfg.min_flush_gap_ms,
        !s0.pending_flush,
        bytes.len() > 0,
        s0.buffered_audio_bytes_since_flush + bytes.len() >= mx,
        s0.buffered_audio_bytes_since_flush + bytes.len() <= usize::MAX,
        s0.send_queue_bytes + bytes.len() + text_len(commit_event_text()) <= s0.max_send_queue_bytes,
    ensures
        s2.send_queue@.len() == s0.send_queue@.len() + 2,
        s2.send_queue@[s0.send_queue@.len() as int] matches RtAsrSendItem::Audio(v) && v@ == bytes,
        s2.send_queue@[s0.send_queue@.len() as int + 1] matches RtAsrSendItem::WsText(t) && t@ == commit_event_text(),
        s2.pending_flush,
        s2.buffered_audio_bytes_since_flush == 0,
{
}

/// The length of a synthetic microphone frame: where nothing saturates, the
/// samples of the frame's duration (sample rate times frame milliseconds
/// over 1000) times the channels times two bytes; so doubling the channels
/// doubles the frame.
pub proof fn law_frame_len(c: MicConfig, c2: MicConfig)
    requires
        c2 == (MicConfig { channels: c2.channels, ..c }),
        c2.channels as int == 2 * c.channels,
        ((c.sample_rate_hz as int * c.frame_ms as int) / 1000) * c2.channels * 2 <= usize::MAX,
    ensures
        frame_len(c) as int == ((c.sample_rate_hz as int * c.frame_ms as int) / 1000) * c.channels * 2,
        frame_len(c2) as int == ((c.sample_rate_hz as int * c.frame_ms as int) / 1000) * c2.channels * 2,
        frame_len(c2) as int == 2 * frame_len(c),
{
    let samples = (c.sample_rate_hz as int * c.frame_ms as int) / 1000;
    assert(c.sample_rate_hz as u64 * c.frame_ms as u64 == c.sample_rate_hz as int * c.frame_ms as int);
    assert(samples >= 0) by (nonlinear_arith)
        requires samples == (c.sample_rate_hz as int * c.frame_ms as int) / 1000, c.sample_rate_hz >= 0, c.frame_ms >= 0;
    assert(samples * c.channels * 2 <= samples * c2.channels * 2) by (nonlinear_arith)
        requires samples >= 0, c2.channels as int == 2 * c.channels, c.channels >= 0;
    assert(samples * c.channels <= samples * c.channels * 2) by (nonlinear_arith)
        requires samples >= 0, c.channels >= 0;
    assert(samples * c2.channels <= samples * c2.channels * 2) by (nonlinear_arith)
        requires samples >= 0, c2.channels >= 0;
    assert(samples * c2.channels * 2 == 2 * (samples * c.channels * 2)) by (nonlinear_arith)
        requires c2.channels as int == 2 * c.channels;
}

/// A user-stream descriptor whose channel is closed reports hang-up, even
/// while the descriptor itself is open; so does a closed descriptor; an
/// open descriptor on a connected channel does not.
pub proof fn law_user_stream_hup(e: FdEntry, c: UserStreamChannel)
    requires
        e.inner is UserStream,
    ensures
        c.conn_state == UserStreamConnState::Closed ==> user_stream_mask(e, c) & 16u32 == 16u32,
        e.closed ==> user_stream_mask(e, c) & 16u32 == 16u32,
        !e.closed && c.conn_state == UserStreamConnState::Connected ==> user_stream_mask(e, c) & 16u32 == 0u32,
{
    let x = user_stream_mask(e, c);
    assert(forall|m: u32| #[trigger] (m | 16u32) & 16u32 == 16u32) by (bit_vector);
    assert(forall|m: u32| m & 16u32 == 0u32 ==> #[trigger] (m | 8u32) & 16u32 == 0u32) by (bit_vector);
    assert(forall|m: u32| m & 16u32 == 0u32 ==> #[trigger] (m | 4u32) & 16u32 == 0u32) by (bit_vector);
    assert((0u32 | 1u32) & 16u32 == 0u32) by (bit_vector);
    assert(0u32 & 16u32 == 0u32) by (bit_vector);
}

/// Every execution that ends counts once: a completed record counts as
/// exactly one of successful or failed, an error as failed, and a record
/// still under way as neither; in each case one more execution completed.
pub proof fn law_each_outcome_counts_once(c: ExecutionCounters, outcome: Result<ExecutionResponse, ExecutionError>, t: u64)
    requires
        c.successful_executions < u64::MAX,
        c.failed_executions < u64::MAX,
        c.completed_executions < u64::MAX,
    ensures
        ({
            let d = counters_after(c, outcome, t);
            &&& d.completed_executions == c.completed_executions + 1
            &&& match outcome {
                Ok(r) => if record_completed(r) {
                    &&& d.successful_executions + d.failed_executions == c.successful_executions + c.failed_executions + 1
                    &&& (d.successful_executions == c.successful_executions + 1 <==> record_successful(r))
                    &&& record_successful(r) ==> d.failed_executions == c.failed_executions
                    &&& !record_successful(r) ==> d.failed_executions == c.failed_executions + 1
                        && d.successful_executions == c.successful_executions
                } else {
                    d.successful_executions == c.successful_executions && d.failed_executions == c.failed_executions
                },
                Err(_) => d.failed_executions == c.failed_executions + 1 && d.successful_executions == c.successful_executions,
            }
        }),
{
}

} // verus!
