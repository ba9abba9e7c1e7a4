//! Microphone descriptors: capture settings, the frame queue with
//! drop-oldest back-pressure, readiness, the synthetic (stub) source, and
//! the control commands.
use vstd::prelude::*;
use std::collections::HashSet;
use crate::errno::{SPEAR_EAGAIN, SPEAR_EBADF, SPEAR_EINVAL, SPEAR_EIO};
use crate::poll::{FdFlags, FdKind, PollEvents};
use crate::json::{JsonValue, JsonData, JsonNum, JsonObjectBuilder, json_u64, str_eq};
use crate::types::{FdEntry, FdInner, MicConfig, MicState, lemma_frames_bytes_push, lemma_frames_bytes_drop_first};
use crate::fd_table::{FdTable, table_after_store, lemma_store_back};
use crate::host::DefaultHostApi;
use crate::termination::opt_text;
use crate::segmentation::{member_u64, member_str, member_bool, or_u64, as_usize_opt};
use crate::codec::{trim_text, trimmed, base64_standard_decode, base64_standard_decoded};

verus! {

/// Control command: set the capture parameters and start.
pub const MIC_CTL_SET_PARAM: i32 = 1;
/// Control command: read the status.
pub const MIC_CTL_GET_STATUS: i32 = 2;
/// Largest synthetic sample buffer accepted, in bytes.
pub const MIC_STUB_MAX_BYTES: usize = 10485760;

/// The content of a [`MicConfig`].
pub struct MicConfigView {
    pub sample_rate_hz: u32,
    pub channels: u8,
    pub frame_ms: u32,
    pub format: Seq<char>,
}

impl MicConfig {
    pub open spec fn view(&self) -> MicConfigView {
        MicConfigView {
            sample_rate_hz: self.sample_rate_hz,
            channels: self.channels,
            frame_ms: self.frame_ms,
            format: self.format@,
        }
    }

    /// A copy of the settings.
    pub fn duplicate(&self) -> (r: MicConfig)
        ensures
            r@ == self@,
    {
        MicConfig {
            sample_rate_hz: self.sample_rate_hz,
            channels: self.channels,
            frame_ms: self.frame_ms,
            format: self.format.clone(),
        }
    }
}

/// What a parameter request asks for.
pub struct MicParams {
    pub config: MicConfigView,
    pub device: bool,
    pub device_name: Option<Seq<char>>,
    pub max_queue_bytes: Option<usize>,
    pub fallback_to_stub: bool,
    pub stub_pcm16_base64: Option<Seq<char>>,
}

/// Member `k` of `o` as an object member of member `outer`.
pub open spec fn nested(o: JsonValue, outer: Seq<char>) -> Option<JsonValue> {
    o.spec_get(outer)
}

/// The parameters of request `v`: 24 kHz, one channel, 20 ms frames of
/// `pcm16` from the device unless given; the device name under
/// `device.name`; fall back to the stub unless `fallback.to_stub` is false;
/// a synthetic sample buffer under `stub_pcm16_base64`.
pub open spec fn mic_params(v: JsonValue) -> MicParams {
    MicParams {
        config: MicConfigView {
            sample_rate_hz: or_u64(member_u64(v, "sample_rate_hz"@), 24000) as u32,
            channels: or_u64(member_u64(v, "channels"@), 1) as u8,
            frame_ms: or_u64(member_u64(v, "frame_ms"@), 20) as u32,
            format: match member_str(v, "format"@) {
                Some(s) => s,
                None => "pcm16"@,
            },
        },
        device: match member_str(v, "source"@) {
            Some(s) => s == "device"@,
            None => true,
        },
        device_name: match nested(v, "device"@) {
            Some(d) => member_str(d, "name"@),
            None => None,
        },
        max_queue_bytes: as_usize_opt(member_u64(v, "max_queue_bytes"@)),
        fallback_to_stub: match nested(v, "fallback"@) {
            Some(f) => match member_bool(f, "to_stub"@) {
                Some(b) => b,
                None => true,
            },
            None => true,
        },
        stub_pcm16_base64: member_str(v, "stub_pcm16_base64"@),
    }
}

/// How the host should start capturing after the parameters were set.
#[derive(Debug)]
pub struct MicStartPlan {
    /// Capture from the device (else from the synthetic source).
    pub device: bool,
    pub device_name: Option<String>,
    /// Where the device cannot start: use the synthetic source (else report
    /// the failure with [`DefaultHostApi::mic_start_failed`]).
    pub fallback_to_stub: bool,
    /// The capture generation; a source stops once it changes.
    pub generation: u64,
    pub config: MicConfig,
}

/// What a successful control command hands back.
#[derive(Debug)]
pub enum MicCtlOutcome {
    /// A JSON document for the caller.
    Reply(JsonValue),
    /// Capture was (re)configured; the host starts it as planned.
    Start(MicStartPlan),
}

/// The microphone state of entry `e`.
pub open spec fn mic_st(e: FdEntry) -> MicState {
    match e.inner {
        FdInner::Mic(st) => st,
        _ => arbitrary(),
    }
}

/// Whether entry `e` is not an open microphone.
pub open spec fn not_mic(e: FdEntry) -> bool {
    e.closed || !(e.inner is Mic)
}

/// The readiness of a microphone: readable with queued frames, error once
/// an error was recorded, hang-up once closed.
pub open spec fn mic_readiness(st: MicState, closed: bool) -> u32 {
    let m1: u32 = if st.queue@.len() > 0 { 0u32 | 1u32 } else { 0u32 };
    let m2: u32 = if st.last_error is Some { m1 | 8u32 } else { m1 };
    if closed { m2 | 16u32 } else { m2 }
}

/// Entry `e` with microphone state `st` and readiness recomputed.
pub open spec fn mic_entry(e: FdEntry, st: MicState) -> FdEntry {
    FdEntry { inner: FdInner::Mic(st), poll_mask: PollEvents(mic_readiness(st, e.closed)), ..e }
}

/// State `s1` is `s0` after a parameter request with parameters `p`
/// stopped capture and cleared the queue: a new generation, the new
/// settings, and the queue limit where one was given.
pub open spec fn mic_reset(s0: MicState, s1: MicState, p: MicParams) -> bool {
    &&& !s1.running
    &&& s1.queue@.len() == 0
    &&& s1.queue_bytes == 0
    &&& s1.last_error is None
    &&& s1.generation == s0.generation.wrapping_add(1)
    &&& s1.config matches Some(c) && c@ == p.config
    &&& s1.max_queue_bytes == (match p.max_queue_bytes {
        Some(n) => n,
        None => s0.max_queue_bytes,
    })
    &&& s1.dropped_frames == s0.dropped_frames
    &&& s1.stub_pcm16 == s0.stub_pcm16
    &&& s1.stub_pcm16_offset == s0.stub_pcm16_offset
}

/// The outcome of setting parameters `p` on existing descriptor `fd`.
pub open spec fn mic_set_param_spec(m: Map<i32, FdEntry>, fd: i32, p: MicParams, m2: Map<i32, FdEntry>, r: Result<MicCtlOutcome, i32>) -> bool {
    if not_mic(m[fd]) {
        r matches Err(x) && x == -SPEAR_EBADF && m2 == m
    } else {
        let s0 = mic_st(m[fd]);
        let s2 = mic_st(m2[fd]);
        let decoded = match p.stub_pcm16_base64 {
            Some(t) => Some(base64_standard_decoded(trimmed(t))),
            None => None,
        };
        &&& m2.contains_key(fd)
        &&& m2[fd].inner is Mic
        &&& if decoded matches Some(d) && (d is None || d.unwrap().len() > MIC_STUB_MAX_BYTES) {
            &&& r matches Err(x) && x == -SPEAR_EINVAL
            &&& mic_reset(s0, s2, p)
            &&& m2 == m.insert(fd, FdEntry { inner: FdInner::Mic(s2), ..m[fd] })
        } else {
            &&& r matches Ok(MicCtlOutcome::Start(plan)) && plan.device == p.device && opt_text(plan.device_name)
                == p.device_name && plan.fallback_to_stub == p.fallback_to_stub && plan.generation == s2.generation
                && plan.config@ == p.config
            &&& mic_reset(s0, MicState { running: false, stub_pcm16: s0.stub_pcm16, stub_pcm16_offset: s0.stub_pcm16_offset, ..s2 }, p)
            &&& s2.running
            &&& match decoded {
                Some(d) => s2.stub_pcm16 matches Some(b) && b@ == d.unwrap() && s2.stub_pcm16_offset == 0,
                None => s2.stub_pcm16 == s0.stub_pcm16 && s2.stub_pcm16_offset == s0.stub_pcm16_offset,
            }
            &&& m2 == table_after_store(m, fd, mic_entry(m[fd], s2), m[fd].poll_mask.0)
        }
    }
}

/// A count as a JSON number.
pub open spec fn num(n: int) -> JsonData {
    JsonData::Number(JsonNum::PosInt(n as u64))
}

/// The status document of a microphone.
pub open spec fn mic_status_data(st: MicState) -> JsonData {
    JsonData::Object(
        seq![
            ("config"@, match st.config {
                Some(c) => JsonData::Object(
                    seq![
                        ("channels"@, num(c.channels as int)),
                        ("format"@, JsonData::Str(c.format@)),
                        ("frame_ms"@, num(c.frame_ms as int)),
                        ("sample_rate_hz"@, num(c.sample_rate_hz as int)),
                    ],
                ),
                None => JsonData::Null,
            }),
            ("dropped_frames"@, num(st.dropped_frames as int)),
            ("generation"@, num(st.generation as int)),
            ("last_error"@, match st.last_error {
                Some(t) => JsonData::Str(t@),
                None => JsonData::Null,
            }),
            ("max_queue_bytes"@, num(st.max_queue_bytes as int)),
            ("queue_bytes"@, num(st.queue_bytes as int)),
            ("running"@, JsonData::Bool(st.running)),
        ],
    )
}

/// The outcome of control command `cmd` on descriptor `fd`.
pub open spec fn mic_ctl_spec(m: Map<i32, FdEntry>, fd: i32, cmd: i32, payload: Option<JsonValue>, m2: Map<i32, FdEntry>, r: Result<MicCtlOutcome, i32>) -> bool {
    if !m.contains_key(fd) {
        r matches Err(x) && x == -SPEAR_EBADF && m2 == m
    } else if cmd == MIC_CTL_SET_PARAM {
        match payload {
            None => r matches Err(x) && x == -SPEAR_EINVAL && m2 == m,
            Some(v) => mic_set_param_spec(m, fd, mic_params(v), m2, r),
        }
    } else if cmd == MIC_CTL_GET_STATUS {
        if not_mic(m[fd]) {
            r matches Err(x) && x == -SPEAR_EBADF && m2 == m
        } else {
            m2 == m && (r matches Ok(MicCtlOutcome::Reply(j)) && j@ == mic_status_data(mic_st(m[fd])))
        }
    } else {
        r matches Err(x) && x == -SPEAR_EINVAL && m2 == m
    }
}

fn mic_get_u64(v: &JsonValue, k: &str) -> (r: Option<u64>)
    ensures
        r == member_u64(*v, k@),
{
    match v.get(k) {
        Some(x) => x.as_u64(),
        None => None,
    }
}

fn mic_get_str<'a>(v: &'a JsonValue, k: &str) -> (r: Option<&'a str>)
    ensures
        match r {
            Some(s) => member_str(*v, k@) == Some(s@),
            None => member_str(*v, k@) is None,
        },
{
    match v.get(k) {
        Some(x) => x.as_str(),
        None => None,
    }
}

/// Settings as a request asks for them.
fn read_params(v: &JsonValue) -> (r: (MicConfig, bool, Option<String>, Option<usize>, bool, Option<&str>))
    ensures
        r.0@ == mic_params(*v).config,
        r.1 == mic_params(*v).device,
        opt_text(r.2) == mic_params(*v).device_name,
        r.3 == mic_params(*v).max_queue_bytes,
        r.4 == mic_params(*v).fallback_to_stub,
        match r.5 {
            Some(s) => mic_params(*v).stub_pcm16_base64 == Some(s@),
            None => mic_params(*v).stub_pcm16_base64 is None,
        },
{
    let sample_rate_hz = match mic_get_u64(v, "sample_rate_hz") {
        Some(n) => n,
        None => 24000,
    } as u32;
    let channels = match mic_get_u64(v, "channels") {
        Some(n) => n,
        None => 1,
    } as u8;
    let frame_ms = match mic_get_u64(v, "frame_ms") {
        Some(n) => n,
        None => 20,
    } as u32;
    let format = match mic_get_str(v, "format") {
        Some(s) => s.to_string(),
        None => String::from_str("pcm16"),
    };
    let device = match mic_get_str(v, "source") {
        Some(s) => str_eq(s, "device"),
        None => true,
    };
    let device_name = match v.get("device") {
        Some(d) => match mic_get_str(d, "name") {
            Some(s) => Some(s.to_string()),
            None => None,
        },
        None => None,
    };
    let max_queue_bytes = match mic_get_u64(v, "max_queue_bytes") {
        Some(n) => Some(n as usize),
        None => None,
    };
    let fallback_to_stub = match v.get("fallback") {
        Some(f) => match f.get("to_stub") {
            Some(b) => match b.as_bool() {
                Some(b) => b,
                None => true,
            },
            None => true,
        },
        None => true,
    };
    let stub = mic_get_str(v, "stub_pcm16_base64");
    proof {
        reveal_strlit("device");
    }
    (MicConfig { sample_rate_hz, channels, frame_ms, format }, device, device_name, max_queue_bytes, fallback_to_stub, stub)
}

/// Keeps decoded synthetic samples: `-EINVAL` when decoding failed
/// (`None`) or gave more than 10 MiB; otherwise playback restarts at the
/// beginning of the new samples.
pub fn mic_apply_stub(st: &mut MicState, decoded: Option<Vec<u8>>) -> (r: Result<(), i32>)
    ensures
        match decoded {
            None => (r matches Err(x) && x == -SPEAR_EINVAL) && *final(st) == *old(st),
            Some(b) => if b@.len() > MIC_STUB_MAX_BYTES {
                (r matches Err(x) && x == -SPEAR_EINVAL) && *final(st) == *old(st)
            } else {
                r is Ok && *final(st) == (MicState { stub_pcm16: Some(b), stub_pcm16_offset: 0, ..*old(st) })
            },
        },
{
    match decoded {
        None => Err(-SPEAR_EINVAL),
        Some(b) => {
            if b.len() > MIC_STUB_MAX_BYTES {
                return Err(-SPEAR_EINVAL);
            }
            st.stub_pcm16 = Some(b);
            st.stub_pcm16_offset = 0;
            Ok(())
        },
    }
}

impl DefaultHostApi {
    /// Recomputes the readiness of a microphone entry.
    pub(crate) fn recompute_mic_readiness_locked(&self, e: &mut FdEntry)
        ensures
            old(e).inner is Mic ==> *final(e) == mic_entry(*old(e), mic_st(*old(e))),
            !(old(e).inner is Mic) ==> *final(e) == *old(e),
    {
        let mask = match &e.inner {
            FdInner::Mic(st) => {
                let mut mask = PollEvents::EMPTY();
                if st.queue.len() > 0 {
                    mask.insert(PollEvents::IN());
                }
                if st.last_error.is_some() {
                    mask.insert(PollEvents::ERR());
                }
                if e.closed {
                    mask.insert(PollEvents::HUP());
                }
                mask
            },
            _ => { return; },
        };
        e.poll_mask = mask;
    }

    /// Creates an idle microphone descriptor.
    pub fn mic_create(&mut self) -> (r: i32)
        ensures
            r == old(self).fd_table.spec_next_fd(),
            final(self).fd_table.spec_next_fd() == old(self).fd_table.spec_next_fd().wrapping_add(1),
            final(self).fd_table.spec_entries().dom() == old(self).fd_table.spec_entries().dom().insert(r),
            forall|k: i32| k != r ==> #[trigger] old(self).fd_table.spec_entries().contains_key(k)
                ==> final(self).fd_table.spec_entries()[k] == old(self).fd_table.spec_entries()[k],
            ({
                let e = final(self).fd_table.spec_entries()[r];
                &&& e.kind == FdKind::Mic
                &&& e.flags.0 == 0
                &&& e.poll_mask.0 == 0
                &&& e.watchers@ == Set::<i32>::empty()
                &&& !e.closed
                &&& e.inner is Mic
                &&& mic_st(e).wf()
                &&& mic_st(e).config is None
                &&& mic_st(e).queue@.len() == 0
                &&& !mic_st(e).running
                &&& mic_st(e).generation == 0
                &&& mic_st(e).max_queue_bytes == 512 * 1024
            }),
    {
        let e = FdEntry {
            kind: FdKind::Mic,
            flags: FdFlags::default(),
            poll_mask: PollEvents::EMPTY(),
            watchers: HashSet::new(),
            closed: false,
            inner: FdInner::Mic(MicState::default()),
        };
        let r = self.fd_table.allocate(e);
        assert(self.fd_table.spec_entries().dom() =~= old(self).fd_table.spec_entries().dom().insert(r));
        r
    }

    /// Runs control command `cmd` on microphone descriptor `fd` (see
    /// [`mic_ctl_spec`]). `payload` is the request document where the
    /// caller sent one that parses; one that does not parse is refused by
    /// the caller with `-EINVAL`, as a missing one is here.
    pub fn mic_ctl(&mut self, fd: i32, cmd: i32, payload: Option<&JsonValue>) -> (r: Result<MicCtlOutcome, i32>)
        ensures
            final(self).fd_table.spec_next_fd() == old(self).fd_table.spec_next_fd(),
            mic_ctl_spec(
                old(self).fd_table.spec_entries(),
                fd,
                cmd,
                match payload {
                    Some(p) => Some(*p),
                    None => None,
                },
                final(self).fd_table.spec_entries(),
                r,
            ),
    {
        let ghost m = self.fd_table.spec_entries();
        if !self.fd_table.contains(fd) {
            return Err(-SPEAR_EBADF);
        }
        if cmd == MIC_CTL_SET_PARAM {
            let v = match payload {
                None => { return Err(-SPEAR_EINVAL); },
                Some(v) => v,
            };
            let (cfg, device, device_name, max_queue_bytes, fallback_to_stub, stub) = read_params(v);
            let mut e = match self.fd_table.take(fd) {
                None => { return Err(-SPEAR_EBADF); },
                Some(e) => e,
            };
            if e.closed || !matches!(e.inner, FdInner::Mic(_)) {
                self.fd_table.put(fd, e);
                assert(self.fd_table.spec_entries() =~= m);
                return Err(-SPEAR_EBADF);
            }
            let plan_cfg = cfg.duplicate();
            let old_mask = e.poll_mask;
            let mut failed = false;
            let mut generation: u64 = 0;
            match &mut e.inner {
                FdInner::Mic(st) => {
                    st.running = false;
                    st.queue.clear();
                    st.queue_bytes = 0;
                    st.last_error = None;
                    st.generation = st.generation.wrapping_add(1);
                    generation = st.generation;
                    st.config = Some(cfg);
                    if let Some(mq) = max_queue_bytes {
                        st.max_queue_bytes = mq;
                    }
                    if let Some(s) = stub {
                        let decoded = base64_standard_decode(trim_text(s));
                        if mic_apply_stub(st, decoded).is_err() {
                            failed = true;
                        }
                    }
                    if !failed {
                        st.running = true;
                    }
                },
                _ => {},
            }
            if failed {
                self.fd_table.put(fd, e);
                proof {
                    assert(self.fd_table.spec_entries() =~= m.insert(fd, self.fd_table.spec_entries()[fd]));
                }
                return Err(-SPEAR_EINVAL);
            }
            self.recompute_mic_readiness_locked(&mut e);
            let ghost en = e;
            self.fd_table.store_entry(fd, e, old_mask);
            proof {
                lemma_store_back(m, fd, en, old_mask.0);
            }
            Ok(MicCtlOutcome::Start(MicStartPlan { device, device_name, fallback_to_stub, generation, config: plan_cfg }))
        } else if cmd == MIC_CTL_GET_STATUS {
            let e = match self.fd_table.take(fd) {
                None => { return Err(-SPEAR_EBADF); },
                Some(e) => e,
            };
            let doc = match &e.inner {
                FdInner::Mic(st) => if e.closed { None } else { Some(mic_status_json(st)) },
                _ => None,
            };
            self.fd_table.put(fd, e);
            assert(self.fd_table.spec_entries() =~= m);
            match doc {
                Some(j) => Ok(MicCtlOutcome::Reply(j)),
                None => Err(-SPEAR_EBADF),
            }
        } else {
            Err(-SPEAR_EINVAL)
        }
    }
}

fn num_json(n: u64) -> (r: JsonValue)
    ensures
        r@ == num(n as int),
{
    json_u64(n)
}

fn mic_status_json(st: &MicState) -> (r: JsonValue)
    ensures
        r@ == mic_status_data(*st),
{
    let config = match &st.config {
        Some(c) => {
            let mut o = JsonObjectBuilder::new();
            o.add("channels", num_json(c.channels as u64));
            o.add("format", JsonValue::Str(c.format.clone()));
            o.add("frame_ms", num_json(c.frame_ms as u64));
            o.add("sample_rate_hz", num_json(c.sample_rate_hz as u64));
            let j = o.build();
            assert(o@ =~= seq![
                ("channels"@, num(c.channels as int)),
                ("format"@, JsonData::Str(c.format@)),
                ("frame_ms"@, num(c.frame_ms as int)),
                ("sample_rate_hz"@, num(c.sample_rate_hz as int)),
            ]);
            j
        },
        None => JsonValue::Null,
    };
    let last_error = match &st.last_error {
        Some(t) => JsonValue::Str(t.clone()),
        None => JsonValue::Null,
    };
    let mut o = JsonObjectBuilder::new();
    o.add("config", config);
    o.add("dropped_frames", num_json(st.dropped_frames));
    o.add("generation", num_json(st.generation));
    o.add("last_error", last_error);
    o.add("max_queue_bytes", num_json(st.max_queue_bytes as u64));
    o.add("queue_bytes", num_json(st.queue_bytes as u64));
    o.add("running", JsonValue::Bool(st.running));
    let r = o.build();
    assert(o@ =~= match mic_status_data(*st) {
        JsonData::Object(s) => s,
        _ => Seq::empty(),
    });
    r
}

/// The queue, its byte count and the drop count after frame `p` was queued
/// and the oldest frames dropped while the count exceeds `max` (a count
/// left over an empty queue is reset).
pub open spec fn enqueue_result(q: Seq<Vec<u8>>, bytes: usize, max: usize, dropped: u64) -> (Seq<Vec<u8>>, usize, u64)
    decreases q.len(),
{
    if bytes <= max {
        (q, bytes, dropped)
    } else if q.len() == 0 {
        (q, 0, dropped)
    } else {
        enqueue_result(
            q.drop_first(),
            if bytes >= q[0]@.len() { (bytes - q[0]@.len()) as usize } else { 0 },
            max,
            dropped.wrapping_add(1),
        )
    }
}

/// Queues frame `p`, dropping the oldest frames while the queue holds more
/// than its limit; each dropped frame is counted.
pub fn mic_enqueue_frame(st: &mut MicState, p: Vec<u8>)
    ensures
        ({
            let (q, b, d) = enqueue_result(
                old(st).queue@.push(p),
                if old(st).queue_bytes + p@.len() > usize::MAX { usize::MAX } else { (old(st).queue_bytes + p@.len()) as usize },
                old(st).max_queue_bytes,
                old(st).dropped_frames,
            );
            &&& final(st).queue@ == q
            &&& final(st).queue_bytes == b
            &&& final(st).dropped_frames == d
        }),
        *final(st) == (MicState { queue: final(st).queue, queue_bytes: final(st).queue_bytes, dropped_frames: final(st).dropped_frames, ..*old(st) }),
        old(st).wf() && old(st).queue_bytes + p@.len() <= usize::MAX ==> final(st).wf(),
{
    let ghost wf0 = st.wf() && st.queue_bytes + p@.len() <= usize::MAX;
    proof {
        lemma_frames_bytes_push(st.queue@, p);
    }
    st.queue_bytes = st.queue_bytes.saturating_add(p.len());
    st.queue.push_back(p);
    let ghost target = enqueue_result(st.queue@, st.queue_bytes, st.max_queue_bytes, st.dropped_frames);
    let ghost s_in = *st;
    while st.queue_bytes > st.max_queue_bytes
        invariant
            enqueue_result(st.queue@, st.queue_bytes, st.max_queue_bytes, st.dropped_frames) == target,
            *st == (MicState { queue: st.queue, queue_bytes: st.queue_bytes, dropped_frames: st.dropped_frames, ..s_in }),
            wf0 ==> st.wf(),
        decreases st.queue@.len(), st.queue_bytes,
    {
        let ghost q0 = st.queue@;
        if st.queue.len() == 0 {
            st.queue_bytes = 0;
        } else {
            let old = match st.queue.pop_front() {
                Some(x) => x,
                None => Vec::new(),
            };
            proof {
                lemma_frames_bytes_drop_first(q0);
            }
            assert(st.queue@ =~= q0.drop_first());
            st.queue_bytes = st.queue_bytes.saturating_sub(old.len());
            st.dropped_frames = st.dropped_frames.wrapping_add(1);
        }
    }
}

/// What a synthetic source step does.
#[derive(Debug, Clone, Copy, PartialEq, Eq)]
pub enum MicStubStep {
    /// The source stops.
    Stop,
    /// The source waits this many milliseconds, then produces a frame.
    Sleep(u32),
}

/// Whether capture generation `generation` still runs on entry `fd` of
/// table `m`.
pub open spec fn mic_live(m: Map<i32, FdEntry>, fd: i32, generation: u64) -> bool {
    m.contains_key(fd) && !not_mic(m[fd]) && mic_st(m[fd]).running && mic_st(m[fd]).generation == generation
}

/// The size of one synthetic frame: samples of the frame's duration times
/// channels times two bytes, with saturating products.
pub open spec fn frame_len(c: MicConfig) -> usize {
    let samples = (c.sample_rate_hz as u64 * c.frame_ms as u64) / 1000;
    let a: u64 = if samples * (c.channels as u64) > u64::MAX { u64::MAX } else { (samples * (c.channels as u64)) as u64 };
    let b: u64 = if a * 2 > u64::MAX { u64::MAX } else { (a * 2) as u64 };
    b as usize
}

/// Byte `i` of the synthetic stream that starts at `offset` in `buf`,
/// repeating `buf`.
pub open spec fn looped(buf: Seq<u8>, offset: nat, i: int) -> u8 {
    buf[((offset + i) % (buf.len() as int)) as int]
}

/// Frame `f` is the next synthetic frame of length `n` from samples `buf`
/// (silence without samples) starting at `offset`.
pub open spec fn stub_frame(buf: Option<Seq<u8>>, offset: nat, n: nat, f: Seq<u8>) -> bool {
    &&& f.len() == n
    &&& match buf {
        Some(b) if b.len() > 0 => forall|i: int| 0 <= i < n ==> #[trigger] f[i] == looped(b, offset, i),
        _ => forall|i: int| 0 <= i < n ==> #[trigger] f[i] == 0u8,
    }
}

/// The synthetic samples of a microphone, if any.
pub open spec fn stub_samples(s: MicState) -> Option<Seq<u8>> {
    match s.stub_pcm16 {
        Some(b) => Some(b@),
        None => None,
    }
}

/// Counting on by one modulo `n`.
pub proof fn lemma_mod_succ(a: int, n: int)
    requires
        n > 0,
        a >= 0,
    ensures
        (a + 1) % n == (if a % n + 1 == n { 0 } else { a % n + 1 }),
{
    vstd::arithmetic::div_mod::lemma_add_mod_noop(a, 1, n);
    vstd::arithmetic::div_mod::lemma_mod_bound(a, n);
    if n == 1 {
        assert(1int % 1 == 0);
    } else {
        vstd::arithmetic::div_mod::lemma_small_mod(1, n as nat);
    }
    if a % n + 1 == n {
        vstd::arithmetic::div_mod::lemma_mod_self_0(n);
    } else {
        vstd::arithmetic::div_mod::lemma_small_mod((a % n + 1) as nat, n as nat);
    }
}

/// Builds the next synthetic frame of `n` bytes and advances the playback
/// offset.
pub fn next_stub_frame(st: &mut MicState, n: usize) -> (r: Vec<u8>)
    ensures
        stub_frame(
            stub_samples(*old(st)),
            (old(st).stub_pcm16_offset as nat),
            n as nat,
            r@,
        ),
        match old(st).stub_pcm16 {
            Some(b) if b@.len() > 0 => final(st).stub_pcm16_offset as int == ((old(st).stub_pcm16_offset as int) + (n as int)) % (b@.len() as int),
            _ => final(st).stub_pcm16_offset == old(st).stub_pcm16_offset,
        },
        *final(st) == (MicState { stub_pcm16_offset: final(st).stub_pcm16_offset, ..*old(st) }),
{
    let ghost off0: int = old(st).stub_pcm16_offset as int;
    let mut out: Vec<u8> = Vec::new();
    let has_samples = match &st.stub_pcm16 {
        Some(b) => b.len() > 0,
        None => false,
    };
    if !has_samples {
        while out.len() < n
            invariant
                out@.len() <= n,
                forall|i: int| 0 <= i < out@.len() ==> #[trigger] out@[i] == 0u8,
            decreases n - out@.len(),
        {
            out.push(0u8);
        }
        return out;
    }
    let buf = match &st.stub_pcm16 {
        Some(b) => b,
        None => { return out; },
    };
    let len = buf.len();
    let mut off = st.stub_pcm16_offset % len;
    while out.len() < n
        invariant
            len == buf@.len(),
            len > 0,
            out@.len() <= n,
            off as int == (off0 + out@.len()) % (len as int),
            off0 == old(st).stub_pcm16_offset as int,
            forall|i: int| 0 <= i < out@.len() ==> #[trigger] out@[i] == looped(buf@, old(st).stub_pcm16_offset as nat, i),
        decreases n - out@.len(),
    {
        let b = buf[off];
        proof {
            lemma_mod_succ(off0 + out@.len(), len as int);
        }
        out.push(b);
        off = if off + 1 == len { 0 } else { off + 1 };
    }
    st.stub_pcm16_offset = off;
    out
}

/// The synthetic frame length of settings `c`.
fn compute_frame_len(c: &MicConfig) -> (r: usize)
    ensures
        r == frame_len(*c),
{
    let rate = c.sample_rate_hz as u64;
    let ms = c.frame_ms as u64;
    assert(rate * ms <= u64::MAX) by (nonlinear_arith)
        requires
            rate <= 0xffff_ffffu64,
            ms <= 0xffff_ffffu64,
    ;
    let samples = (rate * ms) / 1000;
    let a = match samples.checked_mul(c.channels as u64) {
        Some(x) => x,
        None => u64::MAX,
    };
    let b = match a.checked_mul(2) {
        Some(x) => x,
        None => u64::MAX,
    };
    #[verifier::truncate]
    (b as usize)
}

impl DefaultHostApi {
    /// Takes the next captured frame of microphone `fd`: `-EBADF` for a
    /// missing, closed or foreign descriptor, `-EAGAIN` with none queued.
    pub fn mic_read(&mut self, fd: i32) -> (r: Result<Vec<u8>, i32>)
        ensures
            final(self).fd_table.spec_next_fd() == old(self).fd_table.spec_next_fd(),
            ({
                let m = old(self).fd_table.spec_entries();
                let m2 = final(self).fd_table.spec_entries();
                if !m.contains_key(fd) || not_mic(m[fd]) {
                    r matches Err(x) && x == -SPEAR_EBADF && m2 == m
                } else {
                    let s0 = mic_st(m[fd]);
                    let s2 = mic_st(m2[fd]);
                    &&& m2 == table_after_store(m, fd, mic_entry(m[fd], s2), m[fd].poll_mask.0)
                    &&& if s0.queue@.len() == 0 {
                        r matches Err(x) && x == -SPEAR_EAGAIN && s2.queue@ == s0.queue@ && s2 == (MicState { queue: s2.queue, ..s0 })
                    } else {
                        &&& r matches Ok(p) && p@ == s0.queue@[0]@
                        &&& s2.queue@ == s0.queue@.drop_first()
                        &&& s2.queue_bytes == (if s0.queue_bytes >= s0.queue@[0]@.len() { s0.queue_bytes - s0.queue@[0]@.len() } else { 0 })
                        &&& s2 == (MicState { queue: s2.queue, queue_bytes: s2.queue_bytes, ..s0 })
                    }
                    &&& s0.wf() ==> s2.wf()
                }
            }),
    {
        let ghost m = self.fd_table.spec_entries();
        let mut e = match self.fd_table.take(fd) {
            None => {
                assert(self.fd_table.spec_entries() =~= m);
                return Err(-SPEAR_EBADF);
            },
            Some(e) => e,
        };
        if e.closed || !matches!(e.inner, FdInner::Mic(_)) {
            self.fd_table.put(fd, e);
            assert(self.fd_table.spec_entries() =~= m);
            return Err(-SPEAR_EBADF);
        }
        let old_mask = e.poll_mask;
        let payload = match &mut e.inner {
            FdInner::Mic(st) => {
                let ghost q0 = st.queue@;
                if st.queue.len() > 0 {
                    let p = match st.queue.pop_front() {
                        Some(p) => p,
                        None => Vec::new(),
                    };
                    proof {
                        lemma_frames_bytes_drop_first(q0);
                    }
                    assert(st.queue@ =~= q0.drop_first());
                    st.queue_bytes = st.queue_bytes.saturating_sub(p.len());
                    Some(p)
                } else {
                    None
                }
            },
            _ => None,
        };
        self.recompute_mic_readiness_locked(&mut e);
        let ghost en = e;
        self.fd_table.store_entry(fd, e, old_mask);
        proof {
            lemma_store_back(m, fd, en, old_mask.0);
        }
        match payload {
            Some(p) => Ok(p),
            None => Err(-SPEAR_EAGAIN),
        }
    }

    /// Closes microphone `fd` (see [`FdTable::close`]).
    pub fn mic_close(&mut self, fd: i32) -> (r: i32)
        ensures
            final(self).fd_table.spec_next_fd() == old(self).fd_table.spec_next_fd(),
            ({
                let m = old(self).fd_table.spec_entries();
                let m2 = final(self).fd_table.spec_entries();
                &&& !m.contains_key(fd) ==> r == -SPEAR_EBADF && m2 == m
                &&& m.contains_key(fd) && m[fd].closed ==> r == 0 && m2 == m
                &&& m.contains_key(fd) && !m[fd].closed ==> r == 0 && FdTable::closed_table_ok(m, fd, m2)
            }),
    {
        self.fd_table.close(fd)
    }

    /// The device of microphone `fd` could not start and no fallback was
    /// allowed: capture stops under a new generation with error `msg`, and
    /// the result is `-EIO` (`-EBADF` for a missing, closed or foreign
    /// descriptor).
    pub fn mic_start_failed(&mut self, fd: i32, msg: String) -> (r: i32)
        ensures
            final(self).fd_table.spec_next_fd() == old(self).fd_table.spec_next_fd(),
            ({
                let m = old(self).fd_table.spec_entries();
                let m2 = final(self).fd_table.spec_entries();
                if !m.contains_key(fd) || not_mic(m[fd]) {
                    r == -SPEAR_EBADF && m2 == m
                } else {
                    let s0 = mic_st(m[fd]);
                    let s2 = mic_st(m2[fd]);
                    &&& r == -SPEAR_EIO
                    &&& s2 == (MicState { running: false, generation: s0.generation.wrapping_add(1), last_error: Some(msg), ..s0 })
                    &&& m2 == table_after_store(m, fd, mic_entry(m[fd], s2), m[fd].poll_mask.0)
                }
            }),
    {
        let ghost m = self.fd_table.spec_entries();
        let mut e = match self.fd_table.take(fd) {
            None => {
                assert(self.fd_table.spec_entries() =~= m);
                return -SPEAR_EBADF;
            },
            Some(e) => e,
        };
        if e.closed || !matches!(e.inner, FdInner::Mic(_)) {
            self.fd_table.put(fd, e);
            assert(self.fd_table.spec_entries() =~= m);
            return -SPEAR_EBADF;
        }
        let old_mask = e.poll_mask;
        if let FdInner::Mic(st) = &mut e.inner {
            st.running = false;
            st.generation = st.generation.wrapping_add(1);
            st.last_error = Some(msg);
        }
        self.recompute_mic_readiness_locked(&mut e);
        let ghost en = e;
        self.fd_table.store_entry(fd, e, old_mask);
        proof {
            lemma_store_back(m, fd, en, old_mask.0);
        }
        -SPEAR_EIO
    }

    /// The first half of a synthetic source step for capture generation
    /// `generation` of microphone `fd`: stop once the generation no longer
    /// runs, else wait a frame (20 ms without settings or for a zero frame
    /// length).
    pub fn mic_stub_wait(&mut self, fd: i32, generation: u64) -> (r: MicStubStep)
        ensures
            final(self).fd_table.spec_next_fd() == old(self).fd_table.spec_next_fd(),
            final(self).fd_table.spec_entries() == old(self).fd_table.spec_entries(),
            ({
                let m = old(self).fd_table.spec_entries();
                if !mic_live(m, fd, generation) {
                    r == MicStubStep::Stop
                } else {
                    r == MicStubStep::Sleep(match mic_st(m[fd]).config {
                        Some(c) => if c.frame_ms == 0 { 20 } else { c.frame_ms },
                        None => 20,
                    })
                }
            }),
    {
        let ghost m = self.fd_table.spec_entries();
        let e = match self.fd_table.take(fd) {
            None => {
                assert(self.fd_table.spec_entries() =~= m);
                return MicStubStep::Stop;
            },
            Some(e) => e,
        };
        let step = match &e.inner {
            FdInner::Mic(st) => if e.closed || !st.running || st.generation != generation {
                MicStubStep::Stop
            } else {
                let ms = match &st.config {
                    Some(c) => c.frame_ms,
                    None => 20,
                };
                MicStubStep::Sleep(if ms == 0 { 20 } else { ms })
            },
            _ => MicStubStep::Stop,
        };
        self.fd_table.put(fd, e);
        assert(self.fd_table.spec_entries() =~= m);
        step
    }

    /// The second half of a synthetic source step: where capture generation
    /// `generation` still runs and has settings, the next synthetic frame is
    /// queued (see [`next_stub_frame`] and [`mic_enqueue_frame`]) and the
    /// readiness recomputed. Returns whether the source goes on.
    pub fn mic_stub_emit(&mut self, fd: i32, generation: u64) -> (r: bool)
        ensures
            final(self).fd_table.spec_next_fd() == old(self).fd_table.spec_next_fd(),
            ({
                let m = old(self).fd_table.spec_entries();
                let m2 = final(self).fd_table.spec_entries();
                if !mic_live(m, fd, generation) {
                    !r && m2 == m
                } else if mic_st(m[fd]).config is None {
                    r && m2 == m
                } else {
                    let s0 = mic_st(m[fd]);
                    let s2 = mic_st(m2[fd]);
                    &&& r
                    &&& m2 == table_after_store(m, fd, mic_entry(m[fd], s2), m[fd].poll_mask.0)
                    &&& exists|f: Seq<u8>, mid: MicState| #![trigger stub_frame(stub_samples(s0), s0.stub_pcm16_offset as nat, frame_len(s0.config.unwrap()) as nat, f), frame_enqueued(mid, f, s2)] stub_frame(
                        stub_samples(s0),
                        s0.stub_pcm16_offset as nat,
                        frame_len(s0.config.unwrap()) as nat,
                        f,
                    ) && mid == (MicState { stub_pcm16_offset: mid.stub_pcm16_offset, ..s0 }) && (match s0.stub_pcm16 {
                        Some(b) if b@.len() > 0 => mid.stub_pcm16_offset as int == ((s0.stub_pcm16_offset as int) + (frame_len(s0.config.unwrap()) as int)) % (b@.len() as int),
                        _ => mid.stub_pcm16_offset == s0.stub_pcm16_offset,
                    }) && frame_enqueued(mid, f, s2)
                }
            }),
    {
        let ghost m = self.fd_table.spec_entries();
        let mut e = match self.fd_table.take(fd) {
            None => {
                assert(self.fd_table.spec_entries() =~= m);
                return false;
            },
            Some(e) => e,
        };
        let live = match &e.inner {
            FdInner::Mic(st) => !e.closed && st.running && st.generation == generation,
            _ => false,
        };
        if !live {
            self.fd_table.put(fd, e);
            assert(self.fd_table.spec_entries() =~= m);
            return false;
        }
        let n = match &e.inner {
            FdInner::Mic(st) => match &st.config {
                Some(c) => Some(compute_frame_len(c)),
                None => None,
            },
            _ => None,
        };
        let n = match n {
            Some(n) => n,
            None => {
                self.fd_table.put(fd, e);
                assert(self.fd_table.spec_entries() =~= m);
                return true;
            },
        };
        let old_mask = e.poll_mask;
        if let FdInner::Mic(st) = &mut e.inner {
            let f = next_stub_frame(st, n);
            let ghost mid = *st;
            let ghost fvec = f;
            mic_enqueue_frame(st, f);
            assert(frame_enqueued(mid, fvec@, *st));
        }
        self.recompute_mic_readiness_locked(&mut e);
        let ghost en = e;
        self.fd_table.store_entry(fd, e, old_mask);
        proof {
            lemma_store_back(m, fd, en, old_mask.0);
        }
        true
    }
}

impl DefaultHostApi {
    /// Queues a captured device frame `payload` for capture generation
    /// `generation` of microphone `fd` (see [`mic_enqueue_frame`]) and
    /// recomputes the readiness. Returns whether capture goes on: false
    /// once the generation no longer runs, the frame then being dropped.
    pub fn mic_push_frame(&mut self, fd: i32, generation: u64, payload: Vec<u8>) -> (r: bool)
        ensures
            final(self).fd_table.spec_next_fd() == old(self).fd_table.spec_next_fd(),
            ({
                let m = old(self).fd_table.spec_entries();
                let m2 = final(self).fd_table.spec_entries();
                if !mic_live(m, fd, generation) {
                    !r && m2 == m
                } else {
                    &&& r
                    &&& m2 == table_after_store(m, fd, mic_entry(m[fd], mic_st(m2[fd])), m[fd].poll_mask.0)
                    &&& frame_enqueued(mic_st(m[fd]), payload@, mic_st(m2[fd]))
                }
            }),
    {
        let ghost m = self.fd_table.spec_entries();
        let mut e = match self.fd_table.take(fd) {
            None => {
                assert(self.fd_table.spec_entries() =~= m);
                return false;
            },
            Some(e) => e,
        };
        let live = match &e.inner {
            FdInner::Mic(st) => !e.closed && st.running && st.generation == generation,
            _ => false,
        };
        if !live {
            self.fd_table.put(fd, e);
            assert(self.fd_table.spec_entries() =~= m);
            return false;
        }
        let old_mask = e.poll_mask;
        if let FdInner::Mic(st) = &mut e.inner {
            let ghost s1 = *st;
            let ghost pv = payload;
            mic_enqueue_frame(st, payload);
            assert(frame_enqueued(s1, pv@, *st));
        }
        self.recompute_mic_readiness_locked(&mut e);
        let ghost en = e;
        self.fd_table.store_entry(fd, e, old_mask);
        proof {
            lemma_store_back(m, fd, en, old_mask.0);
        }
        true
    }
}

/// State `s2` is `s1` with frame `f` queued by [`mic_enqueue_frame`].
pub open spec fn frame_enqueued(s1: MicState, f: Seq<u8>, s2: MicState) -> bool {
    exists|v: Vec<u8>| v@ == f && {
        let (q, b, d) = enqueue_result(
            s1.queue@.push(v),
            if s1.queue_bytes + f.len() > usize::MAX { usize::MAX } else { (s1.queue_bytes + f.len()) as usize },
            s1.max_queue_bytes,
            s1.dropped_frames,
        );
        &&& s2.queue@ == q
        &&& s2.queue_bytes == b
        &&& s2.dropped_frames == d
        &&& s2 == (MicState { queue: s2.queue, queue_bytes: b, dropped_frames: d, ..s1 })
    }
}

} // verus!