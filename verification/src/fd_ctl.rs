//! The `fd_ctl` host call: flags, kind, status and metrics of a descriptor.
use vstd::prelude::*;
use crate::errno::{EBADF, EINVAL};
use crate::poll::{FdFlags, FdKind, PollEvents};
use crate::json::{JsonValue, JsonData, JsonNum, JsonObjectBuilder, JsonArrayBuilder, json_str, json_u64, str_eq};
use crate::types::{FdEntry, FdInner, UserStreamChannel, UserStreamConnState, UserStreamDirection, UserStreamState, UserStreamCtlState};
use crate::fd_table::{FdTable, FD_CTL_SET_FLAGS, FD_CTL_GET_FLAGS, FD_CTL_GET_KIND, FD_CTL_GET_STATUS, FD_CTL_GET_METRICS};

verus! {

/// The reply of a control call: a JSON document, or bytes handed back as
/// they are.
#[derive(Debug)]
pub enum FdCtlReply {
    Json(JsonValue),
    Raw(Vec<u8>),
}

/// The content of a [`FdCtlReply`].
pub enum FdCtlReplyData {
    Json(JsonData),
    Raw(Seq<u8>),
}

impl FdCtlReply {
    pub open spec fn view(&self) -> FdCtlReplyData {
        match self {
            FdCtlReply::Json(v) => FdCtlReplyData::Json(v@),
            FdCtlReply::Raw(b) => FdCtlReplyData::Raw(b@),
        }
    }
}

/// The name of a descriptor kind.
pub open spec fn kind_name(k: FdKind) -> Seq<char> {
    match k {
        FdKind::ChatSession => "ChatSession"@,
        FdKind::ChatResponse => "ChatResponse"@,
        FdKind::Epoll => "Epoll"@,
        FdKind::RtAsr => "RtAsr"@,
        FdKind::Mic => "Mic"@,
        FdKind::UserStream => "UserStream"@,
        FdKind::UserStreamCtl => "UserStreamCtl"@,
    }
}

/// The names of the flags set in `f`.
pub open spec fn flag_names(f: FdFlags) -> Seq<JsonData> {
    if f.0 & 1 == 1 {
        seq![JsonData::Str("O_NONBLOCK"@)]
    } else {
        Seq::empty()
    }
}

/// The names of the events set in `mask`, in the order in, out, error,
/// hang-up.
pub open spec fn event_names(mask: u32) -> Seq<JsonData> {
    let a = if mask & 1 != 0 { seq![JsonData::Str("EPOLLIN"@)] } else { Seq::empty() };
    let b = if mask & 4 != 0 { a.push(JsonData::Str("EPOLLOUT"@)) } else { a };
    let c = if mask & 8 != 0 { b.push(JsonData::Str("EPOLLERR"@)) } else { b };
    if mask & 16 != 0 { c.push(JsonData::Str("EPOLLHUP"@)) } else { c }
}

/// The name of a user stream direction.
pub open spec fn direction_name(d: UserStreamDirection) -> Seq<char> {
    match d {
        UserStreamDirection::In => "In"@,
        UserStreamDirection::Out => "Out"@,
        UserStreamDirection::Bidi => "Bidi"@,
    }
}

/// The name of a user stream connection state.
pub open spec fn conn_state_name(c: UserStreamConnState) -> Seq<char> {
    match c {
        UserStreamConnState::Init => "Init"@,
        UserStreamConnState::Connected => "Connected"@,
        UserStreamConnState::Closed => "Closed"@,
        UserStreamConnState::Error => "Error"@,
    }
}

/// A JSON number of a size.
pub open spec fn jnum(n: usize) -> JsonData {
    JsonData::Number(JsonNum::PosInt(n as u64))
}

/// The document `{}`.
pub open spec fn empty_object_bytes() -> Seq<u8> {
    seq![123u8, 125u8]
}

/// The reply of a read command on entry `e` (with `ch` the channel of a user
/// stream descriptor).
pub open spec fn fd_ctl_read_reply(e: FdEntry, cmd: i32, ch: Option<UserStreamChannel>) -> FdCtlReplyData {
    if cmd == FD_CTL_GET_FLAGS {
        FdCtlReplyData::Json(JsonData::Object(seq![("flags"@, JsonData::Array(flag_names(e.flags)))]))
    } else if cmd == FD_CTL_GET_KIND {
        FdCtlReplyData::Json(JsonData::Object(seq![("kind"@, JsonData::Str(kind_name(e.kind)))]))
    } else if cmd == FD_CTL_GET_STATUS {
        FdCtlReplyData::Json(
            JsonData::Object(
                seq![
                    ("kind"@, JsonData::Str(kind_name(e.kind))),
                    ("flags"@, JsonData::Array(flag_names(e.flags))),
                    ("poll_mask"@, JsonData::Array(event_names(e.spec_effective_poll_mask()))),
                    ("closed"@, JsonData::Bool(e.closed)),
                ],
            ),
        )
    } else {
        match e.inner {
            FdInner::ChatResponse(r) => FdCtlReplyData::Raw(
                if r.metrics_bytes@.len() == 0 { empty_object_bytes() } else { r.metrics_bytes@ },
            ),
            FdInner::UserStream(st) => {
                let c = ch->0;
                FdCtlReplyData::Json(
                    JsonData::Object(
                        seq![
                            ("execution_id"@, JsonData::Str(st.execution_id@)),
                            ("stream_id"@, JsonData::Number(JsonNum::PosInt(st.stream_id as u64))),
                            ("direction"@, JsonData::Str(direction_name(st.direction))),
                            ("conn_state"@, JsonData::Str(conn_state_name(c.conn_state))),
                            ("inbound_len"@, jnum(c.inbound@.len() as usize)),
                            ("inbound_bytes"@, jnum(c.inbound_bytes)),
                            ("max_inbound_bytes"@, jnum(c.max_inbound_bytes)),
                            ("outbound_len"@, jnum(c.outbound@.len() as usize)),
                            ("outbound_bytes"@, jnum(c.outbound_bytes)),
                            ("max_outbound_bytes"@, jnum(c.max_outbound_bytes)),
                            ("max_frame_bytes"@, jnum(c.max_frame_bytes)),
                        ],
                    ),
                )
            },
            FdInner::UserStreamCtl(st) => FdCtlReplyData::Json(
                JsonData::Object(
                    seq![
                        ("execution_id"@, JsonData::Str(st.execution_id@)),
                        ("pending_len"@, jnum(st.pending@.len() as usize)),
                        ("max_pending"@, jnum(st.max_pending)),
                    ],
                ),
            ),
            _ => FdCtlReplyData::Raw(empty_object_bytes()),
        }
    }
}

/// Whether `v` is an array holding the string `t`.
pub open spec fn array_has_str(v: Option<JsonValue>, t: Seq<char>) -> bool {
    match v {
        Some(JsonValue::Array(a)) => exists|i: int| 0 <= i < a@.len() && (#[trigger] a@[i]).spec_as_str() == Some(t),
        _ => false,
    }
}

/// The flags after a set-flags request: non-blocking is set when the `set`
/// list names it and then cleared when the `clear` list names it.
pub open spec fn flags_after_request(f: FdFlags, payload: JsonValue) -> u32 {
    let s = if array_has_str(payload.spec_get("set"@), "O_NONBLOCK"@) { f.0 | 1 } else { f.0 };
    if array_has_str(payload.spec_get("clear"@), "O_NONBLOCK"@) { s & !1u32 } else { s }
}

/// Whether an array value lists the string `t`.
fn array_lists(v: Option<&JsonValue>, t: &str) -> (r: bool)
    ensures
        r == array_has_str(
            match v {
                Some(x) => Some(*x),
                None => None,
            },
            t@,
        ),
{
    match v {
        Some(JsonValue::Array(a)) => {
            let mut i: usize = 0;
            while i < a.len()
                invariant
                    0 <= i <= a.len(),
                    match v {
                        Some(x) => *x == JsonValue::Array(*a),
                        None => false,
                    },
                    forall|j: int| 0 <= j < i ==> (#[trigger] a@[j]).spec_as_str() != Some(t@),
                decreases a.len() - i,
            {
                match a[i].as_str() {
                    Some(s) => {
                        if str_eq(s, t) {
                            assert(a@[i as int].spec_as_str() == Some(t@));
                            return true;
                        }
                    },
                    None => {},
                }
                i = i + 1;
            }
            false
        },
        _ => false,
    }
}

/// The names of the flags set in `f`.
fn flags_json(f: FdFlags) -> (r: JsonValue)
    ensures
        r@ == JsonData::Array(flag_names(f)),
{
    let mut a = JsonArrayBuilder::new();
    if f.contains(FdFlags::O_NONBLOCK()) {
        a.add(json_str("O_NONBLOCK"));
    }
    proof {
        assert(a@ =~= flag_names(f));
    }
    a.build()
}

/// The name of a descriptor kind.
fn kind_json(k: FdKind) -> (r: JsonValue)
    ensures
        r@ == JsonData::Str(kind_name(k)),
{
    match k {
        FdKind::ChatSession => json_str("ChatSession"),
        FdKind::ChatResponse => json_str("ChatResponse"),
        FdKind::Epoll => json_str("Epoll"),
        FdKind::RtAsr => json_str("RtAsr"),
        FdKind::Mic => json_str("Mic"),
        FdKind::UserStream => json_str("UserStream"),
        FdKind::UserStreamCtl => json_str("UserStreamCtl"),
    }
}

/// The names of the events of `mask`.
fn events_json(mask: PollEvents) -> (r: JsonValue)
    ensures
        r@ == JsonData::Array(event_names(mask.0)),
{
    let mut a = JsonArrayBuilder::new();
    if mask.intersects(PollEvents::IN()) {
        a.add(json_str("EPOLLIN"));
    }
    if mask.intersects(PollEvents::OUT()) {
        a.add(json_str("EPOLLOUT"));
    }
    if mask.intersects(PollEvents::ERR()) {
        a.add(json_str("EPOLLERR"));
    }
    if mask.intersects(PollEvents::HUP()) {
        a.add(json_str("EPOLLHUP"));
    }
    proof {
        assert(a@ =~= event_names(mask.0));
    }
    a.build()
}

/// The document `{}`.
fn empty_object_raw() -> (r: Vec<u8>)
    ensures
        r@ == empty_object_bytes(),
{
    let mut v: Vec<u8> = Vec::new();
    v.push(123u8);
    v.push(125u8);
    assert(v@ =~= empty_object_bytes());
    v
}

/// The reply of the status command.
fn status_reply(e: &FdEntry) -> (r: JsonValue)
    ensures
        r@ == JsonData::Object(
            seq![
                ("kind"@, JsonData::Str(kind_name(e.kind))),
                ("flags"@, JsonData::Array(flag_names(e.flags))),
                ("poll_mask"@, JsonData::Array(event_names(e.spec_effective_poll_mask()))),
                ("closed"@, JsonData::Bool(e.closed)),
            ],
        ),
{
    let mut o = JsonObjectBuilder::new();
    o.add("kind", kind_json(e.kind));
    o.add("flags", flags_json(e.flags));
    o.add("poll_mask", events_json(e.effective_poll_mask()));
    o.add("closed", JsonValue::Bool(e.closed));
    assert(o@ =~= seq![
        ("kind"@, JsonData::Str(kind_name(e.kind))),
        ("flags"@, JsonData::Array(flag_names(e.flags))),
        ("poll_mask"@, JsonData::Array(event_names(e.spec_effective_poll_mask()))),
        ("closed"@, JsonData::Bool(e.closed)),
    ]);
    o.build()
}

/// The metrics of a user stream descriptor with channel `c`.
#[verifier::rlimit(40)]
fn user_stream_metrics(st: &UserStreamState, c: &UserStreamChannel) -> (r: JsonValue)
    ensures
        r@ == JsonData::Object(
            seq![
                ("execution_id"@, JsonData::Str(st.execution_id@)),
                ("stream_id"@, JsonData::Number(JsonNum::PosInt(st.stream_id as u64))),
                ("direction"@, JsonData::Str(direction_name(st.direction))),
                ("conn_state"@, JsonData::Str(conn_state_name(c.conn_state))),
                ("inbound_len"@, jnum(c.inbound@.len() as usize)),
                ("inbound_bytes"@, jnum(c.inbound_bytes)),
                ("max_inbound_bytes"@, jnum(c.max_inbound_bytes)),
                ("outbound_len"@, jnum(c.outbound@.len() as usize)),
                ("outbound_bytes"@, jnum(c.outbound_bytes)),
                ("max_outbound_bytes"@, jnum(c.max_outbound_bytes)),
                ("max_frame_bytes"@, jnum(c.max_frame_bytes)),
            ],
        ),
{
    let mut o = JsonObjectBuilder::new();
    o.add("execution_id", json_str(st.execution_id.as_str()));
    o.add("stream_id", json_u64(st.stream_id as u64));
    let d = match st.direction {
        UserStreamDirection::In => json_str("In"),
        UserStreamDirection::Out => json_str("Out"),
        UserStreamDirection::Bidi => json_str("Bidi"),
    };
    o.add("direction", d);
    let cs = match c.conn_state {
        UserStreamConnState::Init => json_str("Init"),
        UserStreamConnState::Connected => json_str("Connected"),
        UserStreamConnState::Closed => json_str("Closed"),
        UserStreamConnState::Error => json_str("Error"),
    };
    o.add("conn_state", cs);
    o.add("inbound_len", json_u64(c.inbound.len() as u64));
    o.add("inbound_bytes", json_u64(c.inbound_bytes as u64));
    o.add("max_inbound_bytes", json_u64(c.max_inbound_bytes as u64));
    o.add("outbound_len", json_u64(c.outbound.len() as u64));
    o.add("outbound_bytes", json_u64(c.outbound_bytes as u64));
    o.add("max_outbound_bytes", json_u64(c.max_outbound_bytes as u64));
    o.add("max_frame_bytes", json_u64(c.max_frame_bytes as u64));
    assert(o@ =~= seq![
        ("execution_id"@, JsonData::Str(st.execution_id@)),
        ("stream_id"@, JsonData::Number(JsonNum::PosInt(st.stream_id as u64))),
        ("direction"@, JsonData::Str(direction_name(st.direction))),
        ("conn_state"@, JsonData::Str(conn_state_name(c.conn_state))),
        ("inbound_len"@, jnum(c.inbound@.len() as usize)),
        ("inbound_bytes"@, jnum(c.inbound_bytes)),
        ("max_inbound_bytes"@, jnum(c.max_inbound_bytes)),
        ("outbound_len"@, jnum(c.outbound@.len() as usize)),
        ("outbound_bytes"@, jnum(c.outbound_bytes)),
        ("max_outbound_bytes"@, jnum(c.max_outbound_bytes)),
        ("max_frame_bytes"@, jnum(c.max_frame_bytes)),
    ]);
    o.build()
}

/// The metrics of a user stream control descriptor.
fn user_stream_ctl_metrics(st: &UserStreamCtlState) -> (r: JsonValue)
    ensures
        r@ == JsonData::Object(
            seq![
                ("execution_id"@, JsonData::Str(st.execution_id@)),
                ("pending_len"@, jnum(st.pending@.len() as usize)),
                ("max_pending"@, jnum(st.max_pending)),
            ],
        ),
{
    let mut o = JsonObjectBuilder::new();
    o.add("execution_id", json_str(st.execution_id.as_str()));
    o.add("pending_len", json_u64(st.pending.len() as u64));
    o.add("max_pending", json_u64(st.max_pending as u64));
    assert(o@ =~= seq![
        ("execution_id"@, JsonData::Str(st.execution_id@)),
        ("pending_len"@, jnum(st.pending@.len() as usize)),
        ("max_pending"@, jnum(st.max_pending)),
    ]);
    o.build()
}

/// The reply of a read command.
fn read_reply(e: &FdEntry, cmd: i32, ch: Option<&UserStreamChannel>) -> (r: FdCtlReply)
    requires
        cmd == FD_CTL_GET_FLAGS || cmd == FD_CTL_GET_KIND || cmd == FD_CTL_GET_STATUS || cmd == FD_CTL_GET_METRICS,
        cmd == FD_CTL_GET_METRICS && e.inner is UserStream ==> ch is Some,
    ensures
        r@ == fd_ctl_read_reply(
            *e,
            cmd,
            match ch {
                Some(c) => Some(*c),
                None => None,
            },
        ),
{
    if cmd == FD_CTL_GET_FLAGS {
        let mut o = JsonObjectBuilder::new();
        o.add("flags", flags_json(e.flags));
        assert(o@ =~= seq![("flags"@, JsonData::Array(flag_names(e.flags)))]);
        FdCtlReply::Json(o.build())
    } else if cmd == FD_CTL_GET_KIND {
        let mut o = JsonObjectBuilder::new();
        o.add("kind", kind_json(e.kind));
        assert(o@ =~= seq![("kind"@, JsonData::Str(kind_name(e.kind)))]);
        FdCtlReply::Json(o.build())
    } else if cmd == FD_CTL_GET_STATUS {
        FdCtlReply::Json(status_reply(e))
    } else {
        match &e.inner {
            FdInner::ChatResponse(r) => {
                if r.metrics_bytes.len() == 0 {
                    FdCtlReply::Raw(empty_object_raw())
                } else {
                    FdCtlReply::Raw(r.metrics_bytes.clone())
                }
            },
            FdInner::UserStream(st) => {
                let c = match ch {
                    Some(c) => c,
                    None => { return FdCtlReply::Raw(empty_object_raw()); },
                };
                FdCtlReply::Json(user_stream_metrics(st, c))
            },
            FdInner::UserStreamCtl(st) => FdCtlReply::Json(user_stream_ctl_metrics(st)),
            _ => FdCtlReply::Raw(empty_object_raw()),
        }
    }
}

/// What descriptor control does: on an unknown descriptor `EBADF`;
/// setting flags without a request `EINVAL`, else the flags the request
/// leaves; the read commands leave the table and reply with the entry's
/// document; other commands `EINVAL`.
pub open spec fn fd_ctl_spec(
    m: Map<i32, FdEntry>,
    fd: i32,
    cmd: i32,
    payload: Option<JsonValue>,
    channel: Option<UserStreamChannel>,
    m2: Map<i32, FdEntry>,
    r: Result<Option<FdCtlReply>, i32>,
) -> bool {
    if !m.contains_key(fd) {
        (r matches Err(x) && x == -EBADF) && m2 == m
    } else if cmd == FD_CTL_SET_FLAGS {
        match payload {
            None => (r matches Err(x) && x == -EINVAL) && m2 == m,
            Some(p) => (r matches Ok(None)) && m2 == m.insert(
                fd,
                FdEntry { flags: FdFlags(flags_after_request(m[fd].flags, p)), ..m[fd] },
            ),
        }
    } else if cmd == FD_CTL_GET_FLAGS || cmd == FD_CTL_GET_KIND || cmd == FD_CTL_GET_STATUS || cmd
        == FD_CTL_GET_METRICS {
        m2 == m && (r matches Ok(Some(rep)) && rep@ == fd_ctl_read_reply(m[fd], cmd, channel))
    } else {
        (r matches Err(x) && x == -EINVAL) && m2 == m
    }
}

impl FdTable {
    /// Descriptor control. `payload` is the request document, if one was
    /// given and parsed; `channel` is the channel of a user stream
    /// descriptor. Setting flags changes the entry; the other commands only
    /// read it.
    pub fn fd_ctl(&mut self, fd: i32, cmd: i32, payload: Option<&JsonValue>, channel: Option<&UserStreamChannel>) -> (r:
        Result<Option<FdCtlReply>, i32>)
        requires
            cmd == FD_CTL_GET_METRICS && old(self).spec_entries().contains_key(fd)
                && old(self).spec_entries()[fd].inner is UserStream ==> channel is Some,
        ensures
            final(self).spec_next_fd() == old(self).spec_next_fd(),
            fd_ctl_spec(
                old(self).spec_entries(),
                fd,
                cmd,
                match payload {
                    Some(p) => Some(*p),
                    None => None,
                },
                match channel {
                    Some(c) => Some(*c),
                    None => None,
                },
                final(self).spec_entries(),
                r,
            ),
    {
        let ghost m = self.spec_entries();
        let mut e = match self.take(fd) {
            None => {
                assert(self.spec_entries() =~= m);
                return Err(-EBADF);
            },
            Some(e) => e,
        };
        if cmd == FD_CTL_SET_FLAGS {
            let p = match payload {
                None => {
                    self.put(fd, e);
                    assert(self.spec_entries() =~= m);
                    return Err(-EINVAL);
                },
                Some(p) => p,
            };
            let set_has = array_lists(p.get("set"), "O_NONBLOCK");
            let clear_has = array_lists(p.get("clear"), "O_NONBLOCK");
            if set_has {
                e.flags.insert(FdFlags::O_NONBLOCK());
            }
            if clear_has {
                e.flags.remove(FdFlags::O_NONBLOCK());
            }
            self.put(fd, e);
            assert(self.spec_entries() =~= m.insert(
                fd,
                FdEntry { flags: FdFlags(flags_after_request(m[fd].flags, *p)), ..m[fd] },
            ));
            return Ok(None);
        }
        if cmd == FD_CTL_GET_FLAGS || cmd == FD_CTL_GET_KIND || cmd == FD_CTL_GET_STATUS || cmd == FD_CTL_GET_METRICS {
            let rep = read_reply(&e, cmd, channel);
            self.put(fd, e);
            assert(self.spec_entries() =~= m);
            return Ok(Some(rep));
        }
        self.put(fd, e);
        assert(self.spec_entries() =~= m);
        Err(-EINVAL)
    }
}

} // verus!
