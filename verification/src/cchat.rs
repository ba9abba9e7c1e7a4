//! Chat descriptors: sessions that collect messages and tools, and the
//! response descriptors that hold a finished reply; and the rules that
//! decide which request fields and headers are hidden in logs.
use vstd::prelude::*;
use std::collections::HashSet;
use crate::errno::{SPEAR_EBADF};
use crate::poll::{FdFlags, FdKind, PollEvents};
use crate::json::{JsonData, JsonValue, JsonObjectBuilder, json_data, json_data_members, json_str, json_u64, members_upsert, spec_member, str_eq};
use crate::codec::{trim_text, trimmed};
use crate::termination::opt_text;
use crate::types::{ChatMessage, ChatResponseState, ChatSessionState, FdEntry, FdInner, bytes_to_vec};
use crate::fd_table::{FdTable, notified};
use crate::host::DefaultHostApi;
use crate::registry::{ascii_lower, ascii_lower_text, ascii_lower_eq};

verus! {

/// The session state of entry `e`.
pub open spec fn session_st(e: FdEntry) -> ChatSessionState {
    match e.inner {
        FdInner::ChatSession(s) => s,
        _ => arbitrary(),
    }
}

/// The response state of entry `e`.
pub open spec fn response_st(e: FdEntry) -> ChatResponseState {
    match e.inner {
        FdInner::ChatResponse(r) => r,
        _ => arbitrary(),
    }
}

/// Whether `fd` is an open chat session of table `m`.
pub open spec fn open_session(m: Map<i32, FdEntry>, fd: i32) -> bool {
    m.contains_key(fd) && !m[fd].closed && m[fd].inner is ChatSession
}

/// `m2` is `m` with the session of `fd` replaced by `s`.
pub open spec fn session_replaced(m: Map<i32, FdEntry>, fd: i32, s: ChatSessionState, m2: Map<i32, FdEntry>) -> bool {
    m2 == m.insert(fd, FdEntry { inner: FdInner::ChatSession(s), ..m[fd] })
}

impl DefaultHostApi {
    /// Creates an empty chat session descriptor.
    pub fn cchat_create(&mut self) -> (r: i32)
        ensures
            r == old(self).fd_table.spec_next_fd(),
            final(self).fd_table.spec_next_fd() == old(self).fd_table.spec_next_fd().wrapping_add(1),
            ({
                let e = final(self).fd_table.spec_entries()[r];
                &&& final(self).fd_table.spec_entries() == old(self).fd_table.spec_entries().insert(r, e)
                &&& e.kind == FdKind::ChatSession
                &&& e.flags.0 == 0
                &&& e.poll_mask.0 == 0
                &&& e.watchers@ == Set::<i32>::empty()
                &&& !e.closed
                &&& e.inner is ChatSession
                &&& session_st(e).messages@.len() == 0
                &&& session_st(e).tools@.len() == 0
                &&& session_st(e).params@.len() == 0
            }),
    {
        let e = FdEntry {
            kind: FdKind::ChatSession,
            flags: FdFlags::default(),
            poll_mask: PollEvents::EMPTY(),
            watchers: HashSet::new(),
            closed: false,
            inner: FdInner::ChatSession(ChatSessionState::default()),
        };
        self.fd_table.allocate(e)
    }

    /// Appends a text message with `role` to session `fd`; `-EBADF` for a
    /// missing, closed or foreign descriptor.
    pub fn cchat_write_msg(&mut self, fd: i32, role: String, content: String) -> (r: i32)
        ensures
            final(self).fd_table.spec_next_fd() == old(self).fd_table.spec_next_fd(),
            ({
                let m = old(self).fd_table.spec_entries();
                let m2 = final(self).fd_table.spec_entries();
                if !open_session(m, fd) {
                    r == -SPEAR_EBADF && m2 == m
                } else {
                    let s0 = session_st(m[fd]);
                    let s2 = session_st(m2[fd]);
                    &&& r == 0
                    &&& session_replaced(m, fd, s2, m2)
                    &&& s2.messages@ == s0.messages@.push(ChatMessage {
                        role,
                        content: JsonValue::Str(content),
                        tool_call_id: None,
                        name: None,
                    })
                    &&& s2.tools == s0.tools
                    &&& s2.params == s0.params
                }
            }),
    {
        let msg = ChatMessage { role, content: JsonValue::Str(content), tool_call_id: None, name: None };
        self.cchat_append_message(fd, msg)
    }

    /// Appends message `msg` to session `fd`; `-EBADF` for a missing,
    /// closed or foreign descriptor.
    pub fn cchat_append_message(&mut self, fd: i32, msg: ChatMessage) -> (r: i32)
        ensures
            final(self).fd_table.spec_next_fd() == old(self).fd_table.spec_next_fd(),
            ({
                let m = old(self).fd_table.spec_entries();
                let m2 = final(self).fd_table.spec_entries();
                if !open_session(m, fd) {
                    r == -SPEAR_EBADF && m2 == m
                } else {
                    let s0 = session_st(m[fd]);
                    let s2 = session_st(m2[fd]);
                    &&& r == 0
                    &&& session_replaced(m, fd, s2, m2)
                    &&& s2.messages@ == s0.messages@.push(msg)
                    &&& s2.tools == s0.tools
                    &&& s2.params == s0.params
                }
            }),
    {
        let ghost m = self.fd_table.spec_entries();
        let mut e = match self.fd_table.take(fd) {
            None => {
                assert(self.fd_table.spec_entries() =~= m);
                return -SPEAR_EBADF;
            },
            Some(e) => e,
        };
        if e.closed || !matches!(e.inner, FdInner::ChatSession(_)) {
            self.fd_table.put(fd, e);
            assert(self.fd_table.spec_entries() =~= m);
            return -SPEAR_EBADF;
        }
        if let FdInner::ChatSession(s) = &mut e.inner {
            s.messages.push(msg);
        }
        self.fd_table.put(fd, e);
        assert(self.fd_table.spec_entries() =~= m.insert(fd, e));
        0
    }

    /// Registers tool `fn_json` at guest offset `fn_offset` with session
    /// `fd`; `-EBADF` for a missing, closed or foreign descriptor.
    pub fn cchat_write_fn(&mut self, fd: i32, fn_offset: i32, fn_json: String) -> (r: i32)
        ensures
            final(self).fd_table.spec_next_fd() == old(self).fd_table.spec_next_fd(),
            ({
                let m = old(self).fd_table.spec_entries();
                let m2 = final(self).fd_table.spec_entries();
                if !open_session(m, fd) {
                    r == -SPEAR_EBADF && m2 == m
                } else {
                    let s0 = session_st(m[fd]);
                    let s2 = session_st(m2[fd]);
                    &&& r == 0
                    &&& session_replaced(m, fd, s2, m2)
                    &&& s2.tools@ == s0.tools@.push((fn_offset, fn_json))
                    &&& s2.messages == s0.messages
                    &&& s2.params == s0.params
                }
            }),
    {
        let ghost m = self.fd_table.spec_entries();
        let mut e = match self.fd_table.take(fd) {
            None => {
                assert(self.fd_table.spec_entries() =~= m);
                return -SPEAR_EBADF;
            },
            Some(e) => e,
        };
        if e.closed || !matches!(e.inner, FdInner::ChatSession(_)) {
            self.fd_table.put(fd, e);
            assert(self.fd_table.spec_entries() =~= m);
            return -SPEAR_EBADF;
        }
        if let FdInner::ChatSession(s) = &mut e.inner {
            s.tools.push((fn_offset, fn_json));
        }
        self.fd_table.put(fd, e);
        assert(self.fd_table.spec_entries() =~= m.insert(fd, e));
        0
    }

    /// The reply of response descriptor `fd`; `-EBADF` unless it is a
    /// response descriptor.
    pub fn cchat_recv(&mut self, fd: i32) -> (r: Result<Vec<u8>, i32>)
        ensures
            final(self).fd_table == old(self).fd_table || final(self).fd_table.spec_entries() == old(self).fd_table.spec_entries(),
            final(self).fd_table.spec_next_fd() == old(self).fd_table.spec_next_fd(),
            ({
                let m = old(self).fd_table.spec_entries();
                if !m.contains_key(fd) || !(m[fd].inner is ChatResponse) {
                    r matches Err(x) && x == -SPEAR_EBADF
                } else {
                    r matches Ok(b) && b@ == response_st(m[fd]).bytes@
                }
            }),
    {
        self.response_bytes(fd, false)
    }

    /// The metrics document of response descriptor `fd` (`{}` when there
    /// is none); `-EBADF` unless it is a response descriptor.
    pub fn cchat_ctl_get_metrics(&mut self, fd: i32) -> (r: Result<Vec<u8>, i32>)
        ensures
            final(self).fd_table.spec_entries() == old(self).fd_table.spec_entries(),
            final(self).fd_table.spec_next_fd() == old(self).fd_table.spec_next_fd(),
            ({
                let m = old(self).fd_table.spec_entries();
                if !m.contains_key(fd) || !(m[fd].inner is ChatResponse) {
                    r matches Err(x) && x == -SPEAR_EBADF
                } else if response_st(m[fd]).metrics_bytes@.len() == 0 {
                    r matches Ok(b) && b@ == seq![123u8, 125u8]
                } else {
                    r matches Ok(b) && b@ == response_st(m[fd]).metrics_bytes@
                }
            }),
    {
        self.response_bytes(fd, true)
    }

    fn response_bytes(&mut self, fd: i32, metrics: bool) -> (r: Result<Vec<u8>, i32>)
        ensures
            final(self).fd_table.spec_entries() == old(self).fd_table.spec_entries(),
            final(self).fd_table.spec_next_fd() == old(self).fd_table.spec_next_fd(),
            ({
                let m = old(self).fd_table.spec_entries();
                if !m.contains_key(fd) || !(m[fd].inner is ChatResponse) {
                    r matches Err(x) && x == -SPEAR_EBADF
                } else if !metrics {
                    r matches Ok(b) && b@ == response_st(m[fd]).bytes@
                } else if response_st(m[fd]).metrics_bytes@.len() == 0 {
                    r matches Ok(b) && b@ == seq![123u8, 125u8]
                } else {
                    r matches Ok(b) && b@ == response_st(m[fd]).metrics_bytes@
                }
            }),
    {
        let ghost m = self.fd_table.spec_entries();
        let e = match self.fd_table.take(fd) {
            None => {
                assert(self.fd_table.spec_entries() =~= m);
                return Err(-SPEAR_EBADF);
            },
            Some(e) => e,
        };
        let out = match &e.inner {
            FdInner::ChatResponse(rs) => if !metrics {
                Ok(bytes_to_vec(rs.bytes.as_slice()))
            } else if rs.metrics_bytes.len() == 0 {
                let mut v: Vec<u8> = Vec::new();
                v.push(123u8);
                v.push(125u8);
                assert(v@ =~= seq![123u8, 125u8]);
                Ok(v)
            } else {
                Ok(bytes_to_vec(rs.metrics_bytes.as_slice()))
            },
            _ => Err(-SPEAR_EBADF),
        };
        self.fd_table.put(fd, e);
        assert(self.fd_table.spec_entries() =~= m);
        out
    }

    /// Stores reply `bytes` and `metrics_bytes` in response descriptor
    /// `fd`, makes it readable and notifies its watchers; `-EBADF` unless
    /// it is a response descriptor.
    pub fn cchat_put_response(&mut self, fd: i32, bytes: Vec<u8>, metrics_bytes: Vec<u8>) -> (r: Result<(), i32>)
        ensures
            final(self).fd_table.spec_next_fd() == old(self).fd_table.spec_next_fd(),
            ({
                let m = old(self).fd_table.spec_entries();
                let m2 = final(self).fd_table.spec_entries();
                if !m.contains_key(fd) || !(m[fd].inner is ChatResponse) {
                    r matches Err(x) && x == -SPEAR_EBADF && m2 == m
                } else {
                    let e2 = FdEntry {
                        inner: FdInner::ChatResponse(ChatResponseState { bytes, metrics_bytes }),
                        poll_mask: PollEvents(m[fd].poll_mask.0 | 1u32),
                        ..m[fd]
                    };
                    r is Ok && m2 == notified(m.insert(fd, e2), e2.watchers@)
                }
            }),
    {
        let ghost m = self.fd_table.spec_entries();
        let mut e = match self.fd_table.take(fd) {
            None => {
                assert(self.fd_table.spec_entries() =~= m);
                return Err(-SPEAR_EBADF);
            },
            Some(e) => e,
        };
        if !matches!(e.inner, FdInner::ChatResponse(_)) {
            self.fd_table.put(fd, e);
            assert(self.fd_table.spec_entries() =~= m);
            return Err(-SPEAR_EBADF);
        }
        e.inner = FdInner::ChatResponse(ChatResponseState { bytes, metrics_bytes });
        e.poll_mask.insert(PollEvents::IN());
        self.fd_table.put(fd, e);
        assert(self.fd_table.spec_entries() =~= m.insert(fd, e));
        self.fd_table.notify_watchers(fd);
        Ok(())
    }

    /// Closes chat descriptor `fd` (see [`FdTable::close`]).
    pub fn cchat_close(&mut self, fd: i32) -> (r: i32)
        ensures
            final(self).fd_table.spec_next_fd() == old(self).fd_table.spec_next_fd(),
            ({
                let m = old(self).fd_table.spec_entries();
                let m2 = final(self).fd_table.spec_entries();
                &&& !m.contains_key(fd) ==> r == -SPEAR_EBADF && m2 == m
                &&& m.contains_key(fd) && m[fd].closed ==> r == 0 && m2 == m
                &&& m.contains_key(fd) && !m[fd].closed ==> r == 0 && FdTable::closed_table_ok(m, fd, m2)
            }),
    {
        self.fd_table.close(fd)
    }
}

/// Whether `t` occurs in `s`.
pub open spec fn contains_text(s: Seq<char>, t: Seq<char>) -> bool {
    exists|i: int| 0 <= i && i + t.len() <= s.len() && #[trigger] s.subrange(i, i + t.len()) == t
}

/// Whether `s` ends with `t`.
pub open spec fn ends_with_text(s: Seq<char>, t: Seq<char>) -> bool {
    t.len() <= s.len() && s.subrange(s.len() - t.len(), s.len() as int) == t
}

fn lower_string(s: &str) -> (r: Vec<char>)
    ensures
        r@ == ascii_lower_text(s@),
{
    let n = s.unicode_len();
    let mut out: Vec<char> = Vec::new();
    let mut i: usize = 0;
    while i < n
        invariant
            n == s@.len(),
            0 <= i <= n,
            out@ == ascii_lower_text(s@).take(i as int),
        decreases n - i,
    {
        let c = s.get_char(i);
        let l = if 'A' <= c && c <= 'Z' {
            let v = (c as u32) + 32;
            #[verifier::truncate]
            ((v as u8) as char)
        } else {
            c
        };
        assert(l == ascii_lower(c));
        out.push(l);
        i = i + 1;
        assert(out@ =~= ascii_lower_text(s@).take(i as int));
    }
    assert(ascii_lower_text(s@).take(n as int) =~= ascii_lower_text(s@));
    out
}

fn seq_contains(s: &Vec<char>, t: &str) -> (r: bool)
    ensures
        r == contains_text(s@, t@),
{
    let m = t.unicode_len();
    if m > s.len() {
        return false;
    }
    let mut i: usize = 0;
    while i <= s.len() - m
        invariant
            m == t@.len(),
            m <= s@.len(),
            0 <= i <= s@.len() - m + 1,
            forall|k: int| 0 <= k < i ==> #[trigger] s@.subrange(k, k + m) != t@,
        decreases s@.len() - i,
    {
        let mut j: usize = 0;
        let mut same = true;
        while j < m
            invariant
                m == t@.len(),
                i + m <= s.len(),
                0 <= j <= m,
                same == forall|k: int| 0 <= k < j ==> s@[i + k] == t@[k],
            decreases m - j,
        {
            if s[i + j] != t.get_char(j) {
                same = false;
            }
            j = j + 1;
        }
        if same {
            assert(s@.subrange(i as int, i + m) =~= t@);
            return true;
        }
        assert(s@.subrange(i as int, i + m) != t@) by {
            let k = choose|k: int| 0 <= k < m && s@[i + k] != t@[k];
            assert(s@.subrange(i as int, i + m)[k] == s@[i + k]);
        }
        i = i + 1;
    }
    false
}

fn seq_ends_with(s: &Vec<char>, t: &str) -> (r: bool)
    ensures
        r == ends_with_text(s@, t@),
{
    let m = t.unicode_len();
    if m > s.len() {
        return false;
    }
    let base = s.len() - m;
    let mut j: usize = 0;
    while j < m
        invariant
            m == t@.len(),
            base + m == s.len(),
            0 <= j <= m,
            forall|k: int| 0 <= k < j ==> s@[base + k] == t@[k],
        decreases m - j,
    {
        if s[base + j] != t.get_char(j) {
            assert(s@.subrange(base as int, s@.len() as int)[j as int] == s@[base + j]);
            return false;
        }
        j = j + 1;
    }
    assert(s@.subrange(base as int, s@.len() as int) =~= t@);
    true
}

/// Whether a request field named `key` is hidden in logs: names that
/// mention keys, authorization, tokens, secrets, passwords or cookies,
/// ignoring ASCII case.
pub open spec fn redacted_key(key: Seq<char>) -> bool {
    let k = ascii_lower_text(key);
    contains_text(k, "api_key"@) || contains_text(k, "apikey"@) || contains_text(k, "authorization"@) || k == "auth"@
        || ends_with_text(k, "_token"@) || contains_text(k, "token"@) || contains_text(k, "secret"@) || contains_text(
        k,
        "password"@,
    ) || contains_text(k, "cookie"@)
}

/// Whether a request field named `key` is hidden in logs (see
/// [`redacted_key`]).
pub fn should_redact_key(key: &str) -> (r: bool)
    ensures
        r == redacted_key(key@),
{
    let k = lower_string(key);
    let is_auth = ascii_lower_eq(key, "auth");
    seq_contains(&k, "api_key") || seq_contains(&k, "apikey") || seq_contains(&k, "authorization") || is_auth
        || seq_ends_with(&k, "_token") || seq_contains(&k, "token") || seq_contains(&k, "secret") || seq_contains(
        &k,
        "password",
    ) || seq_contains(&k, "cookie")
}

/// Whether a header named `name` is hidden in logs: authorization,
/// cookies, API keys and token headers, ignoring ASCII case.
pub open spec fn redacted_header(name: Seq<char>) -> bool {
    let n = ascii_lower_text(name);
    n == "authorization"@ || n == "cookie"@ || n == "x-api-key"@ || ends_with_text(n, "-token"@)
}

/// Whether a header named `name` is hidden in logs (see
/// [`redacted_header`]).
pub fn should_redact_header_name(name: &str) -> (r: bool)
    ensures
        r == redacted_header(name@),
{
    let n = lower_string(name);
    ascii_lower_eq(name, "authorization") || ascii_lower_eq(name, "cookie") || ascii_lower_eq(name, "x-api-key")
        || seq_ends_with(&n, "-token")
}

/// The members `m` with the values of hidden headers replaced by `***`.
pub open spec fn redact_headers(m: Seq<(Seq<char>, JsonData)>) -> Seq<(Seq<char>, JsonData)> {
    Seq::new(
        m.len(),
        |j: int|
            if redacted_header(m[j].0) {
                (m[j].0, JsonData::Str("***"@))
            } else {
                m[j]
            },
    )
}

/// A request field `key` with content `d` as written to logs: hidden keys
/// become `***`; in a `headers` object (the name compared ignoring ASCII
/// case) the hidden headers become `***`.
pub open spec fn redacted_value(key: Seq<char>, d: JsonData) -> JsonData {
    if redacted_key(key) {
        JsonData::Str("***"@)
    } else if ascii_lower_text(key) == "headers"@ {
        match d {
            JsonData::Object(m) => JsonData::Object(redact_headers(m)),
            _ => d,
        }
    } else {
        d
    }
}

proof fn lemma_json_data_members_index(s: Seq<(String, JsonValue)>)
    ensures
        json_data_members(s).len() == s.len(),
        forall|j: int| 0 <= j < s.len() ==> #[trigger] json_data_members(s)[j] == (s[j].0@, json_data(s[j].1)),
    decreases s.len(),
{
    if s.len() > 0 {
        let t = s.subrange(1, s.len() as int);
        lemma_json_data_members_index(t);
        assert forall|j: int| 0 <= j < s.len() implies #[trigger] json_data_members(s)[j] == (s[j].0@, json_data(s[j].1)) by {
            if j > 0 {
                assert(t[j - 1] == s[j]);
            }
        }
    }
}

/// Hide the value `v` of the request field `key` for logging (see
/// [`redacted_value`]).
pub fn redact_value_by_key(key: &str, v: &mut JsonValue)
    ensures
        final(v)@ == redacted_value(key@, old(v)@),
{
    if should_redact_key(key) {
        *v = JsonValue::Str(String::from_str("***"));
        return;
    }
    if !ascii_lower_eq(key, "headers") {
        return;
    }
    let mut taken = JsonValue::Null;
    std::mem::swap(&mut taken, v);
    match taken {
        JsonValue::Object(m) => {
            let mut out: Vec<(String, JsonValue)> = Vec::new();
            let mut i: usize = 0;
            while i < m.len()
                invariant
                    0 <= i <= m.len(),
                    out@.len() == i,
                    forall|j: int| 0 <= j < i ==> (#[trigger] out@[j]).0@ == m@[j].0@ && json_data(out@[j].1) == (
                    if redacted_header(m@[j].0@) {
                        JsonData::Str("***"@)
                    } else {
                        json_data(m@[j].1)
                    }),
                decreases m.len() - i,
            {
                let name = m[i].0.clone();
                let value = if should_redact_header_name(m[i].0.as_str()) {
                    JsonValue::Str(String::from_str("***"))
                } else {
                    m[i].1.duplicate()
                };
                out.push((name, value));
                i = i + 1;
            }
            proof {
                lemma_json_data_members_index(out@);
                lemma_json_data_members_index(m@);
                assert(json_data_members(out@) =~= redact_headers(json_data_members(m@)));
            }
            *v = JsonValue::Object(out);
        },
        other => {
            *v = other;
        },
    }
}

/// The text of the string member `key` of `v`, if it is one.
pub open spec fn member_text(v: JsonValue, key: Seq<char>) -> Option<Seq<char>> {
    match v.spec_get(key) {
        Some(x) => x.spec_as_str(),
        None => None,
    }
}

/// The message of the first choice of a chat completion document
/// (`choices[0].message`), if there is one.
pub open spec fn first_choice_message(v: JsonValue) -> Option<JsonValue> {
    match v.spec_get("choices"@) {
        Some(JsonValue::Array(a)) => if a@.len() > 0 {
            a@[0].spec_get("message"@)
        } else {
            None
        },
        _ => None,
    }
}

/// The assistant message of a chat completion document: the role (by
/// default `assistant`), the content (by default null) and the name of the
/// first choice's message.
pub fn extract_openai_assistant_message(v: &JsonValue) -> (r: Option<ChatMessage>)
    ensures
        match first_choice_message(*v) {
            None => r is None,
            Some(msg) => r matches Some(m) && m.role@ == (match member_text(msg, "role"@) {
                Some(t) => t,
                None => "assistant"@,
            }) && m.content@ == (match msg.spec_get("content"@) {
                Some(c) => c@,
                None => JsonData::Null,
            }) && m.tool_call_id is None && opt_text(m.name) == member_text(msg, "name"@),
        },
{
    let choices = match v.get("choices") {
        Some(c) => c,
        None => { return None; },
    };
    let first = match choices {
        JsonValue::Array(a) => {
            if a.len() == 0 {
                return None;
            }
            &a[0]
        },
        _ => { return None; },
    };
    let msg = match first.get("message") {
        Some(m) => m,
        None => { return None; },
    };
    let role = match msg.get("role") {
        Some(x) => match x.as_str() {
            Some(t) => t.to_string(),
            None => String::from_str("assistant"),
        },
        None => String::from_str("assistant"),
    };
    let content = match msg.get("content") {
        Some(c) => c.duplicate(),
        None => JsonValue::Null,
    };
    let name = match msg.get("name") {
        Some(x) => match x.as_str() {
            Some(t) => Some(t.to_string()),
            None => None,
        },
        None => None,
    };
    Some(ChatMessage { role, content, tool_call_id: None, name })
}

/// The name of a tool description: `function.name` when that is a string,
/// else `name`.
pub open spec fn tool_name(v: JsonValue) -> Option<Seq<char>> {
    let nested = match v.spec_get("function"@) {
        Some(f) => member_text(f, "name"@),
        None => None,
    };
    match nested {
        Some(t) => Some(t),
        None => member_text(v, "name"@),
    }
}

/// Tool names with the offset of the first tool that has each, in the
/// order of first appearance. `tools` holds each tool's offset and its
/// description as parsed (`None` where it did not parse); tools without a
/// name, or with an empty one, are passed over.
pub open spec fn tool_names(tools: Seq<(i32, Option<JsonValue>)>) -> Seq<(Seq<char>, i32)>
    decreases tools.len(),
{
    if tools.len() == 0 {
        Seq::empty()
    } else {
        let prev = tool_names(tools.drop_last());
        let last = tools.last();
        match last.1 {
            Some(doc) => match tool_name(doc) {
                Some(nm) => if nm.len() > 0 && !(exists|j: int| 0 <= j < prev.len() && (#[trigger] prev[j]).0 == nm) {
                    prev.push((nm, last.0))
                } else {
                    prev
                },
                None => prev,
            },
            None => prev,
        }
    }
}

/// The names and offsets of `out`, names taken by their text.
pub open spec fn name_pairs(out: Seq<(String, i32)>) -> Seq<(Seq<char>, i32)> {
    Seq::new(out.len(), |j: int| (out[j].0@, out[j].1))
}

fn tool_name_of(v: &JsonValue) -> (r: Option<&str>)
    ensures
        match tool_name(*v) {
            Some(t) => r matches Some(x) && x@ == t,
            None => r is None,
        },
{
    let nested = match v.get("function") {
        Some(f) => match f.get("name") {
            Some(n) => n.as_str(),
            None => None,
        },
        None => None,
    };
    match nested {
        Some(t) => Some(t),
        None => match v.get("name") {
            Some(n) => n.as_str(),
            None => None,
        },
    }
}

/// The map from tool name to the offset of the first tool with that name
/// (see [`tool_names`]), as name and offset pairs in order of first
/// appearance.
pub fn build_tool_name_to_offset(tools: &Vec<(i32, Option<JsonValue>)>) -> (r: Vec<(String, i32)>)
    ensures
        name_pairs(r@) == tool_names(tools@),
{
    let mut out: Vec<(String, i32)> = Vec::new();
    let mut i: usize = 0;
    while i < tools.len()
        invariant
            i <= tools@.len(),
            name_pairs(out@) == tool_names(tools@.take(i as int)),
        decreases tools.len() - i,
    {
        let ghost prev = name_pairs(out@);
        assert(tools@.take(i + 1).drop_last() =~= tools@.take(i as int));
        assert(tools@.take(i + 1).last() == tools@[i as int]);
        match &tools[i].1 {
            Some(doc) => match tool_name_of(doc) {
                Some(nm) => {
                    let n = nm.unicode_len();
                    if n > 0 {
                        let mut seen = false;
                        let mut k: usize = 0;
                        while k < out.len()
                            invariant
                                k <= out@.len(),
                                prev == name_pairs(out@),
                                seen == exists|j: int| 0 <= j < k && (#[trigger] prev[j]).0 == nm@,
                            decreases out.len() - k,
                        {
                            if str_eq(out[k].0.as_str(), nm) {
                                seen = true;
                            }
                            assert(prev[k as int].0 == out@[k as int].0@);
                            k = k + 1;
                        }
                        if !seen {
                            out.push((nm.to_string(), tools[i].0));
                            assert(name_pairs(out@) =~= prev.push((nm@, tools@[i as int].0)));
                        }
                    }
                },
                None => {},
            },
            None => {},
        }
        i = i + 1;
    }
    assert(tools@.take(tools@.len() as int) =~= tools@);
    out
}

/// What the chat engine gave back for a request.
#[derive(Debug)]
pub enum ChatInvokeOutcome {
    /// A completion document, from `backend`.
    Payload { value: JsonValue, backend: String },
    /// The backend answered with an error.
    BackendError { code: String, message: String },
    /// The engine could not be invoked; `message` says why.
    Failed { message: String },
}

impl DefaultHostApi {
    /// Starts sending session `fd`: allocates the response descriptor that
    /// will hold the reply, empty and not yet readable; `-EBADF` for a
    /// missing, closed or foreign descriptor.
    pub fn cchat_send_begin(&mut self, fd: i32) -> (r: Result<i32, i32>)
        ensures
            ({
                let m = old(self).fd_table.spec_entries();
                let m2 = final(self).fd_table.spec_entries();
                if !open_session(m, fd) {
                    (r matches Err(x) && x == -SPEAR_EBADF) && m2 == m && final(self).fd_table.spec_next_fd()
                        == old(self).fd_table.spec_next_fd()
                } else {
                    r matches Ok(rfd) && rfd == old(self).fd_table.spec_next_fd()
                        && final(self).fd_table.spec_next_fd() == old(self).fd_table.spec_next_fd().wrapping_add(1)
                        && m2 == m.insert(rfd, m2[rfd]) && m2[rfd].kind == FdKind::ChatResponse
                        && m2[rfd].flags.0 == 0 && m2[rfd].poll_mask.0 == 0 && m2[rfd].watchers@ == Set::<i32>::empty()
                        && !m2[rfd].closed && m2[rfd].inner is ChatResponse && response_st(m2[rfd]).bytes@.len() == 0
                        && response_st(m2[rfd]).metrics_bytes@.len() == 0
                }
            }),
    {
        let ghost m = self.fd_table.spec_entries();
        let e = match self.fd_table.take(fd) {
            None => {
                assert(self.fd_table.spec_entries() =~= m);
                return Err(-SPEAR_EBADF);
            },
            Some(e) => e,
        };
        let ok = !e.closed && matches!(e.inner, FdInner::ChatSession(_));
        self.fd_table.put(fd, e);
        assert(self.fd_table.spec_entries() =~= m);
        if !ok {
            return Err(-SPEAR_EBADF);
        }
        let resp = FdEntry {
            kind: FdKind::ChatResponse,
            flags: FdFlags::default(),
            poll_mask: PollEvents::EMPTY(),
            watchers: HashSet::new(),
            closed: false,
            inner: FdInner::ChatResponse(ChatResponseState::default()),
        };
        let rfd = self.fd_table.allocate(resp);
        assert(self.fd_table.spec_entries() =~= m.insert(rfd, self.fd_table.spec_entries()[rfd]));
        Ok(rfd)
    }

    /// A completion document with the serving backend and model attached
    /// under `_spear` (see [`debug_model`]): added to an object, or wrapped
    /// with the document under `result` otherwise.
    pub fn cchat_attach_debug_fields(&self, v: JsonValue, backend: &str, model: &str) -> (r: JsonValue)
        ensures
            match v {
                JsonValue::Object(m) => r matches JsonValue::Object(m2) && (spec_member(m2@, "_spear"@) matches Some(
                    x,
                ) && x@ == spear_fields(backend@, debug_model(v, model@))) && forall|k: Seq<char>|
                    k != "_spear"@ ==> #[trigger] spec_member(m2@, k) == spec_member(m@, k),
                _ => r@ == JsonData::Object(
                    seq![("_spear"@, spear_fields(backend@, debug_model(v, model@))), ("result"@, v@)],
                ),
            },
    {
        let resp_text: &str = match v.get("model") {
            Some(x) => match x.as_str() {
                Some(t) => t,
                None => "",
            },
            None => "",
        };
        let resp_model = trim_text(resp_text);
        let model_trim = trim_text(model);
        let used: &str = if model_trim.unicode_len() == 0 && resp_model.unicode_len() > 0 {
            resp_model
        } else {
            model
        };
        let mut f = JsonObjectBuilder::new();
        f.add("backend", json_str(backend));
        f.add("model", json_str(used));
        assert(f@ =~= seq![("backend"@, JsonData::Str(backend@)), ("model"@, JsonData::Str(debug_model(v, model@)))]);
        let fields = f.build();
        match v {
            JsonValue::Object(m) => {
                let mut members = m;
                members_upsert(&mut members, String::from_str("_spear"), fields);
                JsonValue::Object(members)
            },
            other => {
                let mut w = JsonObjectBuilder::new();
                w.add("_spear", fields);
                w.add("result", other);
                assert(w@ =~= seq![("_spear"@, spear_fields(backend@, debug_model(v, model@))), ("result"@, v@)]);
                w.build()
            },
        }
    }

    /// The reply document and the metrics document (`None`: no metrics) of
    /// a chat request, from what the engine gave back. A reply carries the
    /// completion with its debug fields, or an error; metrics are kept
    /// only where `metrics_enabled`, and count the `n_messages` messages
    /// sent (`{}` when the engine could not be invoked).
    pub fn cchat_reply_documents(
        &self,
        outcome: ChatInvokeOutcome,
        req_model: &str,
        metrics_enabled: bool,
        n_messages: u64,
    ) -> (r: (JsonValue, Option<JsonValue>))
        requires
            n_messages < u64::MAX,
        ensures
            match outcome {
                ChatInvokeOutcome::Failed { message } => r.0@ == JsonData::Object(
                    seq![("error"@, JsonData::Object(seq![("message"@, JsonData::Str(message@))]))],
                ) && (if metrics_enabled {
                    r.1 matches Some(x) && x@ == JsonData::Object(Seq::empty())
                } else {
                    r.1 is None
                }),
                ChatInvokeOutcome::BackendError { code, message } => r.0@ == JsonData::Object(
                    seq![
                        ("error"@, JsonData::Object(
                            seq![("code"@, JsonData::Str(code@)), ("message"@, JsonData::Str(message@))],
                        )),
                    ],
                ) && (if metrics_enabled {
                    r.1 matches Some(x) && x@ == usage_data(n_messages)
                } else {
                    r.1 is None
                }),
                ChatInvokeOutcome::Payload { value, backend } => (match value {
                    JsonValue::Object(m) => r.0 matches JsonValue::Object(m2) && (spec_member(m2@, "_spear"@) matches Some(
                        x,
                    ) && x@ == spear_fields(backend@, debug_model(value, req_model@))) && forall|k: Seq<char>|
                        k != "_spear"@ ==> #[trigger] spec_member(m2@, k) == spec_member(m@, k),
                    _ => r.0@ == JsonData::Object(
                        seq![
                            ("_spear"@, spear_fields(backend@, debug_model(value, req_model@))),
                            ("result"@, value@),
                        ],
                    ),
                }) && (if metrics_enabled {
                    r.1 matches Some(x) && x@ == usage_data(n_messages)
                } else {
                    r.1 is None
                }),
            },
    {
        match outcome {
            ChatInvokeOutcome::Failed { message } => {
                let ghost text = message@;
                let mut e = JsonObjectBuilder::new();
                e.add("message", JsonValue::Str(message));
                assert(e@ =~= seq![("message"@, JsonData::Str(text))]);
                let mut b = JsonObjectBuilder::new();
                b.add("error", e.build());
                assert(b@ =~= seq![("error"@, JsonData::Object(seq![("message"@, JsonData::Str(text))]))]);
                let body = b.build();
                let metrics = if metrics_enabled {
                    Some(JsonObjectBuilder::new().build())
                } else {
                    None
                };
                (body, metrics)
            },
            ChatInvokeOutcome::BackendError { code, message } => {
                let ghost inner = seq![("code"@, JsonData::Str(code@)), ("message"@, JsonData::Str(message@))];
                let mut e = JsonObjectBuilder::new();
                e.add("code", JsonValue::Str(code));
                e.add("message", JsonValue::Str(message));
                assert(e@ =~= inner);
                let mut b = JsonObjectBuilder::new();
                b.add("error", e.build());
                assert(b@ =~= seq![("error"@, JsonData::Object(inner))]);
                let body = b.build();
                let metrics = if metrics_enabled {
                    Some(usage_document(n_messages))
                } else {
                    None
                };
                (body, metrics)
            },
            ChatInvokeOutcome::Payload { value, backend } => {
                let body = self.cchat_attach_debug_fields(value, backend.as_str(), req_model);
                let metrics = if metrics_enabled {
                    Some(usage_document(n_messages))
                } else {
                    None
                };
                (body, metrics)
            },
        }
    }
}

/// The model of a completion document, trimmed (empty where it has none).
pub open spec fn response_model(v: JsonValue) -> Seq<char> {
    trimmed(
        match member_text(v, "model"@) {
            Some(t) => t,
            None => ""@,
        },
    )
}

/// The model reported in the debug fields: the requested `model`, unless
/// it is blank and the document names one.
pub open spec fn debug_model(v: JsonValue, model: Seq<char>) -> Seq<char> {
    if trimmed(model).len() == 0 && response_model(v).len() > 0 {
        response_model(v)
    } else {
        model
    }
}

/// The debug fields: backend and model.
pub open spec fn spear_fields(backend: Seq<char>, model: Seq<char>) -> JsonData {
    JsonData::Object(seq![("backend"@, JsonData::Str(backend)), ("model"@, JsonData::Str(model))])
}

/// The usage metrics of a request of `n` messages.
pub open spec fn usage_data(n: u64) -> JsonData {
    JsonData::Object(
        seq![
            ("completion_tokens"@, JsonData::Number(crate::json::JsonNum::PosInt(1))),
            ("prompt_tokens"@, JsonData::Number(crate::json::JsonNum::PosInt(n))),
            ("total_tokens"@, JsonData::Number(crate::json::JsonNum::PosInt((n + 1) as u64))),
        ],
    )
}

fn usage_document(n: u64) -> (r: JsonValue)
    requires
        n < u64::MAX,
    ensures
        r@ == usage_data(n),
{
    let mut u = JsonObjectBuilder::new();
    u.add("completion_tokens", json_u64(1));
    u.add("prompt_tokens", json_u64(n));
    u.add("total_tokens", json_u64(n + 1));
    assert(u@ =~= seq![
        ("completion_tokens"@, JsonData::Number(crate::json::JsonNum::PosInt(1))),
        ("prompt_tokens"@, JsonData::Number(crate::json::JsonNum::PosInt(n))),
        ("total_tokens"@, JsonData::Number(crate::json::JsonNum::PosInt((n + 1) as u64))),
    ]);
    u.build()
}

} // verus!
