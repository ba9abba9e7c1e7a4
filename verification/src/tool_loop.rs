//! The decisions of a chat send that calls tools on its own: the limits a
//! session sets on rounds and tool calls, the tool calls a model reply asks
//! for, where each call goes (a guest function, an MCP server, or nowhere),
//! and the error documents a stopped loop or a failed call answers with.
//! The engine call and the tool executions themselves are made by the
//! caller, round by round.
use vstd::prelude::*;
use crate::json::{JsonValue, JsonData, JsonObjectBuilder, members_get, str_eq};
use crate::cchat::{first_choice_message, member_text, name_pairs};
use crate::http_adapter::{decimal, decimal_string};
use crate::types::ChatMessage;
use crate::termination::opt_text;

verus! {

/// Session parameter: most model rounds.
pub const MAX_ITERATIONS_KEY: &'static str = "max_iterations";

/// Session parameter: most tool calls over all rounds.
pub const MAX_TOTAL_TOOL_CALLS_KEY: &'static str = "max_total_tool_calls";

/// Session parameter read where the total limit is not set.
pub const MAX_TOOL_CALLS_KEY: &'static str = "max_tool_calls";

/// Tool-name prefix of tools served by MCP servers.
pub const MCP_PREFIX_DOT: &'static str = "mcp.";

/// The other tool-name prefix of tools served by MCP servers.
pub const MCP_PREFIX_DBL_UNDERSCORE: &'static str = "mcp__";

/// `v` as a non-negative integer, if it is one.
pub open spec fn opt_u64(v: Option<JsonValue>) -> Option<u64> {
    match v {
        Some(x) => x.spec_as_u64(),
        None => None,
    }
}

/// The smaller of `v` (or `default` when absent) and `cap`.
pub open spec fn capped(v: Option<u64>, default: u64, cap: u64) -> u32 {
    let x = match v {
        Some(n) => n,
        None => default,
    };
    (if x < cap { x } else { cap }) as u32
}

/// The limits a session's parameters set: most rounds (by default 8, at
/// most 128) and most tool calls in all (by default 32, at most 10000; the
/// total limit is read first and the per-call limit only where the total
/// one is absent).
pub open spec fn loop_limits(params: Seq<(String, JsonValue)>) -> (u32, u32) {
    let total = match crate::json::spec_member(params, MAX_TOTAL_TOOL_CALLS_KEY@) {
        Some(v) => Some(v),
        None => crate::json::spec_member(params, MAX_TOOL_CALLS_KEY@),
    };
    (
        capped(opt_u64(crate::json::spec_member(params, MAX_ITERATIONS_KEY@)), 8, 128),
        capped(opt_u64(total), 32, 10000),
    )
}

fn capped_u32(v: Option<u64>, default: u64, cap: u64) -> (r: u32)
    requires
        cap <= u32::MAX,
    ensures
        r == capped(v, default, cap),
{
    let x = match v {
        Some(n) => n,
        None => default,
    };
    if x < cap {
        x as u32
    } else {
        cap as u32
    }
}

/// The round and tool-call limits of a session (see [`loop_limits`]).
pub fn tool_loop_limits(params: &Vec<(String, JsonValue)>) -> (r: (u32, u32))
    ensures
        r == loop_limits(params@),
{
    let it = match members_get(params, MAX_ITERATIONS_KEY) {
        Some(v) => v.as_u64(),
        None => None,
    };
    let total = match members_get(params, MAX_TOTAL_TOOL_CALLS_KEY) {
        Some(v) => v.as_u64(),
        None => match members_get(params, MAX_TOOL_CALLS_KEY) {
            Some(v) => v.as_u64(),
            None => None,
        },
    };
    (capped_u32(it, 8, 128), capped_u32(total, 32, 10000))
}

/// Why a loop stops before the next model round: the rounds are used up,
/// or more tool calls were made than allowed.
pub open spec fn round_limit_text(iter: u32, total: u32, max_iter: u32, max_total: u32) -> Option<Seq<char>> {
    if iter >= max_iter {
        Some("exceeded max_iterations"@)
    } else if total > max_total {
        Some("exceeded max_total_tool_calls"@)
    } else {
        None
    }
}

/// The reason the loop stops before round `iter`, if it does (see
/// [`round_limit_text`]).
pub fn round_limit_reached(iter: u32, total: u32, max_iter: u32, max_total: u32) -> (r: Option<String>)
    ensures
        match r {
            Some(t) => round_limit_text(iter, total, max_iter, max_total) == Some(t@),
            None => round_limit_text(iter, total, max_iter, max_total) is None,
        },
{
    if iter >= max_iter {
        Some(String::from_str("exceeded max_iterations"))
    } else if total > max_total {
        Some(String::from_str("exceeded max_total_tool_calls"))
    } else {
        None
    }
}

/// One tool call a model reply asks for.
#[derive(Debug)]
pub struct ToolCall {
    pub id: String,
    pub name: String,
    pub arguments: String,
}

/// The content of a [`ToolCall`].
pub struct ToolCallView {
    pub id: Seq<char>,
    pub name: Seq<char>,
    pub arguments: Seq<char>,
}

impl ToolCall {
    pub open spec fn view(&self) -> ToolCallView {
        ToolCallView { id: self.id@, name: self.name@, arguments: self.arguments@ }
    }
}

/// The tool call an item of `tool_calls` describes: its `id` and its
/// function's `name` and `arguments`, all strings.
pub open spec fn tool_call_of(v: JsonValue) -> Option<ToolCallView> {
    match (member_text(v, "id"@), v.spec_get("function"@)) {
        (Some(id), Some(f)) => match (member_text(f, "name"@), member_text(f, "arguments"@)) {
            (Some(name), Some(arguments)) => Some(ToolCallView { id, name, arguments }),
            _ => None,
        },
        _ => None,
    }
}

/// The tool calls of a list of items, when every item describes one.
pub open spec fn tool_calls_of(items: Seq<JsonValue>) -> Option<Seq<ToolCallView>>
    decreases items.len(),
{
    if items.len() == 0 {
        Some(Seq::empty())
    } else {
        match (tool_calls_of(items.drop_last()), tool_call_of(items.last())) {
            (Some(cs), Some(c)) => Some(cs.push(c)),
            _ => None,
        }
    }
}

/// The tool calls a chat completion document asks for: the
/// `tool_calls` of the first choice's message, when that is a non-empty
/// list of which every item describes a call.
pub open spec fn requested_tool_calls(resp: JsonValue) -> Option<Seq<ToolCallView>> {
    match first_choice_message(resp) {
        Some(msg) => match msg.spec_get("tool_calls"@) {
            Some(JsonValue::Array(a)) => match tool_calls_of(a@) {
                Some(cs) => if cs.len() > 0 {
                    Some(cs)
                } else {
                    None
                },
                None => None,
            },
            _ => None,
        },
        None => None,
    }
}

/// The text of string member `key` of `v`, if it is one.
fn member_str<'a>(v: &'a JsonValue, key: &str) -> (r: Option<&'a str>)
    ensures
        match r {
            Some(t) => member_text(*v, key@) == Some(t@),
            None => member_text(*v, key@) is None,
        },
{
    match v.get(key) {
        Some(x) => x.as_str(),
        None => None,
    }
}

fn tool_call_from(v: &JsonValue) -> (r: Option<ToolCall>)
    ensures
        match r {
            Some(c) => tool_call_of(*v) == Some(c@),
            None => tool_call_of(*v) is None,
        },
{
    let id = match member_str(v, "id") {
        Some(t) => t,
        None => { return None; },
    };
    let f = match v.get("function") {
        Some(f) => f,
        None => { return None; },
    };
    let name = match member_str(f, "name") {
        Some(t) => t,
        None => { return None; },
    };
    let arguments = match member_str(f, "arguments") {
        Some(t) => t,
        None => { return None; },
    };
    Some(ToolCall { id: id.to_string(), name: name.to_string(), arguments: arguments.to_string() })
}

/// The views of a list of tool calls.
pub open spec fn call_views(s: Seq<ToolCall>) -> Seq<ToolCallView> {
    s.map_values(|c: ToolCall| c@)
}

/// The tool calls chat completion document `resp` asks for (see
/// [`requested_tool_calls`]).
pub fn parse_tool_calls(resp: &JsonValue) -> (r: Option<Vec<ToolCall>>)
    ensures
        match r {
            Some(cs) => requested_tool_calls(*resp) == Some(call_views(cs@)),
            None => requested_tool_calls(*resp) is None,
        },
{
    let choices = match resp.get("choices") {
        Some(c) => c,
        None => { return None; },
    };
    let first = match choices {
        JsonValue::Array(a) => {
            if a.len() == 0 {
                return None;
            }
            &a[0]
        },
        _ => { return None; },
    };
    let msg = match first.get("message") {
        Some(m) => m,
        None => { return None; },
    };
    let items = match msg.get("tool_calls") {
        Some(JsonValue::Array(items)) => items,
        _ => { return None; },
    };
    let ghost whole = match tool_calls_of(items@) {
        Some(cs) => if cs.len() > 0 {
            Some(cs)
        } else {
            None
        },
        None => None,
    };
    assert(requested_tool_calls(*resp) == whole);
    let mut out: Vec<ToolCall> = Vec::new();
    let mut i: usize = 0;
    while i < items.len()
        invariant
            0 <= i <= items@.len(),
            requested_tool_calls(*resp) == whole,
            whole == match tool_calls_of(items@) {
                Some(cs) => if cs.len() > 0 {
                    Some(cs)
                } else {
                    None
                },
                None => None,
            },
            tool_calls_of(items@.take(i as int)) == Some(call_views(out@)),
        decreases items@.len() - i,
    {
        assert(items@.take(i + 1).drop_last() =~= items@.take(i as int));
        assert(items@.take(i + 1).last() == items@[i as int]);
        match tool_call_from(&items[i]) {
            Some(c) => {
                out.push(c);
                assert(call_views(out@) =~= call_views(out@.drop_last()).push(out@.last()@));
            },
            None => {
                proof {
                    assert(tool_calls_of(items@.take(i + 1)) is None);
                    lemma_tool_calls_prefix_fails(items@, i as int + 1);
                }
                return None;
            },
        }
        i = i + 1;
    }
    assert(items@.take(i as int) =~= items@);
    if out.len() == 0 {
        return None;
    }
    Some(out)
}

/// Once a prefix of the items holds an item that describes no call, the
/// whole list describes none.
proof fn lemma_tool_calls_prefix_fails(items: Seq<JsonValue>, k: int)
    requires
        0 <= k <= items.len(),
        tool_calls_of(items.take(k)) is None,
    ensures
        tool_calls_of(items) is None,
    decreases items.len() - k,
{
    if k < items.len() {
        assert(items.take(k + 1).drop_last() =~= items.take(k));
        lemma_tool_calls_prefix_fails(items, k + 1);
    } else {
        assert(items.take(k) =~= items);
    }
}

/// Where a tool call goes.
#[derive(Debug, Clone, Copy, PartialEq, Eq, Structural)]
pub enum ToolRoute {
    /// The guest function at this table offset.
    Guest(i32),
    /// The MCP server that serves the namespaced tool.
    Mcp,
    /// No tool of that name.
    Unknown,
}

/// The offset of the first tool of the index named `name`.
pub open spec fn lookup_offset(pairs: Seq<(Seq<char>, i32)>, name: Seq<char>) -> Option<i32>
    decreases pairs.len(),
{
    if pairs.len() == 0 {
        None
    } else if pairs[0].0 == name {
        Some(pairs[0].1)
    } else {
        lookup_offset(pairs.drop_first(), name)
    }
}

/// Where a call of tool `name` goes, given the name index of the session's
/// tools: to the guest tool of that name, else to an MCP server where the
/// name carries an MCP prefix, else nowhere.
pub open spec fn route_of(name: Seq<char>, pairs: Seq<(Seq<char>, i32)>) -> ToolRoute {
    match lookup_offset(pairs, name) {
        Some(off) => ToolRoute::Guest(off),
        None => if MCP_PREFIX_DOT@.is_prefix_of(name) || MCP_PREFIX_DBL_UNDERSCORE@.is_prefix_of(name) {
            ToolRoute::Mcp
        } else {
            ToolRoute::Unknown
        },
    }
}

fn starts_with(s: &str, p: &str) -> (r: bool)
    ensures
        r == p@.is_prefix_of(s@),
{
    let n = p.unicode_len();
    if s.unicode_len() < n {
        return false;
    }
    let head = s.substring_char(0, n);
    let r = str_eq(head, p);
    assert(r == (s@.subrange(0, n as int) == p@));
    r
}

/// Where a call of tool `name` goes (see [`route_of`]); `index` is the name
/// index of the session's tools.
pub fn route_tool_call(name: &str, index: &Vec<(String, i32)>) -> (r: ToolRoute)
    ensures
        r == route_of(name@, name_pairs(index@)),
{
    let ghost pairs = name_pairs(index@);
    assert(pairs.skip(0) =~= pairs);
    let mut i: usize = 0;
    while i < index.len()
        invariant
            0 <= i <= index@.len(),
            pairs == name_pairs(index@),
            lookup_offset(pairs, name@) == lookup_offset(pairs.skip(i as int), name@),
        decreases index@.len() - i,
    {
        assert(pairs.skip(i as int)[0] == pairs[i as int]);
        assert(pairs.skip(i as int).drop_first() =~= pairs.skip(i + 1));
        if str_eq(index[i].0.as_str(), name) {
            return ToolRoute::Guest(index[i].1);
        }
        i = i + 1;
    }
    assert(pairs.skip(i as int).len() == 0);
    if starts_with(name, MCP_PREFIX_DOT) || starts_with(name, MCP_PREFIX_DBL_UNDERSCORE) {
        ToolRoute::Mcp
    } else {
        ToolRoute::Unknown
    }
}

/// The next tool call of a round, when `total` calls were made so far: no
/// call once `max_total` are used up; else the call of `name` is counted
/// and routed (see [`route_of`]).
pub fn admit_tool_call(total: u32, max_total: u32, name: &str, index: &Vec<(String, i32)>) -> (r: Option<(u32, ToolRoute)>)
    ensures
        total >= max_total ==> r is None,
        total < max_total ==> r == Some(((total + 1) as u32, route_of(name@, name_pairs(index@)))),
{
    if total >= max_total {
        return None;
    }
    Some((total + 1, route_tool_call(name, index)))
}

/// The document `{"error": {"code": code, "message": message}}`.
pub open spec fn error_document(code: Seq<char>, message: Seq<char>) -> JsonData {
    JsonData::Object(
        seq![("error"@, JsonData::Object(seq![("code"@, JsonData::Str(code)), ("message"@, JsonData::Str(message))]))],
    )
}

/// The error document with `code` and `message` (see [`error_document`]).
pub fn tool_error_document(code: &str, message: &str) -> (r: JsonValue)
    ensures
        r@ == error_document(code@, message@),
{
    let c = JsonValue::Str(code.to_string());
    let m = JsonValue::Str(message.to_string());
    assert(c@ == JsonData::Str(code@));
    assert(m@ == JsonData::Str(message@));
    let mut inner = JsonObjectBuilder::new();
    inner.add("code", c);
    inner.add("message", m);
    proof {
        reveal_strlit("code");
        reveal_strlit("message");
        reveal_strlit("error");
    }
    assert(inner@ =~= seq![("code"@, JsonData::Str(code@)), ("message"@, JsonData::Str(message@))]);
    let inner = inner.build();
    let mut outer = JsonObjectBuilder::new();
    outer.add("error", inner);
    assert(outer@ =~= seq![
        ("error"@, JsonData::Object(seq![("code"@, JsonData::Str(code@)), ("message"@, JsonData::Str(message@))])),
    ]);
    outer.build()
}

/// The answer of a loop stopped by a limit: a `tool_call_limit` error with
/// the reason.
pub fn tool_limit_document(reason: &str) -> (r: JsonValue)
    ensures
        r@ == error_document("tool_call_limit"@, reason@),
{
    tool_error_document("tool_call_limit", reason)
}

/// The result recorded for a call of a tool that does not exist.
pub fn unknown_tool_document(name: &str) -> (r: JsonValue)
    ensures
        r@ == error_document("unknown_tool"@, "unknown tool: "@ + name@),
{
    let m = String::from_str("unknown tool: ").concat(name);
    tool_error_document("unknown_tool", m.as_str())
}

/// The decimal text of a signed number.
pub open spec fn signed_decimal(n: int) -> Seq<char> {
    if n < 0 {
        "-"@ + decimal((-n) as nat)
    } else {
        decimal(n as nat)
    }
}

/// The result recorded for a guest tool that failed with code `rc`.
pub fn tool_exec_failed_document(rc: i32) -> (r: JsonValue)
    ensures
        r@ == error_document("tool_exec_failed"@, "tool rc: "@ + signed_decimal(rc as int)),
{
    let digits = if rc < 0 {
        let m: i64 = -(rc as i64);
        String::from_str("-").concat(decimal_string(m as u64).as_str())
    } else {
        decimal_string(rc as u64)
    };
    let m = String::from_str("tool rc: ").concat(digits.as_str());
    tool_error_document("tool_exec_failed", m.as_str())
}

/// The result recorded for an MCP tool that failed with `message`.
pub fn mcp_tool_failed_document(message: &str) -> (r: JsonValue)
    ensures
        r@ == error_document("mcp_tool_failed"@, message@),
{
    tool_error_document("mcp_tool_failed", message)
}

/// How many of `n` requested calls a round runs when `total` calls were
/// made so far and at most `max_total` may be: as many as are left.
pub open spec fn admitted_count(total: u32, max_total: u32, n: nat) -> nat {
    if total >= max_total {
        0
    } else if n <= (max_total - total) as nat {
        n
    } else {
        (max_total - total) as nat
    }
}

/// The plan of a round whose reply asks for `calls`: where each call that
/// runs goes (the first [`admitted_count`] of them, in order), the count of
/// calls made after the round, and whether the round stops the loop because
/// the calls ran out before the requests did.
pub open spec fn round_plan(
    total: u32,
    max_total: u32,
    calls: Seq<ToolCallView>,
    pairs: Seq<(Seq<char>, i32)>,
) -> (Seq<ToolRoute>, int, bool) {
    let k = admitted_count(total, max_total, calls.len());
    (Seq::new(k, |i: int| route_of(calls[i].name, pairs)), total + k, k < calls.len())
}

/// Plans a round whose reply asks for `calls` (see [`round_plan`]); `index`
/// is the name index of the session's tools.
pub fn plan_tool_round(total: u32, max_total: u32, calls: &Vec<ToolCall>, index: &Vec<(String, i32)>) -> (r: (
    Vec<ToolRoute>,
    u32,
    bool,
))
    ensures
        ({
            let (routes, t, stop) = round_plan(total, max_total, call_views(calls@), name_pairs(index@));
            r.0@ == routes && r.1 as int == t && r.2 == stop
        }),
{
    let ghost k = admitted_count(total, max_total, calls@.len());
    let ghost views = call_views(calls@);
    let mut routes: Vec<ToolRoute> = Vec::new();
    let mut t: u32 = total;
    let mut i: usize = 0;
    while i < calls.len()
        invariant
            0 <= i <= calls@.len(),
            views == call_views(calls@),
            k == admitted_count(total, max_total, calls@.len()),
            i <= k,
            t as int == total + i,
            routes@ == Seq::new(i as nat, |j: int| route_of(views[j].name, name_pairs(index@))),
        decreases calls@.len() - i,
    {
        match admit_tool_call(t, max_total, calls[i].name.as_str(), index) {
            None => {
                assert(k == i);
                assert(routes@ =~= Seq::new(k, |j: int| route_of(views[j].name, name_pairs(index@))));
                return (routes, t, true);
            },
            Some((t2, route)) => {
                assert(views[i as int] == calls@[i as int]@);
                routes.push(route);
                t = t2;
                i = i + 1;
                assert(routes@ =~= Seq::new(i as nat, |j: int| route_of(views[j].name, name_pairs(index@))));
            },
        }
    }
    assert(k == calls@.len());
    (routes, t, false)
}

/// The message that records what tool call `call_id` gave: role `tool`,
/// the output text as content.
pub fn tool_result_message(call_id: &str, output: String) -> (m: ChatMessage)
    ensures
        m.role@ == "tool"@,
        m.content@ == JsonData::Str(output@),
        opt_text(m.tool_call_id) == Some(call_id@),
        m.name is None,
{
    ChatMessage {
        role: String::from_str("tool"),
        content: JsonValue::Str(output),
        tool_call_id: Some(call_id.to_string()),
        name: None,
    }
}

/// Where a tool-calling chat send stands: the rounds done and the tool
/// calls made.
#[derive(Debug, Clone, Copy, PartialEq, Eq, Structural)]
pub struct ToolLoopState {
    pub iter: u32,
    pub total_tool_calls: u32,
}

/// What a round does before asking the model: answer with the limit error
/// document where a limit is reached (see [`round_limit_text`]), else go on
/// (`None`).
pub fn tool_loop_gate(st: &ToolLoopState, max_iter: u32, max_total: u32) -> (r: Option<JsonValue>)
    ensures
        match round_limit_text(st.iter, st.total_tool_calls, max_iter, max_total) {
            Some(t) => r matches Some(d) && d@ == error_document("tool_call_limit"@, t),
            None => r is None,
        },
{
    match round_limit_reached(st.iter, st.total_tool_calls, max_iter, max_total) {
        Some(t) => Some(tool_limit_document(t.as_str())),
        None => None,
    }
}

/// What follows a model reply in a tool-calling chat send.
#[derive(Debug)]
pub enum ToolReplyAction {
    /// The reply asks for no tool: it is the answer.
    Finish,
    /// Run `calls[..routes.len()]` in order, each where its route says, and
    /// record their results; then answer with `stop` where it is given (the
    /// calls ran out), else ask the model again.
    Run { calls: Vec<ToolCall>, routes: Vec<ToolRoute>, stop: Option<JsonValue> },
}

/// The step after model reply `resp` in state `st`, with at most `max_total`
/// tool calls and the session's tool name `index`: without requested tool
/// calls (see [`requested_tool_calls`]) the reply is the answer and the state
/// stays; otherwise the round runs the calls it has room for (see
/// [`round_plan`]), counts them, and either stops with the
/// `exceeded max_total_tool_calls` error or counts one more round.
pub fn tool_loop_after_reply(st: &ToolLoopState, max_total: u32, resp: &JsonValue, index: &Vec<(String, i32)>) -> (r: (
    ToolLoopState,
    ToolReplyAction,
))
    requires
        st.iter < u32::MAX,
    ensures
        match requested_tool_calls(*resp) {
            None => r.0 == *st && r.1 is Finish,
            Some(cs) => {
                let (routes, t, stop) = round_plan(st.total_tool_calls, max_total, cs, name_pairs(index@));
                &&& r.1 matches ToolReplyAction::Run { calls, routes: rs, stop: sd } && call_views(calls@) == cs
                    && rs@ == routes && (stop <==> sd is Some) && (sd matches Some(d) ==> d@ == error_document(
                    "tool_call_limit"@,
                    "exceeded max_total_tool_calls"@,
                ))
                &&& r.0.total_tool_calls as int == t
                &&& r.0.iter == (if stop { st.iter } else { (st.iter + 1) as u32 })
            },
        },
{
    match parse_tool_calls(resp) {
        None => (*st, ToolReplyAction::Finish),
        Some(calls) => {
            let (routes, total, stop) = plan_tool_round(st.total_tool_calls, max_total, &calls, index);
            if stop {
                let d = tool_limit_document("exceeded max_total_tool_calls");
                (ToolLoopState { iter: st.iter, total_tool_calls: total }, ToolReplyAction::Run { calls, routes, stop: Some(d) })
            } else {
                (ToolLoopState { iter: st.iter + 1, total_tool_calls: total }, ToolReplyAction::Run { calls, routes, stop: None })
            }
        },
    }
}

} // verus!
