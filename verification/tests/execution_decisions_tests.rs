use spear_exec::termination::{TerminationScope, TerminationSnapshot};
use spear_exec::wasm_exec::{check_instance_module, check_worker_module, classify_run_failure, starts_with_wasm_magic};
use spear_exec::tool_loop::{tool_loop_after_reply, tool_loop_gate, ToolLoopState, ToolReplyAction};
use spear_exec::execution_error::{execution_failure_status, ExecutionError};
use spear_exec::json::{JsonNumber, JsonValue};
use spear_exec::runtime::{ExecutionMode, ExecutionStatus};
use spear_exec::runtime_config::WasmInstanceState;
use spear_exec::tool_loop::{
    admit_tool_call, mcp_tool_failed_document, parse_tool_calls, plan_tool_round, tool_result_message, ToolCall, round_limit_reached, route_tool_call,
    tool_exec_failed_document, tool_limit_document, tool_loop_limits, unknown_tool_document, ToolRoute,
};
use spear_exec::wasm_exec::{
    begin_run_without_waiting, choose_entry_function, dispatches_without_waiting, run_dispatched_response,
    DEFAULT_ENTRY_FUNCTION_NAME,
};

fn s(t: &str) -> JsonValue {
    JsonValue::Str(t.to_string())
}

fn obj(members: Vec<(&str, JsonValue)>) -> JsonValue {
    JsonValue::Object(members.into_iter().map(|(k, v)| (k.to_string(), v)).collect())
}

fn u(n: u64) -> JsonValue {
    JsonValue::Number(JsonNumber::PosInt(n))
}

fn error_doc(code: &str, message: &str) -> JsonValue {
    obj(vec![("error", obj(vec![("code", s(code)), ("message", s(message))]))])
}

fn same(a: &JsonValue, b: &JsonValue) -> bool {
    format!("{:?}", a) == format!("{:?}", b)
}

#[test]
fn failure_status_by_error_kind() {
    assert_eq!(execution_failure_status(&ExecutionError::ExecutionTimeout { timeout_ms: 5 }), "timeout");
    assert_eq!(
        execution_failure_status(&ExecutionError::ExecutionTerminated { message: "x".to_string() }),
        "terminated"
    );
    assert_eq!(
        execution_failure_status(&ExecutionError::InstanceDestroyed { message: "x".to_string() }),
        "terminated"
    );
    assert_eq!(execution_failure_status(&ExecutionError::ConcurrentModification), "failed");
}

#[test]
fn default_entry_prefers_start_then_main() {
    let both = vec!["main".to_string(), "_start".to_string()];
    let main_only = vec!["main".to_string()];
    assert_eq!(choose_entry_function("", &both), "_start");
    assert_eq!(choose_entry_function(DEFAULT_ENTRY_FUNCTION_NAME, &both), "_start");
    assert_eq!(choose_entry_function("", &main_only), "main");
    assert_eq!(choose_entry_function("handler", &both), "handler");
}

#[test]
fn runs_without_waiting_are_refused_while_busy() {
    assert!(dispatches_without_waiting(false, ExecutionMode::Sync));
    assert!(dispatches_without_waiting(true, ExecutionMode::Async));
    assert!(!dispatches_without_waiting(true, ExecutionMode::Sync));

    let mut st = WasmInstanceState {
        initialized: true,
        memory_usage: 0,
        fuel_remaining: 0,
        last_execution_time_ms: None,
        is_running: false,
        current_function: None,
    };
    let f = "main".to_string();
    assert!(begin_run_without_waiting(&mut st, &f, 42).is_ok());
    assert!(st.is_running);
    assert_eq!(st.last_execution_time_ms, Some(42));
    assert_eq!(st.current_function.as_deref(), Some("main"));
    match begin_run_without_waiting(&mut st, &f, 50) {
        Err(ExecutionError::InvalidRequest { message }) => {
            assert_eq!(message, "another execution already in progress")
        }
        other => panic!("unexpected {:?}", other),
    }
    assert_eq!(st.last_execution_time_ms, Some(42));

    let r = run_dispatched_response("e1".to_string(), "t1".to_string(), 7);
    assert_eq!(r.execution_mode, ExecutionMode::Async);
    assert_eq!(r.execution_status, ExecutionStatus::Running);
    assert_eq!(r.task_id.as_deref(), Some("t1"));
    assert_eq!(r.duration_ms, 7);
    assert!(r.data.is_empty());
}

#[test]
fn tool_loop_limits_defaults_caps_and_fallback() {
    assert_eq!(tool_loop_limits(&vec![]), (8, 32));
    let p = vec![("max_iterations".to_string(), u(500)), ("max_tool_calls".to_string(), u(20))];
    assert_eq!(tool_loop_limits(&p), (128, 20));
    let p = vec![
        ("max_total_tool_calls".to_string(), u(99999)),
        ("max_tool_calls".to_string(), u(3)),
    ];
    assert_eq!(tool_loop_limits(&p), (8, 10000));
    let p = vec![("max_total_tool_calls".to_string(), s("many")), ("max_tool_calls".to_string(), u(3))];
    assert_eq!(tool_loop_limits(&p), (8, 32));
}

#[test]
fn round_limits_stop_the_loop() {
    assert_eq!(round_limit_reached(8, 0, 8, 32).as_deref(), Some("exceeded max_iterations"));
    assert_eq!(round_limit_reached(1, 33, 8, 32).as_deref(), Some("exceeded max_total_tool_calls"));
    assert_eq!(round_limit_reached(1, 32, 8, 32), None);
}

#[test]
fn tool_calls_are_parsed_from_the_first_choice() {
    let call = obj(vec![
        ("id", s("c1")),
        ("type", s("function")),
        ("function", obj(vec![("name", s("lookup")), ("arguments", s("{\"q\":1}"))])),
    ]);
    let resp = obj(vec![(
        "choices",
        JsonValue::Array(vec![obj(vec![(
            "message",
            obj(vec![("role", s("assistant")), ("tool_calls", JsonValue::Array(vec![call]))]),
        )])]),
    )]);
    let calls = parse_tool_calls(&resp).unwrap();
    assert_eq!(calls.len(), 1);
    assert_eq!(calls[0].id, "c1");
    assert_eq!(calls[0].name, "lookup");
    assert_eq!(calls[0].arguments, "{\"q\":1}");

    let empty = obj(vec![(
        "choices",
        JsonValue::Array(vec![obj(vec![("message", obj(vec![("tool_calls", JsonValue::Array(vec![]))]))])]),
    )]);
    assert!(parse_tool_calls(&empty).is_none());
    let bad = obj(vec![(
        "choices",
        JsonValue::Array(vec![obj(vec![(
            "message",
            obj(vec![("tool_calls", JsonValue::Array(vec![obj(vec![("id", s("c1"))])]))]),
        )])]),
    )]);
    assert!(parse_tool_calls(&bad).is_none());
}

#[test]
fn tool_calls_are_routed_and_counted() {
    let index = vec![("lookup".to_string(), 4), ("save".to_string(), 9)];
    assert_eq!(route_tool_call("save", &index), ToolRoute::Guest(9));
    assert_eq!(route_tool_call("mcp.fs.read", &index), ToolRoute::Mcp);
    assert_eq!(route_tool_call("mcp__fs__read", &index), ToolRoute::Mcp);
    assert_eq!(route_tool_call("other", &index), ToolRoute::Unknown);
    assert_eq!(admit_tool_call(3, 4, "lookup", &index), Some((4, ToolRoute::Guest(4))));
    assert_eq!(admit_tool_call(4, 4, "lookup", &index), None);
}

#[test]
fn tool_error_documents() {
    assert!(same(&tool_limit_document("exceeded max_iterations"), &error_doc("tool_call_limit", "exceeded max_iterations")));
    assert!(same(&unknown_tool_document("x"), &error_doc("unknown_tool", "unknown tool: x")));
    assert!(same(&tool_exec_failed_document(-5), &error_doc("tool_exec_failed", "tool rc: -5")));
    assert!(same(&tool_exec_failed_document(12), &error_doc("tool_exec_failed", "tool rc: 12")));
    assert!(same(&mcp_tool_failed_document("down"), &error_doc("mcp_tool_failed", "down")));
}

fn call(name: &str) -> ToolCall {
    ToolCall { id: format!("id-{}", name), name: name.to_string(), arguments: "{}".to_string() }
}

#[test]
fn a_round_runs_the_calls_that_are_left() {
    let index = vec![("lookup".to_string(), 4)];
    let calls = vec![call("lookup"), call("mcp.x"), call("nope")];
    let (routes, total, stop) = plan_tool_round(0, 32, &calls, &index);
    assert_eq!(routes, vec![ToolRoute::Guest(4), ToolRoute::Mcp, ToolRoute::Unknown]);
    assert_eq!(total, 3);
    assert!(!stop);
    let (routes, total, stop) = plan_tool_round(30, 32, &calls, &index);
    assert_eq!(routes, vec![ToolRoute::Guest(4), ToolRoute::Mcp]);
    assert_eq!(total, 32);
    assert!(stop);
    let (routes, total, stop) = plan_tool_round(32, 32, &calls, &index);
    assert!(routes.is_empty());
    assert_eq!(total, 32);
    assert!(stop);
}

#[test]
fn tool_results_are_tool_messages() {
    let m = tool_result_message("c7", "done".to_string());
    assert_eq!(m.role, "tool");
    assert_eq!(m.tool_call_id.as_deref(), Some("c7"));
    assert!(m.name.is_none());
    assert!(same(&m.content, &s("done")));
}

#[test]
fn modules_need_the_magic_number_and_failures_are_classified() {
    assert!(starts_with_wasm_magic(&[0, 0x61, 0x73, 0x6d, 1]));
    assert!(!starts_with_wasm_magic(&[0, 0x61, 0x73]));
    assert!(check_instance_module(&[0, 0x61, 0x73, 0x6d]).is_ok());
    match check_instance_module(b"nope") {
        Err(ExecutionError::InvalidConfiguration { message }) => {
            assert_eq!(message, "Invalid WASM module: missing magic header")
        }
        other => panic!("unexpected {:?}", other),
    }
    match check_worker_module(b"nope") {
        Err(ExecutionError::InvalidConfiguration { message }) => assert_eq!(message, "Invalid WASM module format"),
        other => panic!("unexpected {:?}", other),
    }
    let snap = |scope, m: Option<&str>| TerminationSnapshot { scope, errno: -1, message: m.map(|s| s.to_string()) };
    match classify_run_failure(
        Some(snap(TerminationScope::Instance, None)),
        Some(snap(TerminationScope::Execution, Some("stop"))),
        "trap",
    ) {
        ExecutionError::InstanceDestroyed { message } => assert_eq!(message, "instance destroyed"),
        other => panic!("unexpected {:?}", other),
    }
    match classify_run_failure(None, Some(snap(TerminationScope::Execution, Some("stop"))), "trap") {
        ExecutionError::ExecutionTerminated { message } => assert_eq!(message, "stop"),
        other => panic!("unexpected {:?}", other),
    }
    match classify_run_failure(None, None, "trap") {
        ExecutionError::RuntimeError { message } => assert_eq!(message, "wasmedge exec error: trap"),
        other => panic!("unexpected {:?}", other),
    }
}

#[test]
fn tool_loop_rounds() {
    let st = ToolLoopState { iter: 0, total_tool_calls: 0 };
    assert!(tool_loop_gate(&st, 8, 32).is_none());
    let limit = tool_loop_gate(&ToolLoopState { iter: 8, total_tool_calls: 0 }, 8, 32).unwrap();
    assert!(same(&limit, &error_doc("tool_call_limit", "exceeded max_iterations")));

    let tool_call = |id: &str, name: &str| {
        obj(vec![("id", s(id)), ("function", obj(vec![("name", s(name)), ("arguments", s("{}"))]))])
    };
    let reply = |calls: Vec<JsonValue>| {
        obj(vec![(
            "choices",
            JsonValue::Array(vec![obj(vec![("message", obj(vec![("tool_calls", JsonValue::Array(calls))]))])]),
        )])
    };
    let index = vec![("a".to_string(), 1)];

    let plain = obj(vec![("choices", JsonValue::Array(vec![obj(vec![("message", obj(vec![("content", s("hi"))]))])]))]);
    let (st2, act) = tool_loop_after_reply(&st, 32, &plain, &index);
    assert_eq!(st2, st);
    assert!(matches!(act, ToolReplyAction::Finish));

    let (st2, act) = tool_loop_after_reply(&st, 32, &reply(vec![tool_call("c1", "a"), tool_call("c2", "zz")]), &index);
    assert_eq!(st2, ToolLoopState { iter: 1, total_tool_calls: 2 });
    match act {
        ToolReplyAction::Run { calls, routes, stop } => {
            assert_eq!(calls.len(), 2);
            assert_eq!(routes, vec![ToolRoute::Guest(1), ToolRoute::Unknown]);
            assert!(stop.is_none());
        }
        other => panic!("unexpected {:?}", other),
    }

    let (st3, act) = tool_loop_after_reply(&st2, 3, &reply(vec![tool_call("c3", "a"), tool_call("c4", "a")]), &index);
    assert_eq!(st3, ToolLoopState { iter: 1, total_tool_calls: 3 });
    match act {
        ToolReplyAction::Run { routes, stop, .. } => {
            assert_eq!(routes, vec![ToolRoute::Guest(1)]);
            assert!(same(&stop.unwrap(), &error_doc("tool_call_limit", "exceeded max_total_tool_calls")));
        }
        other => panic!("unexpected {:?}", other),
    }
}
