use spear_exec::cchat::{
    build_tool_name_to_offset, extract_openai_assistant_message, redact_value_by_key, should_redact_header_name,
    should_redact_key, ChatInvokeOutcome,
};
use spear_exec::errno::{EINVAL, SPEAR_EBADF};
use spear_exec::host::DefaultHostApi;
use spear_exec::json::{JsonNumber, JsonValue};
use spear_exec::registry::{
    build_credential_index, build_registry_plan, parse_hosting, parse_operation, resolve_backend_api_key_env,
    resolve_hosting, BackendAdapterPlan, Hosting, LlmBackendConfig, LlmCredentialConfig, Operation,
};
use spear_exec::segmentation::{apply_turn_detection_to_client_events, parse_segmentation_config, segmentation_config_to_json};
use spear_exec::template::{expand_json_templates, expand_template};
use spear_exec::termination::{TerminationScope, TerminationSnapshot};
use spear_exec::wasm_host::choose_func_table_name;
use spear_exec::types::RtAsrSegmentationStrategy;

fn s(t: &str) -> JsonValue {
    JsonValue::Str(t.to_string())
}

fn n(v: u64) -> JsonValue {
    JsonValue::Number(JsonNumber::PosInt(v))
}

fn obj(members: Vec<(&str, JsonValue)>) -> JsonValue {
    JsonValue::Object(members.into_iter().map(|(k, v)| (k.to_string(), v)).collect())
}

fn pairs(v: &[(&str, &str)]) -> Vec<(String, String)> {
    v.iter().map(|(a, b)| (a.to_string(), b.to_string())).collect()
}

fn cred(name: &str, kind: &str, env: &str) -> LlmCredentialConfig {
    LlmCredentialConfig { name: name.to_string(), kind: kind.to_string(), api_key_env: env.to_string() }
}

#[test]
fn hosting_names_ignore_case_and_blanks() {
    assert_eq!(parse_hosting(" Local "), Hosting::Local);
    assert_eq!(parse_hosting("REMOTE"), Hosting::Remote);
    assert_eq!(parse_hosting("cloud"), Hosting::Unknown);
    assert_eq!(resolve_hosting(None), Hosting::Unknown);
    assert_eq!(resolve_hosting(Some("   ")), Hosting::Unknown);
    assert_eq!(resolve_hosting(Some(" remote")), Hosting::Remote);
}

#[test]
fn operation_names() {
    assert_eq!(parse_operation("chat_completions"), Some(Operation::ChatCompletions));
    assert_eq!(parse_operation("speech_to_text"), Some(Operation::SpeechToText));
    assert_eq!(parse_operation("realtime_voice"), Some(Operation::RealtimeVoice));
    assert_eq!(parse_operation("Chat_Completions"), None);
}

#[test]
fn credential_index_keeps_first_usable() {
    let creds = vec![
        cred("a", "env", "A1"),
        cred("", "env", "X"),
        cred("b", "file", "B"),
        cred("c", "env", "  "),
        cred("a", "env", "A2"),
        cred("d", "env", "D"),
    ];
    let idx = build_credential_index(&creds);
    let names: Vec<&str> = idx.iter().map(|c| c.name.as_str()).collect();
    assert_eq!(names, vec!["a", "d"]);
    assert_eq!(idx[0].api_key_env, "A1");

    assert_eq!(resolve_backend_api_key_env(Some("a"), &idx), Ok("A1".to_string()));
    assert_eq!(resolve_backend_api_key_env(None, &idx), Err("missing credential_ref".to_string()));
    assert_eq!(resolve_backend_api_key_env(Some("  "), &idx), Err("credential_ref is empty".to_string()));
    assert_eq!(resolve_backend_api_key_env(Some("zz"), &idx), Err("credential_ref not found: zz".to_string()));
}

#[test]
fn segmentation_parse_and_render() {
    let cfg = obj(vec![
        ("strategy", s("server_vad")),
        ("vad", obj(vec![("silence_ms", n(300)), ("prefix_padding_ms", n(100))])),
        ("flush_on_close", JsonValue::Bool(true)),
    ]);
    let c = parse_segmentation_config(&cfg).unwrap();
    assert_eq!(c.strategy, RtAsrSegmentationStrategy::ServerVad);
    assert!(c.flush_on_close);
    let vad = c.vad.as_ref().unwrap();
    assert_eq!(vad.silence_ms, 300);
    assert_eq!(vad.prefix_padding_ms, Some(100));
    let back = segmentation_config_to_json(&c);
    assert_eq!(back.get("strategy").and_then(|x| x.as_str()), Some("server_vad"));
    assert_eq!(back.get("vad").and_then(|v| v.get("silence_ms")).and_then(|x| x.as_u64()), Some(300));
    assert_eq!(back.get("flush_on_close").and_then(|x| x.as_bool()), Some(true));

    assert_eq!(parse_segmentation_config(&s("x")).unwrap_err(), -EINVAL);
    assert_eq!(parse_segmentation_config(&obj(vec![("strategy", s("sometimes"))])).unwrap_err(), -EINVAL);
    assert_eq!(
        parse_segmentation_config(&obj(vec![("strategy", s("manual")), ("vad", n(1))])).unwrap_err(),
        -EINVAL
    );
    let manual = parse_segmentation_config(&obj(vec![("strategy", s("manual"))])).unwrap();
    assert_eq!(manual.strategy, RtAsrSegmentationStrategy::Manual);
    assert!(!manual.flush_on_close);
}

#[test]
fn templates_expand_vars_and_env() {
    let vars = pairs(&[("model", "gpt-4o"), ("empty", "")]);
    let env = pairs(&[("KEY", "secret")]);
    let process_env = pairs(&[("KEY", "other"), ("HOME", "/root")]);
    assert_eq!(expand_template("m=${model}", &vars, &env, &process_env), "m=gpt-4o");
    assert_eq!(expand_template("Bearer ${env:KEY}", &vars, &env, &process_env), "Bearer secret");
    assert_eq!(expand_template("${env:HOME}/x", &vars, &env, &process_env), "/root/x");
    assert_eq!(expand_template("[${missing}][${env:NOPE}]", &vars, &env, &process_env), "[][]");
    assert_eq!(expand_template("a${unclosed", &vars, &env, &process_env), "a${unclosed");
    assert_eq!(expand_template("$x ${empty}$", &vars, &env, &process_env), "$x $");
    assert_eq!(expand_template("", &vars, &env, &process_env), "");
}

#[test]
fn json_templates_expand_strings_only() {
    let vars = pairs(&[("v", "1")]);
    let doc = obj(vec![
        ("${v}", s("x${v}")),
        ("list", JsonValue::Array(vec![s("${v}"), n(7), JsonValue::Null])),
    ]);
    let out = expand_json_templates(doc, &vars, &Vec::new(), &Vec::new());
    match &out {
        JsonValue::Object(m) => {
            assert_eq!(m[0].0, "${v}");
            assert_eq!(m[0].1.as_str(), Some("x1"));
            match &m[1].1 {
                JsonValue::Array(a) => {
                    assert_eq!(a[0].as_str(), Some("1"));
                    assert_eq!(a[1].as_u64(), Some(7));
                    assert!(matches!(a[2], JsonValue::Null));
                },
                other => panic!("unexpected {:?}", other),
            }
        },
        other => panic!("unexpected {:?}", other),
    }
}

#[test]
fn redaction_rules() {
    assert!(should_redact_key("OPENAI_API_KEY"));
    assert!(should_redact_key("Authorization"));
    assert!(should_redact_key("auth"));
    assert!(should_redact_key("session_token"));
    assert!(should_redact_key("Cookie"));
    assert!(!should_redact_key("model"));
    assert!(!should_redact_key("author"));
    assert!(should_redact_header_name("X-API-KEY"));
    assert!(should_redact_header_name("x-session-token"));
    assert!(!should_redact_header_name("content-type"));

    let mut v = s("sk-123");
    redact_value_by_key("api_key", &mut v);
    assert_eq!(v.as_str(), Some("***"));

    let mut h = obj(vec![("Authorization", s("Bearer x")), ("Accept", s("json"))]);
    redact_value_by_key("Headers", &mut h);
    assert_eq!(h.get("Authorization").and_then(|x| x.as_str()), Some("***"));
    assert_eq!(h.get("Accept").and_then(|x| x.as_str()), Some("json"));

    let mut other = s("keep");
    redact_value_by_key("temperature", &mut other);
    assert_eq!(other.as_str(), Some("keep"));
}

#[test]
fn tool_names_first_offset_wins() {
    let tools = vec![
        (1, Some(obj(vec![("function", obj(vec![("name", s("search"))]))]))),
        (2, Some(obj(vec![("name", s("calc"))]))),
        (3, Some(obj(vec![("function", obj(vec![("name", s("search"))]))]))),
        (4, None),
        (5, Some(obj(vec![("name", s(""))]))),
        (6, Some(obj(vec![("function", obj(vec![("name", n(1))])), ("name", s("fallback"))]))),
    ];
    let m = build_tool_name_to_offset(&tools);
    assert_eq!(m, vec![("search".to_string(), 1), ("calc".to_string(), 2), ("fallback".to_string(), 6)]);
}

#[test]
fn assistant_message_of_completion() {
    let doc = obj(vec![(
        "choices",
        JsonValue::Array(vec![obj(vec![("message", obj(vec![("content", s("hi")), ("name", s("bot"))]))])]),
    )]);
    let m = extract_openai_assistant_message(&doc).unwrap();
    assert_eq!(m.role, "assistant");
    assert_eq!(m.content.as_str(), Some("hi"));
    assert_eq!(m.name.as_deref(), Some("bot"));
    assert!(m.tool_call_id.is_none());

    let empty = obj(vec![("choices", JsonValue::Array(vec![]))]);
    assert!(extract_openai_assistant_message(&empty).is_none());
    assert!(extract_openai_assistant_message(&s("x")).is_none());
    let no_content = obj(vec![("choices", JsonValue::Array(vec![obj(vec![("message", obj(vec![("role", s("tool"))]))])]))]);
    let m2 = extract_openai_assistant_message(&no_content).unwrap();
    assert_eq!(m2.role, "tool");
    assert!(matches!(m2.content, JsonValue::Null));
}

#[test]
fn chat_session_and_response_flow() {
    let mut api = DefaultHostApi::new();
    let fd = api.cchat_create();
    assert_eq!(api.cchat_write_msg(fd, "user".to_string(), "hello".to_string()), 0);
    assert_eq!(api.cchat_write_fn(fd, 12, "{\"name\":\"f\"}".to_string()), 0);
    assert_eq!(api.cchat_write_msg(4242, "user".to_string(), "x".to_string()), -SPEAR_EBADF);
    assert_eq!(api.cchat_send_begin(4242), Err(-SPEAR_EBADF));

    let resp = api.cchat_send_begin(fd).unwrap();
    assert_eq!(resp, fd + 1);
    // A response descriptor is not a session.
    assert_eq!(api.cchat_write_msg(resp, "user".to_string(), "x".to_string()), -SPEAR_EBADF);
    assert_eq!(api.cchat_recv(resp), Ok(Vec::new()));
    assert_eq!(api.cchat_ctl_get_metrics(resp), Ok(b"{}".to_vec()));
    api.cchat_put_response(resp, b"body".to_vec(), b"{\"m\":1}".to_vec()).unwrap();
    assert_eq!(api.cchat_recv(resp), Ok(b"body".to_vec()));
    assert_eq!(api.cchat_ctl_get_metrics(resp), Ok(b"{\"m\":1}".to_vec()));
    assert_eq!(api.cchat_recv(fd), Err(-SPEAR_EBADF));
    assert_eq!(api.cchat_put_response(fd, Vec::new(), Vec::new()), Err(-SPEAR_EBADF));
    assert_eq!(api.cchat_close(resp), 0);
}

#[test]
fn chat_reply_documents() {
    let api = DefaultHostApi::new();
    let (body, metrics) = api.cchat_reply_documents(
        ChatInvokeOutcome::Payload { value: obj(vec![("model", s(" m-1 "))]), backend: "stub".to_string() },
        "",
        true,
        2,
    );
    let spear = body.get("_spear").unwrap();
    assert_eq!(spear.get("backend").and_then(|x| x.as_str()), Some("stub"));
    assert_eq!(spear.get("model").and_then(|x| x.as_str()), Some("m-1"));
    let m = metrics.unwrap();
    assert_eq!(m.get("prompt_tokens").and_then(|x| x.as_u64()), Some(2));
    assert_eq!(m.get("completion_tokens").and_then(|x| x.as_u64()), Some(1));
    assert_eq!(m.get("total_tokens").and_then(|x| x.as_u64()), Some(3));

    let (wrapped, none) = api.cchat_reply_documents(
        ChatInvokeOutcome::Payload { value: s("plain"), backend: "b".to_string() },
        "req-model",
        false,
        0,
    );
    assert!(none.is_none());
    assert_eq!(wrapped.get("result").and_then(|x| x.as_str()), Some("plain"));
    assert_eq!(wrapped.get("_spear").and_then(|x| x.get("model")).and_then(|x| x.as_str()), Some("req-model"));

    let (err, em) = api.cchat_reply_documents(ChatInvokeOutcome::Failed { message: "down".to_string() }, "", true, 5);
    assert_eq!(err.get("error").and_then(|e| e.get("message")).and_then(|x| x.as_str()), Some("down"));
    assert!(matches!(em, Some(JsonValue::Object(ref v)) if v.is_empty()));

    let (be, _) = api.cchat_reply_documents(
        ChatInvokeOutcome::BackendError { code: "rate_limited".to_string(), message: "slow down".to_string() },
        "",
        false,
        1,
    );
    assert_eq!(be.get("error").and_then(|e| e.get("code")).and_then(|x| x.as_str()), Some("rate_limited"));
}

fn backend(name: &str, kind: &str, cred: Option<&str>, ops: &[&str], transports: &[&str]) -> LlmBackendConfig {
    LlmBackendConfig {
        name: name.to_string(),
        kind: kind.to_string(),
        base_url: "https://api.openai.com/v1".to_string(),
        credential_ref: cred.map(|c| c.to_string()),
        hosting: None,
        model: None,
        weight: 100,
        priority: 0,
        ops: ops.iter().map(|s| s.to_string()).collect(),
        features: vec![],
        transports: transports.iter().map(|s| s.to_string()).collect(),
    }
}

#[test]
fn test_registry_credential_ref_missing_env_filters_backend() {
    let creds = vec![cred("openai_chat", "env", "OPENAI_CHAT_API_KEY")];
    let backends = vec![backend("openai-chat", "openai_chat_completion", Some("openai_chat"), &["chat_completions"], &["http"])];
    // The key's variable is not set: the backend does not register, and the
    // registry is left with its stand-in only.
    let plan = build_registry_plan(&backends, &creds, &Vec::new());
    assert!(plan.is_empty());
}

#[test]
fn test_registry_credential_ref_with_env_registers_backend() {
    let creds = vec![cred("openai_chat", "env", "OPENAI_CHAT_API_KEY")];
    let backends = vec![backend("openai-chat", "openai_chat_completion", Some("openai_chat"), &["chat_completions"], &["http"])];
    let env = pairs(&[("OPENAI_CHAT_API_KEY", "dummy")]);
    let plan = build_registry_plan(&backends, &creds, &env);
    assert_eq!(plan.len(), 1);
    assert_eq!(plan[0].name, "openai-chat");
    assert_eq!(plan[0].ops, vec![Operation::ChatCompletions]);
    assert!(matches!(
        &plan[0].adapter,
        BackendAdapterPlan::OpenAIChatCompletion { api_key: Some(k) } if k == "dummy"
    ));
}

#[test]
fn test_registry_openai_chat_completion_kind_alias_registers_backend() {
    let creds = vec![cred("openai_chat", "env", "OPENAI_CHAT_API_KEY")];
    let backends = vec![backend("openai-chat", "openai_chat_completion", Some("openai_chat"), &["chat_completions"], &["http"])];
    let env = pairs(&[("OPENAI_CHAT_API_KEY", "dummy")]);
    let plan = build_registry_plan(&backends, &creds, &env);
    assert_eq!(plan.len(), 1);
    assert_eq!(plan[0].name, "openai-chat");
    assert_eq!(plan[0].kind, "openai_chat_completion");
}

#[test]
fn test_realtime_ws_plan_uses_resolved_env_template() {
    let creds = vec![cred("openai_realtime", "env", "OPENAI_REALTIME_API_KEY")];
    let backends = vec![backend("rt-ws", "openai_realtime_ws", Some("openai_realtime"), &["speech_to_text"], &["websocket"])];
    let env = pairs(&[("OPENAI_REALTIME_API_KEY", "dummy")]);
    let plan = build_registry_plan(&backends, &creds, &env);
    assert_eq!(plan.len(), 1);
    let var = match &plan[0].adapter {
        BackendAdapterPlan::OpenAIRealtimeWs { api_key_env: Some(v) } => v.clone(),
        other => panic!("unexpected {:?}", other),
    };
    assert_eq!(var, "OPENAI_REALTIME_API_KEY");
    let auth = format!("Bearer ${{env:{}}}", var);
    assert_eq!(auth, "Bearer ${env:OPENAI_REALTIME_API_KEY}");
    assert_eq!(expand_template(&auth, &Vec::new(), &env, &Vec::new()), "Bearer dummy");
}

#[test]
fn registry_plan_skips_unknown_and_duplicates() {
    let mut b1 = backend("local", "stub", None, &["chat_completions", "bogus"], &[]);
    b1.hosting = Some(" LOCAL ".to_string());
    let b2 = backend("local", "ollama_chat", None, &["chat_completions"], &[]);
    let b3 = backend("x", "mystery", None, &["chat_completions"], &[]);
    let b4 = backend("y", "ollama_chat", None, &["bogus"], &[]);
    let b5 = backend("z", "openai_chat_completion", None, &["embeddings"], &[]);
    let b6 = backend("w", "openai_chat_completion", Some("nope"), &["embeddings"], &[]);
    let plan = build_registry_plan(&vec![b1, b2, b3, b4, b5, b6], &Vec::new(), &Vec::new());
    let names: Vec<&str> = plan.iter().map(|p| p.name.as_str()).collect();
    assert_eq!(names, vec!["local", "z"]);
    assert_eq!(plan[0].hosting, Hosting::Local);
    assert_eq!(plan[0].ops, vec![Operation::ChatCompletions]);
    assert!(matches!(plan[0].adapter, BackendAdapterPlan::Stub));
    assert!(matches!(plan[1].adapter, BackendAdapterPlan::OpenAIChatCompletion { api_key: None }));
}

#[test]
fn turn_detection_is_set_on_session_updates() {
    let cfg = parse_segmentation_config(&obj(vec![
        ("strategy", s("server_vad")),
        ("vad", obj(vec![("silence_ms", n(700))])),
    ]))
    .unwrap();
    let mut events = vec![
        obj(vec![("type", s("session.update")), ("session", obj(vec![("model", s("m"))]))]),
        obj(vec![
            ("type", s("session.update")),
            ("session", obj(vec![("audio", obj(vec![("input", obj(vec![("format", s("pcm16"))]))]))])),
        ]),
        obj(vec![("type", s("input_audio_buffer.commit"))]),
        s("not an object"),
    ];
    apply_turn_detection_to_client_events(&mut events, &cfg);
    assert_eq!(events.len(), 4);

    let td = events[0].get("session").and_then(|x| x.get("turn_detection")).unwrap();
    assert_eq!(td.get("type").and_then(|x| x.as_str()), Some("server_vad"));
    assert_eq!(td.get("silence_duration_ms").and_then(|x| x.as_u64()), Some(700));
    assert_eq!(td.get("prefix_padding_ms").and_then(|x| x.as_u64()), Some(300));
    match td.get("threshold") {
        Some(JsonValue::Number(JsonNumber::Float(t))) => assert_eq!(t, "0.5"),
        other => panic!("unexpected threshold {:?}", other),
    }
    assert_eq!(events[0].get("session").and_then(|x| x.get("model")).and_then(|x| x.as_str()), Some("m"));

    let input = events[1].get("session").and_then(|x| x.get("audio")).and_then(|x| x.get("input")).unwrap();
    assert!(input.get("turn_detection").is_some());
    assert_eq!(input.get("format").and_then(|x| x.as_str()), Some("pcm16"));
    assert!(events[1].get("session").and_then(|x| x.get("turn_detection")).is_none());

    assert!(events[2].get("session").is_none());
    assert_eq!(events[3].as_str(), Some("not an object"));

    let manual = parse_segmentation_config(&obj(vec![("strategy", s("manual"))])).unwrap();
    let mut ev = vec![obj(vec![("type", s("session.update")), ("session", obj(vec![]))])];
    apply_turn_detection_to_client_events(&mut ev, &manual);
    assert!(matches!(ev[0].get("session").and_then(|x| x.get("turn_detection")), Some(JsonValue::Null)));
}

#[test]
fn termination_guard_logs_and_fails() {
    let api = DefaultHostApi::new().with_instance_id("inst".to_string());
    let mut store = spear_exec::wasm_logs::WasmLogStore::new();
    assert_eq!(api.guard_termination(&mut store, None, 1, Some("e1")), Ok(()));
    let pending = TerminationSnapshot { scope: TerminationScope::Execution, errno: -125, message: Some("bye".to_string()) };
    assert_eq!(api.guard_termination(&mut store, Some(pending), 2, Some("e1")), Err("Terminate execution: bye".to_string()));
    let lines = spear_exec::wasm_logs::get_wasm_logs_by_execution(&mut store, "e1", None, 10);
    assert_eq!(lines.len(), 1);
    assert_eq!(lines[0].level, "warn");
    assert_eq!(lines[0].message, "Terminate execution: bye");
    let inst = TerminationSnapshot { scope: TerminationScope::Instance, errno: -125, message: None };
    assert_eq!(api.guard_termination(&mut store, Some(inst), 3, None), Err("Destroy instance".to_string()));
}

#[test]
fn function_table_choice() {
    let names = |v: &[&str]| v.iter().map(|s| s.to_string()).collect::<Vec<String>>();
    assert_eq!(choose_func_table_name(None), None);
    assert_eq!(choose_func_table_name(Some(&names(&[]))), None);
    assert_eq!(choose_func_table_name(Some(&names(&["t0", "table", "__indirect_function_table"]))).as_deref(), Some("__indirect_function_table"));
    assert_eq!(choose_func_table_name(Some(&names(&["t0", "table"]))).as_deref(), Some("table"));
    assert_eq!(choose_func_table_name(Some(&names(&["t0", "t1"]))).as_deref(), Some("t0"));
}

#[test]
fn integer_vad_threshold_is_kept_as_a_float() {
    let cfg = parse_segmentation_config(&obj(vec![
        ("strategy", s("server_vad")),
        ("vad", obj(vec![("threshold", n(1))])),
    ]))
    .unwrap();
    let doc = segmentation_config_to_json(&cfg);
    match doc.get("vad").and_then(|v| v.get("threshold")) {
        Some(JsonValue::Number(JsonNumber::Float(t))) => assert_eq!(t, "1.0"),
        other => panic!("unexpected threshold {:?}", other),
    }
}

#[test]
fn hosting_is_trimmed_of_unicode_white_space() {
    assert_eq!(parse_hosting("\u{3000}\tlocal\u{a0}\n"), Hosting::Local);
    assert_eq!(parse_hosting("\u{2003}remote\u{2029}"), Hosting::Remote);
}
