use spear_exec::host::DefaultHostApi;
use spear_exec::json::{JsonNumber, JsonValue};
use spear_exec::mic::{MicCtlOutcome, MIC_CTL_GET_STATUS, MIC_CTL_SET_PARAM};
use spear_exec::runtime::{ExecutionMode, RuntimeExecutionError, RuntimeExecutionResponse};
use spear_exec::user_stream::{ws_pop_any_outbound, ws_push_frame, UserStreamHubs};
use spear_exec::wasm_logs::{
    clear_wasm_logs_by_execution, get_wasm_logs_by_execution, WasmLogRing, WasmLogStore, WASM_LOG_RING_CAPACITY,
};

fn seqs(v: &[spear_exec::wasm_logs::WasmLogEntry]) -> Vec<u64> {
    v.iter().map(|e| e.seq).collect()
}

#[test]
fn log_ring_keeps_newest_lines() {
    let mut ring = WasmLogRing::new(3);
    for i in 0..5u64 {
        let seq = ring.push(i, "info".to_string(), None, None, None, format!("line {}", i));
        assert_eq!(seq, i + 1);
    }
    assert_eq!(seqs(&ring.read(None, 10)), vec![3, 4, 5]);
    assert_eq!(seqs(&ring.read(Some(3), 10)), vec![4, 5]);
    assert_eq!(seqs(&ring.read(None, 1)), vec![3]);
    // A limit of 0 reads one line.
    assert_eq!(seqs(&ring.read(None, 0)), vec![3]);
    assert_eq!(ring.read(None, 10)[2].message, "line 4");
    assert_eq!(WasmLogRing::new(0).cap, 1);
}

#[test]
fn log_store_by_execution() {
    let mut store = WasmLogStore::new();
    assert_eq!(store.append("a", 1, "info".to_string(), None, None, "one".to_string()), 1);
    assert_eq!(store.append("a", 2, "warn".to_string(), None, None, "two".to_string()), 2);
    assert_eq!(store.append("b", 3, "info".to_string(), None, None, "other".to_string()), 1);
    let a = get_wasm_logs_by_execution(&mut store, "a", None, 10);
    assert_eq!(seqs(&a), vec![1, 2]);
    assert_eq!(a[1].level, "warn");
    assert_eq!(a[0].execution_id.as_deref(), Some("a"));
    clear_wasm_logs_by_execution(&mut store, "a");
    assert!(get_wasm_logs_by_execution(&mut store, "a", None, 10).is_empty());
    assert_eq!(seqs(&get_wasm_logs_by_execution(&mut store, "b", None, 10)), vec![1]);
    assert_eq!(store.append("a", 4, "info".to_string(), None, None, "again".to_string()), 1);
    assert_eq!(WASM_LOG_RING_CAPACITY, 2048);
}

#[test]
fn guest_lines_need_an_instance_and_an_execution() {
    let mut store = WasmLogStore::new();
    let api = DefaultHostApi::new();
    api.wasm_log_write(&mut store, "info", "dropped", 1, Some("e"));
    assert!(get_wasm_logs_by_execution(&mut store, "e", None, 10).is_empty());

    let mut api = DefaultHostApi::new().with_instance_id("i".to_string());
    api.wasm_log_write(&mut store, "info", "no execution", 2, None);
    api.wasm_log_write(&mut store, "info", "kept", 3, Some("e"));
    api.set_execution_id(Some("own".to_string()));
    api.wasm_log_write(&mut store, "error", "own execution", 4, Some("e"));
    let e = get_wasm_logs_by_execution(&mut store, "e", None, 10);
    assert_eq!(e.len(), 1);
    assert_eq!(e[0].message, "kept");
    assert_eq!(e[0].instance_id.as_deref(), Some("i"));
    let own = get_wasm_logs_by_execution(&mut store, "own", None, 10);
    assert_eq!(own.len(), 1);
    assert_eq!(own[0].level, "error");
}

#[test]
fn mic_queue_drops_oldest_beyond_limit() {
    let mut api = DefaultHostApi::new();
    let fd = api.mic_create();
    let cfg = JsonValue::Object(vec![("max_queue_bytes".to_string(), JsonValue::Number(JsonNumber::PosInt(4)))]);
    let plan = match api.mic_ctl(fd, MIC_CTL_SET_PARAM, Some(&cfg)) {
        Ok(MicCtlOutcome::Start(p)) => p,
        other => panic!("unexpected {:?}", other),
    };
    assert!(api.mic_push_frame(fd, plan.generation, vec![1, 1, 1]));
    assert!(api.mic_push_frame(fd, plan.generation, vec![2, 2, 2]));
    match api.mic_ctl(fd, MIC_CTL_GET_STATUS, None) {
        Ok(MicCtlOutcome::Reply(v)) => {
            assert_eq!(v.get("queue_bytes").and_then(|x| x.as_u64()), Some(3));
            assert_eq!(v.get("dropped_frames").and_then(|x| x.as_u64()), Some(1));
            assert_eq!(v.get("max_queue_bytes").and_then(|x| x.as_u64()), Some(4));
        },
        other => panic!("unexpected {:?}", other),
    }
    assert_eq!(api.mic_read(fd), Ok(vec![2, 2, 2]));
    // Frames of an older generation are refused.
    assert!(!api.mic_push_frame(fd, plan.generation + 1, vec![3]));
}

#[test]
fn response_predicates() {
    let ok = RuntimeExecutionResponse::new_sync("a".to_string(), vec![1], 5);
    assert!(ok.is_completed());
    assert!(ok.is_successful());
    assert!(!ok.has_failed());
    assert!(!ok.is_in_progress());
    let pending = RuntimeExecutionResponse::new_async("b".to_string(), None, "/s".to_string(), None);
    assert!(pending.is_in_progress());
    assert!(!pending.is_completed());
    let failed = RuntimeExecutionResponse::new_failed(
        "c".to_string(),
        ExecutionMode::Sync,
        RuntimeExecutionError::IoError { message: "x".to_string() },
        1,
    );
    assert!(failed.has_failed());
    assert!(failed.is_completed());
    assert!(!failed.is_successful());
}

#[test]
fn user_stream_frames_keep_their_order() {
    let mut host = DefaultHostApi::new();
    let mut hubs = UserStreamHubs::new();
    let fd = host.user_stream_open(&mut hubs, Some("x"), 3, 3);
    assert!(fd >= 0);
    assert_eq!(ws_push_frame(&mut hubs, &mut host.fd_table, "x", Ok((3, 2)), b"a".to_vec()), 0);
    assert_eq!(ws_push_frame(&mut hubs, &mut host.fd_table, "x", Ok((3, 2)), b"b".to_vec()), 0);
    assert_eq!(host.user_stream_read(&mut hubs, fd), Ok(b"a".to_vec()));
    assert_eq!(host.user_stream_read(&mut hubs, fd), Ok(b"b".to_vec()));
    assert_eq!(host.user_stream_write(&mut hubs, fd, b"1", Ok((3, 1))), 0);
    assert_eq!(host.user_stream_write(&mut hubs, fd, b"2", Ok((3, 1))), 0);
    assert_eq!(ws_pop_any_outbound(&mut hubs, &mut host.fd_table, "x"), Some(b"1".to_vec()));
    assert_eq!(ws_pop_any_outbound(&mut hubs, &mut host.fd_table, "x"), Some(b"2".to_vec()));
}
