use spear_exec::http_adapter::{decimal_string, HttpAdapter, HttpBody};
use spear_exec::runtime::{
    extract_error_message, ExecutionMode, ExecutionStatus, RuntimeExecutionError, RuntimeExecutionResponse,
};

fn header<'a>(headers: &'a [(String, String)], name: &str) -> Option<&'a String> {
    headers.iter().find(|(k, _)| k == name).map(|(_, v)| v)
}

#[test]
fn test_sync_response_conversion() {
    let runtime_response =
        RuntimeExecutionResponse::new_sync("test-exec-123".to_string(), b"Hello, World!".to_vec(), 150);

    let http_response = HttpAdapter::to_http_response(&runtime_response);

    assert_eq!(http_response.status_code, 200);
    match &http_response.body {
        HttpBody::Bytes(b) => assert_eq!(b.as_slice(), b"Hello, World!"),
        other => panic!("unexpected body {:?}", other),
    }
    assert_eq!(header(&http_response.headers, "X-Execution-Mode"), Some(&"sync".to_string()));
    assert_eq!(header(&http_response.headers, "X-Duration-Ms"), Some(&"150".to_string()));
}

#[test]
fn test_async_response_conversion() {
    let runtime_response = RuntimeExecutionResponse::new_async(
        "test-exec-456".to_string(),
        Some("task-789".to_string()),
        "http://localhost:8080/status/test-exec-456".to_string(),
        Some(5000),
    );

    let http_response = HttpAdapter::to_http_response(&runtime_response);

    assert_eq!(http_response.status_code, 202);
    assert_eq!(header(&http_response.headers, "X-Execution-Mode"), Some(&"async".to_string()));

    match &http_response.body {
        HttpBody::Status(status_response) => {
            assert_eq!(status_response.execution_id, "test-exec-456");
            assert_eq!(status_response.task_id, Some("task-789".to_string()));
            assert_eq!(status_response.status, "pending");
            assert_eq!(status_response.estimated_completion_ms, Some(5000));
            assert!(!status_response.is_completed);
            assert!(status_response.result.is_none());
        },
        other => panic!("unexpected body {:?}", other),
    }
}

#[test]
fn test_error_response_conversion() {
    let runtime_response = RuntimeExecutionResponse::new_failed(
        "test-exec-error".to_string(),
        ExecutionMode::Sync,
        RuntimeExecutionError::RuntimeError { message: "Something went wrong".to_string() },
        100,
    );

    let http_response = HttpAdapter::to_http_response(&runtime_response);

    assert_eq!(http_response.status_code, 500);

    match &http_response.body {
        HttpBody::Error(error_response) => {
            assert_eq!(error_response.error_code, "RUNTIME_ERROR");
            assert_eq!(error_response.error_message, "Something went wrong");
        },
        other => panic!("unexpected body {:?}", other),
    }
}

#[test]
fn unknown_mode_is_bad_request() {
    let mut r = RuntimeExecutionResponse::default();
    r.execution_id = "x".to_string();
    let h = HttpAdapter::to_http_response(&r);
    assert_eq!(h.status_code, 400);
    match &h.body {
        HttpBody::Error(e) => {
            assert_eq!(e.error_code, "UNKNOWN_EXECUTION_MODE");
            assert_eq!(e.execution_id, "x");
        },
        other => panic!("unexpected body {:?}", other),
    }
}

#[test]
fn completed_async_carries_result() {
    let mut r = RuntimeExecutionResponse::new_async("e".to_string(), None, "/s".to_string(), None);
    r.execution_status = ExecutionStatus::Completed;
    r.data = b"done".to_vec();
    let h = HttpAdapter::to_http_response(&r);
    assert_eq!(h.status_code, 200);
    match &h.body {
        HttpBody::Status(s) => {
            assert!(s.is_completed);
            assert_eq!(s.status, "completed");
            assert_eq!(s.result.as_deref(), Some(&b"done"[..]));
        },
        other => panic!("unexpected body {:?}", other),
    }
    r.execution_status = ExecutionStatus::Timeout;
    assert_eq!(HttpAdapter::to_http_response(&r).status_code, 500);
}

#[test]
fn stream_headers() {
    let mut r = RuntimeExecutionResponse::new_sync("s1".to_string(), b"data: x".to_vec(), 1);
    r.execution_mode = ExecutionMode::Stream;
    let h = HttpAdapter::to_http_response(&r);
    assert_eq!(h.status_code, 200);
    assert_eq!(header(&h.headers, "Content-Type"), Some(&"text/event-stream".to_string()));
    assert_eq!(header(&h.headers, "Cache-Control"), Some(&"no-cache".to_string()));
}

#[test]
fn error_codes_and_messages() {
    let (c, m) = HttpAdapter::error_to_code_and_message(&RuntimeExecutionError::ExecutionTimeout { timeout_ms: 250 });
    assert_eq!(c, "EXECUTION_TIMEOUT");
    assert_eq!(m, "Execution timeout: 250ms");
    let (c, m) = HttpAdapter::error_to_code_and_message(&RuntimeExecutionError::UnsupportedOperation {
        operation: "scale".to_string(),
        runtime_type: "wasm".to_string(),
    });
    assert_eq!(c, "UNSUPPORTED_OPERATION");
    assert_eq!(m, "Operation 'scale' not supported by runtime 'wasm'");
    let e = HttpAdapter::create_error_response("id".to_string(), "C".to_string(), "M".to_string(), 418);
    assert_eq!(e.status_code, 418);
    assert_eq!(header(&e.headers, "X-Execution-ID"), Some(&"id".to_string()));
}

#[test]
fn execution_record_messages() {
    assert_eq!(
        extract_error_message(&RuntimeExecutionError::InstanceNotFound { instance_id: "i-1".to_string() }),
        "Instance not found: i-1"
    );
    assert_eq!(
        extract_error_message(&RuntimeExecutionError::ExecutionTimeout { timeout_ms: 30000 }),
        "Execution timeout after 30000 ms"
    );
    assert_eq!(
        extract_error_message(&RuntimeExecutionError::ResourceLimitExceeded {
            resource: "memory".to_string(),
            limit: "1GiB".to_string(),
        }),
        "Resource limit exceeded: memory (limit: 1GiB)"
    );
    assert_eq!(
        extract_error_message(&RuntimeExecutionError::UnsupportedOperation {
            operation: "scale".to_string(),
            runtime_type: "process".to_string(),
        }),
        "Unsupported operation: scale for runtime: process"
    );
    assert_eq!(extract_error_message(&RuntimeExecutionError::IoError { message: "disk".to_string() }), "disk");
}

#[test]
fn decimal_text() {
    assert_eq!(decimal_string(0), "0");
    assert_eq!(decimal_string(7), "7");
    assert_eq!(decimal_string(1234567890), "1234567890");
    assert_eq!(decimal_string(u64::MAX), u64::MAX.to_string());
}
