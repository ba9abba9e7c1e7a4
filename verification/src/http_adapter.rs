//! Turning runtime execution results into HTTP responses: status codes,
//! headers, and the error and status documents of the body.
use vstd::prelude::*;
use crate::json::JsonValue;
use crate::termination::{opt_text, clone_opt_string};
use crate::runtime::{
    ExecutionMode, ExecutionStatus, RuntimeExecutionError, RuntimeExecutionResponse, status_failed, status_terminal,
};

verus! {

/// The decimal digit of `d` (below ten).
pub open spec fn digit_char(d: nat) -> char {
    if d == 0 { '0' } else if d == 1 { '1' } else if d == 2 { '2' } else if d == 3 { '3' } else if d == 4 { '4' }
    else if d == 5 { '5' } else if d == 6 { '6' } else if d == 7 { '7' } else if d == 8 { '8' } else { '9' }
}

/// The decimal text of `n`, without leading zeros.
pub open spec fn decimal(n: nat) -> Seq<char>
    decreases n,
{
    if n < 10 {
        seq![digit_char(n)]
    } else {
        decimal(n / 10).push(digit_char(n % 10))
    }
}

fn digit_str(d: u64) -> (r: &'static str)
    requires
        d < 10,
    ensures
        r@ == seq![digit_char(d as nat)],
{
    proof {
        reveal_strlit("0");
        reveal_strlit("1");
        reveal_strlit("2");
        reveal_strlit("3");
        reveal_strlit("4");
        reveal_strlit("5");
        reveal_strlit("6");
        reveal_strlit("7");
        reveal_strlit("8");
        reveal_strlit("9");
    }
    if d == 0 { "0" } else if d == 1 { "1" } else if d == 2 { "2" } else if d == 3 { "3" } else if d == 4 { "4" }
    else if d == 5 { "5" } else if d == 6 { "6" } else if d == 7 { "7" } else if d == 8 { "8" } else { "9" }
}

/// The decimal text of `n`, as `Display` writes it.
pub fn decimal_string(n: u64) -> (r: String)
    ensures
        r@ == decimal(n as nat),
    decreases n,
{
    if n < 10 {
        String::from_str(digit_str(n))
    } else {
        let head = decimal_string(n / 10);
        let r = head.concat(digit_str(n % 10));
        assert(r@ =~= decimal(n as nat));
        r
    }
}

/// An error document of a response body.
#[derive(Debug)]
pub struct HttpErrorResponse {
    pub error_code: String,
    pub error_message: String,
    pub execution_id: String,
    pub details: Vec<(String, JsonValue)>,
}

/// The status document of an asynchronous execution.
#[derive(Debug)]
pub struct AsyncStatusResponse {
    pub execution_id: String,
    pub task_id: Option<String>,
    pub status: String,
    pub status_endpoint: String,
    pub estimated_completion_ms: Option<u64>,
    pub is_completed: bool,
    pub result: Option<Vec<u8>>,
    pub error: Option<HttpErrorResponse>,
}

/// The body of a response: bytes as they are, or a document that is
/// written out as JSON.
#[derive(Debug)]
pub enum HttpBody {
    Bytes(Vec<u8>),
    Error(HttpErrorResponse),
    Status(AsyncStatusResponse),
}

/// An HTTP response: status, headers (each name once, in the order set),
/// body and debugging metadata.
#[derive(Debug)]
pub struct HttpResponse {
    pub status_code: u16,
    pub headers: Vec<(String, String)>,
    pub body: HttpBody,
    pub metadata: Vec<(String, JsonValue)>,
}

impl Default for HttpResponse {
    /// Status 200, no headers, an empty body, no metadata.
    fn default() -> (r: Self)
        ensures
            r.status_code == 200,
            r.headers@.len() == 0,
            r.body matches HttpBody::Bytes(b) && b@.len() == 0,
            r.metadata@.len() == 0,
    {
        HttpResponse { status_code: 200, headers: Vec::new(), body: HttpBody::Bytes(Vec::new()), metadata: Vec::new() }
    }
}

/// The texts of a header list.
pub open spec fn header_texts(h: Seq<(String, String)>) -> Seq<(Seq<char>, Seq<char>)> {
    h.map_values(|p: (String, String)| (p.0@, p.1@))
}

/// The error code and message of a runtime error.
pub open spec fn error_code_and_message(e: RuntimeExecutionError) -> (Seq<char>, Seq<char>) {
    match e {
        RuntimeExecutionError::InstanceNotFound { instance_id } => ("INSTANCE_NOT_FOUND"@, "Instance not found: "@ + instance_id@),
        RuntimeExecutionError::InstanceNotReady { instance_id } => ("INSTANCE_NOT_READY"@, "Instance not ready: "@ + instance_id@),
        RuntimeExecutionError::ExecutionTimeout { timeout_ms } => (
            "EXECUTION_TIMEOUT"@,
            "Execution timeout: "@ + decimal(timeout_ms as nat) + "ms"@,
        ),
        RuntimeExecutionError::ResourceLimitExceeded { resource, limit } => (
            "RESOURCE_LIMIT_EXCEEDED"@,
            "Resource limit exceeded: "@ + resource@ + " (limit: "@ + limit@ + ")"@,
        ),
        RuntimeExecutionError::ConfigurationError { message } => ("CONFIGURATION_ERROR"@, message@),
        RuntimeExecutionError::RuntimeError { message } => ("RUNTIME_ERROR"@, message@),
        RuntimeExecutionError::IoError { message } => ("IO_ERROR"@, message@),
        RuntimeExecutionError::SerializationError { message } => ("SERIALIZATION_ERROR"@, message@),
        RuntimeExecutionError::UnsupportedOperation { operation, runtime_type } => (
            "UNSUPPORTED_OPERATION"@,
            "Operation '"@ + operation@ + "' not supported by runtime '"@ + runtime_type@ + "'"@,
        ),
    }
}

/// The lower-case name of a status.
pub open spec fn status_name(s: ExecutionStatus) -> Seq<char> {
    match s {
        ExecutionStatus::Unknown => "unknown"@,
        ExecutionStatus::Pending => "pending"@,
        ExecutionStatus::Running => "running"@,
        ExecutionStatus::Completed => "completed"@,
        ExecutionStatus::Failed => "failed"@,
        ExecutionStatus::Cancelled => "cancelled"@,
        ExecutionStatus::Timeout => "timeout"@,
    }
}

/// Whether response `r` has failed: an error or a failed, cancelled or
/// timed-out status.
pub open spec fn response_failed(r: RuntimeExecutionResponse) -> bool {
    r.error is Some || status_failed(r.execution_status)
}

/// Whether `e` is the error document of runtime error `err` for execution
/// `execution_id`.
pub open spec fn error_doc(e: HttpErrorResponse, err: RuntimeExecutionError, execution_id: Seq<char>) -> bool {
    &&& e.error_code@ == error_code_and_message(err).0
    &&& e.error_message@ == error_code_and_message(err).1
    &&& e.execution_id@ == execution_id
    &&& e.details@.len() == 0
}

/// Whether `s` is the status document of response `r`.
pub open spec fn status_doc(s: AsyncStatusResponse, r: RuntimeExecutionResponse) -> bool {
    &&& s.execution_id@ == r.execution_id@
    &&& opt_text(s.task_id) == opt_text(r.task_id)
    &&& s.status@ == status_name(r.execution_status)
    &&& s.status_endpoint@ == (match r.status_endpoint {
        Some(t) => t@,
        None => Seq::empty(),
    })
    &&& s.estimated_completion_ms == r.estimated_completion_ms
    &&& s.is_completed == status_terminal(r.execution_status)
    &&& (if status_terminal(r.execution_status) && r.error is None {
        s.result matches Some(d) && d@ == r.data@
    } else {
        s.result is None
    })
    &&& match r.error {
        Some(err) => s.error matches Some(e) && error_doc(e, err, r.execution_id@),
        None => s.error is None,
    }
}

/// The headers every conversion sets first.
pub open spec fn mode_headers(r: RuntimeExecutionResponse) -> Seq<(Seq<char>, Seq<char>)> {
    match r.execution_mode {
        ExecutionMode::Sync => seq![
            ("Content-Type"@, "application/octet-stream"@),
            ("X-Execution-ID"@, r.execution_id@),
            ("X-Execution-Mode"@, "sync"@),
            ("X-Duration-Ms"@, decimal(r.duration_ms as nat)),
        ],
        ExecutionMode::Async => seq![
            ("Content-Type"@, "application/json"@),
            ("X-Execution-ID"@, r.execution_id@),
            ("X-Execution-Mode"@, "async"@),
        ],
        ExecutionMode::Stream => seq![
            ("Content-Type"@, "text/event-stream"@),
            ("Cache-Control"@, "no-cache"@),
            ("Connection"@, "keep-alive"@),
            ("X-Execution-ID"@, r.execution_id@),
            ("X-Execution-Mode"@, "stream"@),
        ],
        ExecutionMode::Unknown => seq![
            ("Content-Type"@, "application/json"@),
            ("X-Execution-ID"@, r.execution_id@),
            ("X-Execution-Mode"@, "unknown"@),
        ],
    }
}

/// The status code of the response to `r`: 500 when it failed; else 200,
/// except 202 for an asynchronous execution still under way and 400 for an
/// unknown mode.
pub open spec fn http_status(r: RuntimeExecutionResponse) -> u16 {
    match r.execution_mode {
        ExecutionMode::Unknown => 400,
        ExecutionMode::Async => if response_failed(r) { 500 } else if status_terminal(r.execution_status) { 200 } else { 202 },
        _ => if response_failed(r) { 500 } else { 200 },
    }
}

/// Whether `h` is the HTTP response to runtime response `r`.
pub open spec fn http_response_of(r: RuntimeExecutionResponse, h: HttpResponse) -> bool {
    &&& h.status_code == http_status(r)
    &&& header_texts(h.headers@) == mode_headers(r)
    &&& h.metadata@.len() == r.metadata@.len()
    &&& forall|i: int| 0 <= i < r.metadata@.len() ==> #[trigger] h.metadata@[i].0@ == r.metadata@[i].0@ && h.metadata@[i].1@ == r.metadata@[i].1@
    &&& match r.execution_mode {
        ExecutionMode::Sync => match r.error {
            Some(err) => h.body matches HttpBody::Error(e) && error_doc(e, err, r.execution_id@),
            None => h.body matches HttpBody::Bytes(b) && b@ == r.data@,
        },
        ExecutionMode::Async => h.body matches HttpBody::Status(s) && status_doc(s, r),
        ExecutionMode::Stream => h.body matches HttpBody::Bytes(b) && b@ == r.data@,
        ExecutionMode::Unknown => h.body matches HttpBody::Error(e) && e.error_code@ == "UNKNOWN_EXECUTION_MODE"@
            && e.error_message@ == "Unknown execution mode"@ && e.execution_id@ == r.execution_id@ && e.details@.len() == 0,
    }
}

/// Converts runtime responses to HTTP responses.
pub struct HttpAdapter;

impl Default for HttpAdapter {
    fn default() -> (r: Self) {
        HttpAdapter
    }
}

fn header(name: &str, value: String) -> (r: (String, String))
    ensures
        r.0@ == name@,
        r.1@ == value@,
{
    (String::from_str(name), value)
}

fn copy_metadata(m: &Vec<(String, JsonValue)>) -> (r: Vec<(String, JsonValue)>)
    ensures
        r@.len() == m@.len(),
        forall|i: int| 0 <= i < m@.len() ==> #[trigger] r@[i].0@ == m@[i].0@ && r@[i].1@ == m@[i].1@,
{
    let mut out: Vec<(String, JsonValue)> = Vec::new();
    let mut i: usize = 0;
    while i < m.len()
        invariant
            0 <= i <= m@.len(),
            out@.len() == i,
            forall|j: int| 0 <= j < i ==> #[trigger] out@[j].0@ == m@[j].0@ && out@[j].1@ == m@[j].1@,
        decreases m@.len() - i,
    {
        out.push((m[i].0.clone(), m[i].1.duplicate()));
        i = i + 1;
    }
    out
}

impl HttpAdapter {
    /// An adapter.
    pub fn new() -> (r: Self) {
        HttpAdapter
    }

    /// The error code and message of runtime error `error` (see
    /// [`error_code_and_message`]).
    pub fn error_to_code_and_message(error: &RuntimeExecutionError) -> (r: (String, String))
        ensures
            r.0@ == error_code_and_message(*error).0,
            r.1@ == error_code_and_message(*error).1,
    {
        match error {
            RuntimeExecutionError::InstanceNotFound { instance_id } => (
                String::from_str("INSTANCE_NOT_FOUND"),
                String::from_str("Instance not found: ").concat(instance_id.as_str()),
            ),
            RuntimeExecutionError::InstanceNotReady { instance_id } => (
                String::from_str("INSTANCE_NOT_READY"),
                String::from_str("Instance not ready: ").concat(instance_id.as_str()),
            ),
            RuntimeExecutionError::ExecutionTimeout { timeout_ms } => {
                let t = decimal_string(*timeout_ms);
                (
                    String::from_str("EXECUTION_TIMEOUT"),
                    String::from_str("Execution timeout: ").concat(t.as_str()).concat("ms"),
                )
            },
            RuntimeExecutionError::ResourceLimitExceeded { resource, limit } => (
                String::from_str("RESOURCE_LIMIT_EXCEEDED"),
                String::from_str("Resource limit exceeded: ").concat(resource.as_str()).concat(" (limit: ").concat(
                    limit.as_str(),
                ).concat(")"),
            ),
            RuntimeExecutionError::ConfigurationError { message } => (String::from_str("CONFIGURATION_ERROR"), message.clone()),
            RuntimeExecutionError::RuntimeError { message } => (String::from_str("RUNTIME_ERROR"), message.clone()),
            RuntimeExecutionError::IoError { message } => (String::from_str("IO_ERROR"), message.clone()),
            RuntimeExecutionError::SerializationError { message } => (String::from_str("SERIALIZATION_ERROR"), message.clone()),
            RuntimeExecutionError::UnsupportedOperation { operation, runtime_type } => (
                String::from_str("UNSUPPORTED_OPERATION"),
                String::from_str("Operation '").concat(operation.as_str()).concat("' not supported by runtime '").concat(
                    runtime_type.as_str(),
                ).concat("'"),
            ),
        }
    }

    fn error_response(error: &RuntimeExecutionError, execution_id: &String) -> (r: HttpErrorResponse)
        ensures
            error_doc(r, *error, execution_id@),
    {
        let (error_code, error_message) = Self::error_to_code_and_message(error);
        HttpErrorResponse { error_code, error_message, execution_id: execution_id.clone(), details: Vec::new() }
    }

    /// The status document of runtime response `r`.
    pub fn to_async_status_response(&self, r: &RuntimeExecutionResponse) -> (s: AsyncStatusResponse)
        ensures
            status_doc(s, *r),
    {
        let completed = r.is_completed();
        let status: &str = match r.execution_status {
            ExecutionStatus::Unknown => "unknown",
            ExecutionStatus::Pending => "pending",
            ExecutionStatus::Running => "running",
            ExecutionStatus::Completed => "completed",
            ExecutionStatus::Failed => "failed",
            ExecutionStatus::Cancelled => "cancelled",
            ExecutionStatus::Timeout => "timeout",
        };
        AsyncStatusResponse {
            execution_id: r.execution_id.clone(),
            task_id: clone_opt_string(&r.task_id),
            status: String::from_str(status),
            status_endpoint: match &r.status_endpoint {
                Some(t) => t.clone(),
                None => String::new(),
            },
            estimated_completion_ms: r.estimated_completion_ms,
            is_completed: completed,
            result: if completed && r.error.is_none() {
                Some(crate::types::bytes_to_vec(r.data.as_slice()))
            } else {
                None
            },
            error: match &r.error {
                Some(e) => Some(Self::error_response(e, &r.execution_id)),
                None => None,
            },
        }
    }

    /// The HTTP response to runtime response `r` (see [`http_response_of`]).
    pub fn to_http_response(r: &RuntimeExecutionResponse) -> (h: HttpResponse)
        ensures
            http_response_of(*r, h),
    {
        let failed = r.has_failed();
        let mut headers: Vec<(String, String)> = Vec::new();
        let (status_code, body) = match r.execution_mode {
            ExecutionMode::Sync => {
                headers.push(header("Content-Type", String::from_str("application/octet-stream")));
                headers.push(header("X-Execution-ID", r.execution_id.clone()));
                headers.push(header("X-Execution-Mode", String::from_str("sync")));
                headers.push(header("X-Duration-Ms", decimal_string(r.duration_ms)));
                let body = match &r.error {
                    Some(e) => HttpBody::Error(Self::error_response(e, &r.execution_id)),
                    None => HttpBody::Bytes(crate::types::bytes_to_vec(r.data.as_slice())),
                };
                (if failed { 500u16 } else { 200u16 }, body)
            },
            ExecutionMode::Async => {
                headers.push(header("Content-Type", String::from_str("application/json")));
                headers.push(header("X-Execution-ID", r.execution_id.clone()));
                headers.push(header("X-Execution-Mode", String::from_str("async")));
                let adapter = HttpAdapter;
                let s = adapter.to_async_status_response(r);
                let code: u16 = if failed { 500 } else if r.is_completed() { 200 } else { 202 };
                (code, HttpBody::Status(s))
            },
            ExecutionMode::Stream => {
                headers.push(header("Content-Type", String::from_str("text/event-stream")));
                headers.push(header("Cache-Control", String::from_str("no-cache")));
                headers.push(header("Connection", String::from_str("keep-alive")));
                headers.push(header("X-Execution-ID", r.execution_id.clone()));
                headers.push(header("X-Execution-Mode", String::from_str("stream")));
                (if failed { 500u16 } else { 200u16 }, HttpBody::Bytes(crate::types::bytes_to_vec(r.data.as_slice())))
            },
            ExecutionMode::Unknown => {
                headers.push(header("Content-Type", String::from_str("application/json")));
                headers.push(header("X-Execution-ID", r.execution_id.clone()));
                headers.push(header("X-Execution-Mode", String::from_str("unknown")));
                let e = HttpErrorResponse {
                    error_code: String::from_str("UNKNOWN_EXECUTION_MODE"),
                    error_message: String::from_str("Unknown execution mode"),
                    execution_id: r.execution_id.clone(),
                    details: Vec::new(),
                };
                (400u16, HttpBody::Error(e))
            },
        };
        assert(header_texts(headers@) =~= mode_headers(*r));
        HttpResponse { status_code, headers, body, metadata: copy_metadata(&r.metadata) }
    }

    /// A JSON error response with status `status_code`.
    pub fn create_error_response(execution_id: String, error_code: String, error_message: String, status_code: u16) -> (h: HttpResponse)
        ensures
            h.status_code == status_code,
            header_texts(h.headers@) == seq![("Content-Type"@, "application/json"@), ("X-Execution-ID"@, execution_id@)],
            h.body matches HttpBody::Error(e) && e.error_code == error_code && e.error_message == error_message
                && e.execution_id == execution_id && e.details@.len() == 0,
            h.metadata@.len() == 0,
    {
        let mut headers: Vec<(String, String)> = Vec::new();
        headers.push(header("Content-Type", String::from_str("application/json")));
        headers.push(header("X-Execution-ID", execution_id.clone()));
        assert(header_texts(headers@) =~= seq![("Content-Type"@, "application/json"@), ("X-Execution-ID"@, execution_id@)]);
        let e = HttpErrorResponse { error_code, error_message, execution_id, details: Vec::new() };
        HttpResponse { status_code, headers, body: HttpBody::Error(e), metadata: Vec::new() }
    }
}

} // verus!
