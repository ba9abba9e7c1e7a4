//! The errors of the execution layer and the text each one reads as.
use vstd::prelude::*;
use crate::http_adapter::{decimal, decimal_string};

verus! {

/// The `std::io::Error` type, opaque to Verus.
#[verifier::external_type_specification]
#[verifier::external_body]
pub struct ExIoError(std::io::Error);

/// The `serde_json::Error` type, opaque to Verus.
#[verifier::external_type_specification]
#[verifier::external_body]
pub struct ExJsonError(serde_json::Error);

/// An error of the execution layer.
#[derive(Debug)]
pub enum ExecutionError {
    ArtifactNotFound { id: String },
    TaskNotFound { id: String },
    InstanceNotFound { id: String },
    RuntimeNotFound { runtime_type: String },
    RuntimeError { message: String },
    SchedulingError { message: String },
    ResourceExhausted { message: String },
    InvalidConfiguration { message: String },
    InvalidRequest { message: String },
    ExecutionTimeout { timeout_ms: u64 },
    ExecutionTerminated { message: String },
    InstanceDestroyed { message: String },
    InstanceCreationFailed { message: String },
    InstanceStartupFailed { message: String },
    HealthCheckFailed { message: String },
    ConcurrentModification,
    NotSupported { operation: String },
    /// An I/O failure.
    Io(std::io::Error),
    /// A JSON encoding or decoding failure.
    Serialization(serde_json::Error),
}

/// The text of error `e`; for the two errors that carry an outside error,
/// the text that precedes the outside error's own text.
pub open spec fn error_text_head(e: ExecutionError) -> Seq<char> {
    match e {
        ExecutionError::ArtifactNotFound { id } => "Artifact not found: "@ + id@,
        ExecutionError::TaskNotFound { id } => "Task not found: "@ + id@,
        ExecutionError::InstanceNotFound { id } => "Instance not found: "@ + id@,
        ExecutionError::RuntimeNotFound { runtime_type } => "Runtime not found: "@ + runtime_type@,
        ExecutionError::RuntimeError { message } => "Runtime error: "@ + message@,
        ExecutionError::SchedulingError { message } => "Scheduling error: "@ + message@,
        ExecutionError::ResourceExhausted { message } => "Resource exhausted: "@ + message@,
        ExecutionError::InvalidConfiguration { message } => "Invalid configuration: "@ + message@,
        ExecutionError::InvalidRequest { message } => "Invalid request: "@ + message@,
        ExecutionError::ExecutionTimeout { timeout_ms } => "Execution timeout: "@ + decimal(timeout_ms as nat)
            + "ms"@,
        ExecutionError::ExecutionTerminated { message } => "Execution terminated: "@ + message@,
        ExecutionError::InstanceDestroyed { message } => "Instance destroyed: "@ + message@,
        ExecutionError::InstanceCreationFailed { message } => "Instance creation failed: "@ + message@,
        ExecutionError::InstanceStartupFailed { message } => "Instance startup failed: "@ + message@,
        ExecutionError::HealthCheckFailed { message } => "Health check failed: "@ + message@,
        ExecutionError::ConcurrentModification => "Concurrent modification detected"@,
        ExecutionError::NotSupported { operation } => "Operation not supported: "@ + operation@,
        ExecutionError::Io(_) => "IO error: "@,
        ExecutionError::Serialization(_) => "Serialization error: "@,
    }
}

/// Whether error `e` carries an outside error whose text ends its own.
pub open spec fn wraps_outside_error(e: ExecutionError) -> bool {
    e is Io || e is Serialization
}

/// The `Display` text of an I/O error (`ToString::to_string`). Nothing is
/// stated of it: the text comes from the operating system.
#[verifier::external_body]
fn io_error_display(e: &std::io::Error) -> (r: String) {
    e.to_string()
}

/// The `Display` text of a `serde_json` error (`ToString::to_string`).
/// Nothing is stated of it: the crate documents no form for it.
#[verifier::external_body]
fn json_error_display(e: &serde_json::Error) -> (r: String) {
    e.to_string()
}

impl ExecutionError {
    /// The text of the error: [`error_text_head`] exactly, or, for an error
    /// that carries an outside error, that head followed by the outside
    /// error's text.
    pub fn to_text(&self) -> (r: String)
        ensures
            !wraps_outside_error(*self) ==> r@ == error_text_head(*self),
            wraps_outside_error(*self) ==> error_text_head(*self).is_prefix_of(r@),
    {
        match self {
            ExecutionError::ArtifactNotFound { id } => String::from_str("Artifact not found: ").concat(id.as_str()),
            ExecutionError::TaskNotFound { id } => String::from_str("Task not found: ").concat(id.as_str()),
            ExecutionError::InstanceNotFound { id } => String::from_str("Instance not found: ").concat(id.as_str()),
            ExecutionError::RuntimeNotFound { runtime_type } => String::from_str("Runtime not found: ").concat(
                runtime_type.as_str(),
            ),
            ExecutionError::RuntimeError { message } => String::from_str("Runtime error: ").concat(message.as_str()),
            ExecutionError::SchedulingError { message } => String::from_str("Scheduling error: ").concat(
                message.as_str(),
            ),
            ExecutionError::ResourceExhausted { message } => String::from_str("Resource exhausted: ").concat(
                message.as_str(),
            ),
            ExecutionError::InvalidConfiguration { message } => String::from_str("Invalid configuration: ").concat(
                message.as_str(),
            ),
            ExecutionError::InvalidRequest { message } => String::from_str("Invalid request: ").concat(
                message.as_str(),
            ),
            ExecutionError::ExecutionTimeout { timeout_ms } => {
                let t = decimal_string(*timeout_ms);
                String::from_str("Execution timeout: ").concat(t.as_str()).concat("ms")
            },
            ExecutionError::ExecutionTerminated { message } => String::from_str("Execution terminated: ").concat(
                message.as_str(),
            ),
            ExecutionError::InstanceDestroyed { message } => String::from_str("Instance destroyed: ").concat(
                message.as_str(),
            ),
            ExecutionError::InstanceCreationFailed { message } => String::from_str(
                "Instance creation failed: ",
            ).concat(message.as_str()),
            ExecutionError::InstanceStartupFailed { message } => String::from_str("Instance startup failed: ").concat(
                message.as_str(),
            ),
            ExecutionError::HealthCheckFailed { message } => String::from_str("Health check failed: ").concat(
                message.as_str(),
            ),
            ExecutionError::ConcurrentModification => String::from_str("Concurrent modification detected"),
            ExecutionError::NotSupported { operation } => String::from_str("Operation not supported: ").concat(
                operation.as_str(),
            ),
            ExecutionError::Io(e) => {
                let t = io_error_display(e);
                let r = String::from_str("IO error: ").concat(t.as_str());
                assert(error_text_head(*self).is_prefix_of(r@)) by {
                    assert(r@.subrange(0, error_text_head(*self).len() as int) =~= error_text_head(*self));
                }
                r
            },
            ExecutionError::Serialization(e) => {
                let t = json_error_display(e);
                let r = String::from_str("Serialization error: ").concat(t.as_str());
                assert(error_text_head(*self).is_prefix_of(r@)) by {
                    assert(r@.subrange(0, error_text_head(*self).len() as int) =~= error_text_head(*self));
                }
                r
            },
        }
    }
}

/// The status an execution that ended in error `e` is recorded and
/// reported with: `timeout` for a timeout, `terminated` for a terminated
/// execution or a destroyed instance, `failed` otherwise.
pub open spec fn failure_status(e: ExecutionError) -> Seq<char> {
    match e {
        ExecutionError::ExecutionTimeout { .. } => "timeout"@,
        ExecutionError::ExecutionTerminated { .. } => "terminated"@,
        ExecutionError::InstanceDestroyed { .. } => "terminated"@,
        _ => "failed"@,
    }
}

/// The status of an execution that ended in error `e` (see
/// [`failure_status`]).
pub fn execution_failure_status(e: &ExecutionError) -> (s: String)
    ensures
        s@ == failure_status(*e),
{
    match e {
        ExecutionError::ExecutionTimeout { .. } => String::from_str("timeout"),
        ExecutionError::ExecutionTerminated { .. } => String::from_str("terminated"),
        ExecutionError::InstanceDestroyed { .. } => String::from_str("terminated"),
        _ => String::from_str("failed"),
    }
}

impl From<std::io::Error> for ExecutionError {
    /// An I/O failure as an execution error.
    fn from(e: std::io::Error) -> (r: Self) {
        ExecutionError::Io(e)
    }
}

impl vstd::std_specs::convert::FromSpecImpl<std::io::Error> for ExecutionError {
    open spec fn obeys_from_spec() -> bool {
        true
    }

    open spec fn from_spec(v: std::io::Error) -> Self {
        ExecutionError::Io(v)
    }
}

impl From<serde_json::Error> for ExecutionError {
    /// A JSON failure as an execution error.
    fn from(e: serde_json::Error) -> (r: Self) {
        ExecutionError::Serialization(e)
    }
}

impl vstd::std_specs::convert::FromSpecImpl<serde_json::Error> for ExecutionError {
    open spec fn obeys_from_spec() -> bool {
        true
    }

    open spec fn from_spec(v: serde_json::Error) -> Self {
        ExecutionError::Serialization(v)
    }
}

} // verus!
