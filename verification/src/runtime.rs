//! The runtime model: runtime kinds, execution modes and statuses, the
//! response a runtime gives for one execution, and the default settings of
//! runtimes.
use vstd::prelude::*;
use crate::json::JsonValue;
use crate::http_adapter::{decimal, decimal_string};

verus! {

/// The kinds of runtime an instance can run in.
#[derive(Debug, Clone, Copy, PartialEq, Eq, Hash, Structural)]
pub enum RuntimeType {
    /// Native processes.
    Process,
    /// WebAssembly modules.
    Wasm,
    /// Kubernetes workloads.
    Kubernetes,
}

/// The name of a runtime kind.
pub open spec fn runtime_name(t: RuntimeType) -> Seq<char> {
    match t {
        RuntimeType::Process => "process"@,
        RuntimeType::Wasm => "wasm"@,
        RuntimeType::Kubernetes => "kubernetes"@,
    }
}

impl RuntimeType {
    /// The name of the runtime kind: `process`, `wasm` or `kubernetes`.
    pub fn as_str(&self) -> (r: &'static str)
        ensures
            r@ == runtime_name(*self),
    {
        match self {
            RuntimeType::Process => "process",
            RuntimeType::Wasm => "wasm",
            RuntimeType::Kubernetes => "kubernetes",
        }
    }
}

/// Limits of the instance pool of a runtime.
#[derive(Debug, Clone, PartialEq, Eq, Structural)]
pub struct ResourcePoolConfig {
    pub max_concurrent_instances: u32,
    pub instance_creation_timeout_ms: u64,
    pub instance_cleanup_timeout_ms: u64,
    pub monitoring_interval_ms: u64,
}

impl Default for ResourcePoolConfig {
    /// 100 instances; 30 s to create, 10 s to clean up; monitoring every 5 s.
    fn default() -> (r: Self)
        ensures
            r == (ResourcePoolConfig {
                max_concurrent_instances: 100,
                instance_creation_timeout_ms: 30000,
                instance_cleanup_timeout_ms: 10000,
                monitoring_interval_ms: 5000,
            }),
    {
        ResourcePoolConfig {
            max_concurrent_instances: 100,
            instance_creation_timeout_ms: 30000,
            instance_cleanup_timeout_ms: 10000,
            monitoring_interval_ms: 5000,
        }
    }
}

/// How agent tokens are checked.
#[derive(Debug, Clone)]
pub enum TokenValidationStrategy {
    /// Against a fixed list.
    Static,
    /// Through a callback.
    Dynamic,
    /// Through an outside service.
    External { endpoint: String },
}

/// Authentication of agents in listening mode.
#[derive(Debug, Clone)]
pub struct AuthConfig {
    pub required: bool,
    pub timeout_secs: u64,
    pub valid_tokens: Vec<String>,
    pub validation_strategy: TokenValidationStrategy,
}

impl Default for AuthConfig {
    /// Required, 30 s timeout, no tokens, static checking.
    fn default() -> (r: Self)
        ensures
            r.required,
            r.timeout_secs == 30,
            r.valid_tokens@.len() == 0,
            r.validation_strategy is Static,
    {
        AuthConfig {
            required: true,
            timeout_secs: 30,
            valid_tokens: Vec::new(),
            validation_strategy: TokenValidationStrategy::Static,
        }
    }
}

/// Handling of agent messages in listening mode.
#[derive(Debug, Clone, PartialEq, Eq, Structural)]
pub struct MessageHandlingConfig {
    pub max_concurrent_messages: u32,
    pub processing_timeout_secs: u64,
    pub enable_queuing: bool,
    pub queue_size_limit: usize,
}

impl Default for MessageHandlingConfig {
    /// 100 concurrent messages, 300 s each, queuing on with 1000 entries.
    fn default() -> (r: Self)
        ensures
            r == (MessageHandlingConfig {
                max_concurrent_messages: 100,
                processing_timeout_secs: 300,
                enable_queuing: true,
                queue_size_limit: 1000,
            }),
    {
        MessageHandlingConfig {
            max_concurrent_messages: 100,
            processing_timeout_secs: 300,
            enable_queuing: true,
            queue_size_limit: 1000,
        }
    }
}

/// How a function is executed.
#[derive(Debug, Clone, Copy, PartialEq, Eq, Hash, Structural)]
pub enum ExecutionMode {
    Unknown,
    Sync,
    Async,
    Stream,
}

impl ExecutionMode {
    /// The wire number of the mode: 0 to 3 in declaration order.
    pub fn code(&self) -> (r: i32)
        ensures
            r == match *self {
                ExecutionMode::Unknown => 0i32,
                ExecutionMode::Sync => 1,
                ExecutionMode::Async => 2,
                ExecutionMode::Stream => 3,
            },
    {
        match self {
            ExecutionMode::Unknown => 0,
            ExecutionMode::Sync => 1,
            ExecutionMode::Async => 2,
            ExecutionMode::Stream => 3,
        }
    }
}

impl Default for ExecutionMode {
    /// `Unknown`.
    fn default() -> (r: Self)
        ensures
            r == ExecutionMode::Unknown,
    {
        ExecutionMode::Unknown
    }
}

/// Where an execution stands.
#[derive(Debug, Clone, Copy, PartialEq, Eq, Hash, Structural)]
pub enum ExecutionStatus {
    Unknown,
    Pending,
    Running,
    Completed,
    Failed,
    Cancelled,
    Timeout,
}

impl ExecutionStatus {
    /// The wire number of the status: 0 to 6 in declaration order.
    pub fn code(&self) -> (r: i32)
        ensures
            r == match *self {
                ExecutionStatus::Unknown => 0i32,
                ExecutionStatus::Pending => 1,
                ExecutionStatus::Running => 2,
                ExecutionStatus::Completed => 3,
                ExecutionStatus::Failed => 4,
                ExecutionStatus::Cancelled => 5,
                ExecutionStatus::Timeout => 6,
            },
    {
        match self {
            ExecutionStatus::Unknown => 0,
            ExecutionStatus::Pending => 1,
            ExecutionStatus::Running => 2,
            ExecutionStatus::Completed => 3,
            ExecutionStatus::Failed => 4,
            ExecutionStatus::Cancelled => 5,
            ExecutionStatus::Timeout => 6,
        }
    }
}

impl Default for ExecutionStatus {
    /// `Unknown`.
    fn default() -> (r: Self)
        ensures
            r == ExecutionStatus::Unknown,
    {
        ExecutionStatus::Unknown
    }
}

/// Why an execution failed in a runtime.
#[derive(Debug, Clone)]
pub enum RuntimeExecutionError {
    InstanceNotFound { instance_id: String },
    InstanceNotReady { instance_id: String },
    ExecutionTimeout { timeout_ms: u64 },
    ResourceLimitExceeded { resource: String, limit: String },
    ConfigurationError { message: String },
    RuntimeError { message: String },
    IoError { message: String },
    SerializationError { message: String },
    UnsupportedOperation { operation: String, runtime_type: String },
}

/// The result of one execution in a runtime. `metadata` holds members by
/// name, each name once.
#[derive(Debug)]
pub struct RuntimeExecutionResponse {
    pub data: Vec<u8>,
    pub duration_ms: u64,
    pub metadata: Vec<(String, JsonValue)>,
    pub execution_mode: ExecutionMode,
    pub execution_status: ExecutionStatus,
    pub execution_id: String,
    pub task_id: Option<String>,
    pub status_endpoint: Option<String>,
    pub estimated_completion_ms: Option<u64>,
    pub error: Option<RuntimeExecutionError>,
}

/// The statuses of an execution that has not ended.
pub open spec fn status_in_progress(s: ExecutionStatus) -> bool {
    s == ExecutionStatus::Pending || s == ExecutionStatus::Running
}

/// The statuses of an execution that ended badly.
pub open spec fn status_failed(s: ExecutionStatus) -> bool {
    s == ExecutionStatus::Failed || s == ExecutionStatus::Cancelled || s == ExecutionStatus::Timeout
}

/// The statuses of an execution that ended, well or badly.
pub open spec fn status_terminal(s: ExecutionStatus) -> bool {
    s == ExecutionStatus::Completed || status_failed(s)
}

impl Default for RuntimeExecutionResponse {
    /// Empty data and id, zero duration, unknown mode and status, nothing
    /// else set.
    fn default() -> (r: Self)
        ensures
            r.data@.len() == 0,
            r.duration_ms == 0,
            r.metadata@.len() == 0,
            r.execution_mode == ExecutionMode::Unknown,
            r.execution_status == ExecutionStatus::Unknown,
            r.execution_id@.len() == 0,
            r.task_id is None,
            r.status_endpoint is None,
            r.estimated_completion_ms is None,
            r.error is None,
    {
        RuntimeExecutionResponse {
            data: Vec::new(),
            duration_ms: 0,
            metadata: Vec::new(),
            execution_mode: ExecutionMode::Unknown,
            execution_status: ExecutionStatus::Unknown,
            execution_id: String::new(),
            task_id: None,
            status_endpoint: None,
            estimated_completion_ms: None,
            error: None,
        }
    }
}

impl RuntimeExecutionResponse {
    /// A synchronous execution that completed with `data`.
    pub fn new_sync(execution_id: String, data: Vec<u8>, duration_ms: u64) -> (r: Self)
        ensures
            r.execution_id == execution_id,
            r.data == data,
            r.duration_ms == duration_ms,
            r.execution_mode == ExecutionMode::Sync,
            r.execution_status == ExecutionStatus::Completed,
            r.metadata@.len() == 0,
            r.task_id is None,
            r.status_endpoint is None,
            r.estimated_completion_ms is None,
            r.error is None,
    {
        RuntimeExecutionResponse {
            execution_id,
            data,
            duration_ms,
            execution_mode: ExecutionMode::Sync,
            execution_status: ExecutionStatus::Completed,
            ..Default::default()
        }
    }

    /// An asynchronous execution that was accepted and can be followed at
    /// `status_endpoint`.
    pub fn new_async(
        execution_id: String,
        task_id: Option<String>,
        status_endpoint: String,
        estimated_completion_ms: Option<u64>,
    ) -> (r: Self)
        ensures
            r.execution_id == execution_id,
            r.task_id == task_id,
            r.status_endpoint == Some(status_endpoint),
            r.estimated_completion_ms == estimated_completion_ms,
            r.execution_mode == ExecutionMode::Async,
            r.execution_status == ExecutionStatus::Pending,
            r.data@.len() == 0,
            r.duration_ms == 0,
            r.metadata@.len() == 0,
            r.error is None,
    {
        RuntimeExecutionResponse {
            execution_id,
            task_id,
            status_endpoint: Some(status_endpoint),
            estimated_completion_ms,
            execution_mode: ExecutionMode::Async,
            execution_status: ExecutionStatus::Pending,
            ..Default::default()
        }
    }

    /// An execution that failed with `error`.
    pub fn new_failed(
        execution_id: String,
        execution_mode: ExecutionMode,
        error: RuntimeExecutionError,
        duration_ms: u64,
    ) -> (r: Self)
        ensures
            r.execution_id == execution_id,
            r.execution_mode == execution_mode,
            r.execution_status == ExecutionStatus::Failed,
            r.duration_ms == duration_ms,
            r.error == Some(error),
            r.data@.len() == 0,
            r.metadata@.len() == 0,
            r.task_id is None,
            r.status_endpoint is None,
            r.estimated_completion_ms is None,
    {
        RuntimeExecutionResponse {
            execution_id,
            execution_mode,
            execution_status: ExecutionStatus::Failed,
            duration_ms,
            error: Some(error),
            ..Default::default()
        }
    }

    /// Whether the execution is pending or running.
    pub fn is_in_progress(&self) -> (r: bool)
        ensures
            r == status_in_progress(self.execution_status),
    {
        self.execution_status == ExecutionStatus::Pending || self.execution_status == ExecutionStatus::Running
    }

    /// Whether the execution carries an error or ended failed, cancelled or
    /// timed out.
    pub fn has_failed(&self) -> (r: bool)
        ensures
            r == (self.error is Some || status_failed(self.execution_status)),
    {
        self.error.is_some() || self.execution_status == ExecutionStatus::Failed
            || self.execution_status == ExecutionStatus::Cancelled
            || self.execution_status == ExecutionStatus::Timeout
    }

    /// Whether the execution completed without an error.
    pub fn is_successful(&self) -> (r: bool)
        ensures
            r == (self.execution_status == ExecutionStatus::Completed && self.error is None),
    {
        self.execution_status == ExecutionStatus::Completed && self.error.is_none()
    }

    /// Whether the execution ended, well or badly.
    pub fn is_completed(&self) -> (r: bool)
        ensures
            r == status_terminal(self.execution_status),
    {
        self.execution_status == ExecutionStatus::Completed || self.execution_status == ExecutionStatus::Failed
            || self.execution_status == ExecutionStatus::Cancelled
            || self.execution_status == ExecutionStatus::Timeout
    }
}

/// What a runtime can do.
#[derive(Debug, Clone)]
pub struct RuntimeCapabilities {
    pub supports_scaling: bool,
    pub supports_health_checks: bool,
    pub supports_metrics: bool,
    pub supports_hot_reload: bool,
    pub supports_persistent_storage: bool,
    pub supports_network_isolation: bool,
    pub max_concurrent_instances: u32,
    pub supported_protocols: Vec<String>,
}

impl Default for RuntimeCapabilities {
    /// Scaling, health checks and metrics; no hot reload, persistent storage
    /// or network isolation; 100 instances; HTTP.
    fn default() -> (r: Self)
        ensures
            r.supports_scaling,
            r.supports_health_checks,
            r.supports_metrics,
            !r.supports_hot_reload,
            !r.supports_persistent_storage,
            !r.supports_network_isolation,
            r.max_concurrent_instances == 100,
            r.supported_protocols@.len() == 1,
            r.supported_protocols@[0]@ == "HTTP"@,
    {
        let mut protocols: Vec<String> = Vec::new();
        protocols.push(String::from_str("HTTP"));
        RuntimeCapabilities {
            supports_scaling: true,
            supports_health_checks: true,
            supports_metrics: true,
            supports_hot_reload: false,
            supports_persistent_storage: false,
            supports_network_isolation: false,
            max_concurrent_instances: 100,
            supported_protocols: protocols,
        }
    }
}

/// The runtime kinds this build offers.
pub open spec fn available_runtime_seq() -> Seq<RuntimeType> {
    seq![RuntimeType::Process, RuntimeType::Wasm, RuntimeType::Kubernetes]
}

/// Knows which runtime kinds exist.
pub struct RuntimeFactory;

impl RuntimeFactory {
    /// The runtime kinds: process, WebAssembly and Kubernetes.
    pub fn available_runtimes() -> (r: Vec<RuntimeType>)
        ensures
            r@ == available_runtime_seq(),
    {
        let mut v: Vec<RuntimeType> = Vec::new();
        v.push(RuntimeType::Process);
        v.push(RuntimeType::Wasm);
        v.push(RuntimeType::Kubernetes);
        assert(v@ =~= available_runtime_seq());
        v
    }

    /// Whether `runtime_type` is one of the available kinds.
    pub fn is_runtime_supported(runtime_type: &RuntimeType) -> (r: bool)
        ensures
            r == available_runtime_seq().contains(*runtime_type),
    {
        let all = Self::available_runtimes();
        let mut i: usize = 0;
        while i < all.len()
            invariant
                0 <= i <= all@.len(),
                all@ == available_runtime_seq(),
                forall|j: int| 0 <= j < i ==> all@[j] != *runtime_type,
            decreases all.len() - i,
        {
            if all[i] == *runtime_type {
                return true;
            }
            i = i + 1;
        }
        false
    }
}

/// The message an execution record keeps for runtime error `e`.
pub open spec fn error_message_text(e: RuntimeExecutionError) -> Seq<char> {
    match e {
        RuntimeExecutionError::InstanceNotFound { instance_id } => "Instance not found: "@ + instance_id@,
        RuntimeExecutionError::InstanceNotReady { instance_id } => "Instance not ready: "@ + instance_id@,
        RuntimeExecutionError::ExecutionTimeout { timeout_ms } => "Execution timeout after "@ + decimal(
            timeout_ms as nat,
        ) + " ms"@,
        RuntimeExecutionError::ResourceLimitExceeded { resource, limit } => "Resource limit exceeded: "@ + resource@
            + " (limit: "@ + limit@ + ")"@,
        RuntimeExecutionError::ConfigurationError { message } => message@,
        RuntimeExecutionError::RuntimeError { message } => message@,
        RuntimeExecutionError::IoError { message } => message@,
        RuntimeExecutionError::SerializationError { message } => message@,
        RuntimeExecutionError::UnsupportedOperation { operation, runtime_type } => "Unsupported operation: "@
            + operation@ + " for runtime: "@ + runtime_type@,
    }
}

/// The message an execution record keeps for runtime error `error` (see
/// [`error_message_text`]).
pub fn extract_error_message(error: &RuntimeExecutionError) -> (r: String)
    ensures
        r@ == error_message_text(*error),
{
    match error {
        RuntimeExecutionError::InstanceNotFound { instance_id } => String::from_str("Instance not found: ").concat(
            instance_id.as_str(),
        ),
        RuntimeExecutionError::InstanceNotReady { instance_id } => String::from_str("Instance not ready: ").concat(
            instance_id.as_str(),
        ),
        RuntimeExecutionError::ExecutionTimeout { timeout_ms } => {
            let t = decimal_string(*timeout_ms);
            String::from_str("Execution timeout after ").concat(t.as_str()).concat(" ms")
        },
        RuntimeExecutionError::ResourceLimitExceeded { resource, limit } => String::from_str(
            "Resource limit exceeded: ",
        ).concat(resource.as_str()).concat(" (limit: ").concat(limit.as_str()).concat(")"),
        RuntimeExecutionError::ConfigurationError { message } => message.clone(),
        RuntimeExecutionError::RuntimeError { message } => message.clone(),
        RuntimeExecutionError::IoError { message } => message.clone(),
        RuntimeExecutionError::SerializationError { message } => message.clone(),
        RuntimeExecutionError::UnsupportedOperation { operation, runtime_type } => String::from_str(
            "Unsupported operation: ",
        ).concat(operation.as_str()).concat(" for runtime: ").concat(runtime_type.as_str()),
    }
}

} // verus!
