use spear_exec::runtime::{
    ExecutionMode, ExecutionStatus, ResourcePoolConfig, RuntimeCapabilities, RuntimeExecutionError,
    RuntimeExecutionResponse, RuntimeFactory, RuntimeType, MessageHandlingConfig, AuthConfig,
};
use spear_exec::runtime_config::{ProcessConfig, TaskExecutionManagerConfig, WasmConfig};

#[test]
fn test_task_execution_manager_config() {
    let config = TaskExecutionManagerConfig::default();
    assert_eq!(config.max_concurrent_executions, 1000);
    assert_eq!(config.max_artifacts, 100);
    assert_eq!(config.max_tasks_per_artifact, 10);
    assert_eq!(config.max_instances_per_task, 50);
}

#[test]
fn test_runtime_factory() {
    assert!(RuntimeFactory::is_runtime_supported(&RuntimeType::Process));
    assert!(RuntimeFactory::is_runtime_supported(&RuntimeType::Wasm));
    assert!(RuntimeFactory::is_runtime_supported(&RuntimeType::Kubernetes));

    let available = RuntimeFactory::available_runtimes();
    assert_eq!(available.len(), 3);
    assert!(available.contains(&RuntimeType::Process));
    assert!(available.contains(&RuntimeType::Wasm));
    assert!(available.contains(&RuntimeType::Kubernetes));
}

#[test]
fn test_process_config_default() {
    let config = ProcessConfig::default();
    assert_eq!(config.working_directory, "/tmp/spearlet");
    assert_eq!(config.default_executable, "/bin/sh");
    assert!(config.isolation_config.use_process_groups);
    assert!(config.security_config.drop_privileges);
}

#[test]
fn test_wasm_config_default() {
    let config = WasmConfig::default();
    assert_eq!(config.cache_directory, "/tmp/spearlet/wasm_cache");
    assert_eq!(config.max_module_size_bytes, 100 * 1024 * 1024);
    assert!(config.execution_config.enable_wasi);
    assert!(config.security_config.enable_sandbox);
    assert!(config.optimization_config.enable_jit);
}

#[test]
fn runtime_type_names() {
    assert_eq!(RuntimeType::Process.as_str(), "process");
    assert_eq!(RuntimeType::Wasm.as_str(), "wasm");
    assert_eq!(RuntimeType::Kubernetes.as_str(), "kubernetes");
}

#[test]
fn runtime_response_constructors_and_predicates() {
    let r = RuntimeExecutionResponse::new_sync("e1".to_string(), b"ok".to_vec(), 5);
    assert!(r.is_successful());
    assert!(r.is_completed());
    assert!(!r.has_failed());
    assert!(!r.is_in_progress());

    let a = RuntimeExecutionResponse::new_async("e2".to_string(), None, "/s/e2".to_string(), Some(10));
    assert!(a.is_in_progress());
    assert!(!a.is_completed());
    assert_eq!(a.execution_status, ExecutionStatus::Pending);
    assert_eq!(a.execution_mode, ExecutionMode::Async);

    let f = RuntimeExecutionResponse::new_failed(
        "e3".to_string(),
        ExecutionMode::Sync,
        RuntimeExecutionError::IoError { message: "x".to_string() },
        7,
    );
    assert!(f.has_failed());
    assert!(f.is_completed());
    assert!(!f.is_successful());
    assert_eq!(f.duration_ms, 7);
}

#[test]
fn execution_codes_follow_declaration_order() {
    assert_eq!(ExecutionMode::Unknown.code(), 0);
    assert_eq!(ExecutionMode::Stream.code(), 3);
    assert_eq!(ExecutionStatus::Timeout.code(), 6);
    assert_eq!(ExecutionStatus::default(), ExecutionStatus::Unknown);
    assert_eq!(ExecutionMode::default(), ExecutionMode::Unknown);
}

#[test]
fn runtime_defaults() {
    let p = ResourcePoolConfig::default();
    assert_eq!(p.max_concurrent_instances, 100);
    assert_eq!(p.instance_creation_timeout_ms, 30000);
    let c = RuntimeCapabilities::default();
    assert_eq!(c.supported_protocols, vec!["HTTP".to_string()]);
    assert!(!c.supports_hot_reload);
    let m = MessageHandlingConfig::default();
    assert_eq!(m.queue_size_limit, 1000);
    let a = AuthConfig::default();
    assert!(a.required);
    assert_eq!(a.timeout_secs, 30);
}
