use spear_exec::execution_error::ExecutionError;
use spear_exec::runtime::RuntimeType;
use spear_exec::runtime_manager::RuntimeManager;

/// A stand-in for a runtime: the manager only stores and hands it out.
#[derive(Debug, PartialEq)]
struct FakeRuntime(&'static str);

#[test]
fn test_runtime_manager() {
    let manager: RuntimeManager<FakeRuntime> = RuntimeManager::new();
    assert!(manager.list_runtime_types().is_empty());
    assert!(manager.get_runtime(&RuntimeType::Process).is_none());
}

#[test]
fn register_then_get_finds_the_runtime() {
    let mut manager = RuntimeManager::new();
    assert!(manager.register_runtime(RuntimeType::Wasm, FakeRuntime("w")).is_ok());
    assert!(manager.register_runtime(RuntimeType::Process, FakeRuntime("p")).is_ok());
    assert_eq!(manager.get_runtime(&RuntimeType::Wasm), Some(&FakeRuntime("w")));
    assert_eq!(manager.get_runtime(&RuntimeType::Process), Some(&FakeRuntime("p")));
    assert!(manager.get_runtime(&RuntimeType::Kubernetes).is_none());
    assert_eq!(manager.list_runtime_types(), vec![RuntimeType::Wasm, RuntimeType::Process]);
}

#[test]
fn second_registration_of_a_kind_is_refused() {
    let mut manager = RuntimeManager::default();
    assert!(manager.register_runtime(RuntimeType::Wasm, FakeRuntime("first")).is_ok());
    let err = manager.register_runtime(RuntimeType::Wasm, FakeRuntime("second")).unwrap_err();
    match &err {
        ExecutionError::InvalidConfiguration { message } => {
            assert_eq!(message, "Runtime Wasm is already registered");
        }
        other => panic!("unexpected error {:?}", other),
    }
    assert_eq!(err.to_text(), "Invalid configuration: Runtime Wasm is already registered");
    assert_eq!(manager.get_runtime(&RuntimeType::Wasm), Some(&FakeRuntime("first")));
    assert_eq!(manager.list_runtime_types(), vec![RuntimeType::Wasm]);
}

#[test]
fn initialize_runtimes_registers_in_order() {
    let mut manager = RuntimeManager::new();
    let created = vec![Ok((RuntimeType::Process, FakeRuntime("p"))), Ok((RuntimeType::Wasm, FakeRuntime("w")))];
    assert!(manager.initialize_runtimes(created).is_ok());
    assert_eq!(manager.list_runtime_types(), vec![RuntimeType::Process, RuntimeType::Wasm]);
}

#[test]
fn initialize_runtimes_stops_at_failed_creation() {
    let mut manager = RuntimeManager::new();
    let created = vec![
        Ok((RuntimeType::Process, FakeRuntime("p"))),
        Err(ExecutionError::RuntimeError { message: "no engine".to_string() }),
        Ok((RuntimeType::Wasm, FakeRuntime("w"))),
    ];
    let err = manager.initialize_runtimes(created).unwrap_err();
    assert_eq!(err.to_text(), "Runtime error: no engine");
    assert_eq!(manager.list_runtime_types(), vec![RuntimeType::Process]);
}

#[test]
fn initialize_runtimes_refuses_a_repeated_kind() {
    let mut manager = RuntimeManager::new();
    let created = vec![
        Ok((RuntimeType::Kubernetes, FakeRuntime("k1"))),
        Ok((RuntimeType::Kubernetes, FakeRuntime("k2"))),
    ];
    let err = manager.initialize_runtimes(created).unwrap_err();
    assert_eq!(err.to_text(), "Invalid configuration: Runtime Kubernetes is already registered");
    assert_eq!(manager.get_runtime(&RuntimeType::Kubernetes), Some(&FakeRuntime("k1")));
}

#[test]
fn execution_error_texts() {
    assert_eq!(ExecutionError::TaskNotFound { id: "t1".to_string() }.to_text(), "Task not found: t1");
    assert_eq!(ExecutionError::ExecutionTimeout { timeout_ms: 1500 }.to_text(), "Execution timeout: 1500ms");
    assert_eq!(ExecutionError::ConcurrentModification.to_text(), "Concurrent modification detected");
    assert_eq!(
        ExecutionError::NotSupported { operation: "scale".to_string() }.to_text(),
        "Operation not supported: scale"
    );
    assert_eq!(
        ExecutionError::RuntimeNotFound { runtime_type: "wasm".to_string() }.to_text(),
        "Runtime not found: wasm"
    );
}

#[test]
fn outside_errors_convert_and_keep_their_text() {
    let io = std::io::Error::new(std::io::ErrorKind::Other, "disk gone");
    let err: ExecutionError = io.into();
    assert!(matches!(err, ExecutionError::Io(_)));
    assert_eq!(err.to_text(), "IO error: disk gone");

    let json_err = serde_json::from_str::<serde_json::Value>("{").unwrap_err();
    let expected = format!("Serialization error: {}", json_err);
    let err = ExecutionError::from(json_err);
    assert!(matches!(err, ExecutionError::Serialization(_)));
    assert_eq!(err.to_text(), expected);
}
