use spear_exec::host::DefaultHostApi;
use spear_exec::termination::{
    clear_execution_termination_request, register_execution_termination_request, register_instance_destruction_request,
    TerminationRequestRegistry, TerminationScope,
};

// ECANCELED on Linux.
const ECANCELED: i32 = 125;

#[test]
fn test_exec_registry_mark_check_clear() {
    let exec_id = "exec-test-1";
    let mut reg = TerminationRequestRegistry::new(TerminationScope::Execution);
    reg.clear_termination_request(exec_id);

    assert!(reg.read_termination_request(exec_id).is_none());

    reg.request_termination(exec_id, -11, Some("terminated".to_string()));
    let s = reg.read_termination_request(exec_id).unwrap();
    assert_eq!(s.scope, TerminationScope::Execution);
    assert_eq!(s.errno, -11);
    assert_eq!(s.message.as_deref(), Some("terminated"));

    reg.clear_termination_request(exec_id);
    assert!(reg.read_termination_request(exec_id).is_none());
}

#[test]
fn test_instance_registry_mark_check_clear() {
    let instance_id = "inst-test-1";
    let mut reg = TerminationRequestRegistry::new(TerminationScope::Instance);
    reg.clear_termination_request(instance_id);

    assert!(reg.read_termination_request(instance_id).is_none());

    reg.request_termination(instance_id, -123, Some("destroyed".to_string()));
    let s = reg.read_termination_request(instance_id).unwrap();
    assert_eq!(s.scope, TerminationScope::Instance);
    assert_eq!(s.errno, -123);
    assert_eq!(s.message.as_deref(), Some("destroyed"));

    reg.clear_termination_request(instance_id);
    assert!(reg.read_termination_request(instance_id).is_none());
}

#[test]
fn test_default_host_api_prefers_execution_over_instance() {
    let exec_id = "exec-test-2";
    let instance_id = "inst-test-2";

    let mut api = DefaultHostApi::new().with_instance_id(instance_id.to_string());
    clear_execution_termination_request(&mut api.exec_termination, exec_id);
    api.instance_termination.clear_termination_request(instance_id);

    register_execution_termination_request(&mut api.exec_termination, exec_id, -ECANCELED, Some("e".to_string()));
    register_instance_destruction_request(&mut api.instance_termination, instance_id, -ECANCELED, Some("i".to_string()));

    api.set_execution_id(Some(exec_id.to_string()));

    let s = api.check_wasm_termination(None).unwrap();
    assert_eq!(s.scope, TerminationScope::Execution);
    assert_eq!(s.message.as_deref(), Some("e"));

    clear_execution_termination_request(&mut api.exec_termination, exec_id);
    api.instance_termination.clear_termination_request(instance_id);
}

#[test]
fn instance_request_applies_without_execution_request() {
    let mut api = DefaultHostApi::new().with_instance_id("inst-3".to_string());
    assert!(api.check_wasm_termination(Some("exec-3")).is_none());
    register_instance_destruction_request(&mut api.instance_termination, "inst-3", -ECANCELED, None);
    let s = api.check_wasm_termination(Some("exec-3")).unwrap();
    assert_eq!(s.scope, TerminationScope::Instance);
    assert_eq!(s.errno, -ECANCELED);
    assert_eq!(s.message, None);
}

#[test]
fn current_execution_id_is_used_when_none_is_set() {
    let mut api = DefaultHostApi::new();
    register_execution_termination_request(&mut api.exec_termination, "exec-4", -ECANCELED, Some("stop".to_string()));
    assert!(api.check_wasm_termination(None).is_none());
    assert!(api.check_wasm_termination(Some("other")).is_none());
    let s = api.check_wasm_termination(Some("exec-4")).unwrap();
    assert_eq!(s.message.as_deref(), Some("stop"));
}

#[test]
fn repeated_request_keeps_first_errno_and_takes_last_message() {
    let mut reg = TerminationRequestRegistry::new(TerminationScope::Execution);
    reg.request_termination("x", -1, Some("first".to_string()));
    reg.request_termination("x", -2, Some("second".to_string()));
    let s = reg.read_termination_request("x").unwrap();
    assert_eq!(s.errno, -1);
    assert_eq!(s.message.as_deref(), Some("second"));
}

#[test]
fn registered_request_reads_back_with_registry_scope() {
    let mut reg = TerminationRequestRegistry::new(TerminationScope::Execution);
    register_execution_termination_request(&mut reg, "e9", -7, Some("first".to_string()));
    register_execution_termination_request(&mut reg, "e9", -8, Some("second".to_string()));
    let s = reg.read_termination_request("e9").unwrap();
    assert_eq!(s.scope, TerminationScope::Execution);
    assert_eq!(s.errno, -7);
    assert_eq!(s.message.as_deref(), Some("second"));
}
