use spear_exec::execution_error::ExecutionError;
use spear_exec::execution_flow::{
    begin_execution_record, plan_after_runtime_response, record_execution_outcome, ExecutionCounters,
    ExecutionPublicStatus, ExecutionRecords, ExecutionResponse, InvocationPlan, WorkItemView,
};
use spear_exec::runtime::{ExecutionMode, ExecutionStatus, RuntimeExecutionError, RuntimeExecutionResponse};

fn zero() -> ExecutionCounters {
    ExecutionCounters {
        total_executions: 0,
        successful_executions: 0,
        failed_executions: 0,
        total_execution_time_ms: 0,
        running_executions: 0,
        completed_executions: 0,
    }
}

fn item(task: &str) -> WorkItemView {
    WorkItemView {
        execution_id: "e1".to_string(),
        invocation_id: "i1".to_string(),
        task_id: task.to_string(),
        function_name: "main".to_string(),
    }
}

fn response(status: &str, err: Option<&str>) -> ExecutionResponse {
    ExecutionResponse {
        execution_id: "e1".to_string(),
        invocation_id: "i1".to_string(),
        task_id: "t1".to_string(),
        function_name: "main".to_string(),
        instance_id: "inst-1".to_string(),
        output_data: b"out".to_vec(),
        status: status.to_string(),
        error_message: err.map(|s| s.to_string()),
        execution_time_ms: 12,
        metadata: vec![("k".to_string(), "v".to_string())],
        timestamp_ms: 99,
    }
}

fn meta(v: &[(String, String)], k: &str) -> Option<String> {
    v.iter().find(|(a, _)| a == k).map(|(_, b)| b.clone())
}

fn record<'a>(r: &'a ExecutionRecords, id: &str) -> Option<&'a ExecutionResponse> {
    r.records.iter().find(|(k, _)| k == id).map(|(_, v)| v)
}

#[test]
fn public_status_texts() {
    assert_eq!(ExecutionPublicStatus::from_public_str("completed"), ExecutionPublicStatus::Completed);
    assert!(ExecutionPublicStatus::from_public_str("cancelled").is_terminal());
    assert!(!ExecutionPublicStatus::from_public_str("running").is_terminal());
    assert_eq!(ExecutionPublicStatus::from_public_str("weird"), ExecutionPublicStatus::Unknown);
    assert!(response("completed", None).is_successful());
    assert!(!response("completed", Some("x")).is_successful());
    assert!(response("failed", None).is_completed());
}

#[test]
fn an_execution_starts_running() {
    let mut stats = zero();
    let mut records = ExecutionRecords::new();
    begin_execution_record(&mut stats, &mut records, &item("t1"), 5);
    assert_eq!(stats.total_executions, 1);
    assert_eq!(stats.running_executions, 1);
    let r = record(&records, "e1").unwrap();
    assert_eq!(r.status, "running");
    assert_eq!(r.timestamp_ms, 5);
    assert_eq!(r.task_id, "t1");

    // A known record keeps its fields and becomes running again.
    records.put("e1".to_string(), response("completed", None));
    begin_execution_record(&mut stats, &mut records, &item("t1"), 8);
    let r = record(&records, "e1").unwrap();
    assert_eq!(r.status, "running");
    assert_eq!(r.instance_id, "inst-1");
    assert_eq!(r.timestamp_ms, 8);
    assert_eq!(records.records.len(), 1);
}

#[test]
fn a_completed_execution_is_recorded_and_reported() {
    let mut stats = zero();
    let mut records = ExecutionRecords::new();
    begin_execution_record(&mut stats, &mut records, &item("t1"), 5);
    let outcome = Ok(response("completed", None));
    let rep = record_execution_outcome(&mut stats, &mut records, &item("t1"), &outcome, 30, 40, 1700).unwrap();
    assert_eq!(stats.running_executions, 0);
    assert_eq!(stats.completed_executions, 1);
    assert_eq!(stats.successful_executions, 1);
    assert_eq!(stats.failed_executions, 0);
    assert_eq!(stats.total_execution_time_ms, 30);
    assert_eq!(record(&records, "e1").unwrap().status, "completed");
    assert_eq!(rep.task_id, "t1");
    assert_eq!(rep.status, "completed");
    assert_eq!(rep.completed_at, 1700);
    assert_eq!(meta(&rep.metadata, "execution_time_ms").as_deref(), Some("12"));
    assert_eq!(meta(&rep.metadata, "execution_id").as_deref(), Some("e1"));
    assert_eq!(meta(&rep.metadata, "k").as_deref(), Some("v"));
    assert!(meta(&rep.metadata, "error_message").is_none());
}

#[test]
fn an_error_is_recorded_as_failed_and_reported() {
    let mut stats = zero();
    let mut records = ExecutionRecords::new();
    records.put("e1".to_string(), response("running", None));
    let outcome: Result<ExecutionResponse, ExecutionError> = Err(ExecutionError::ExecutionTimeout { timeout_ms: 7 });
    let rep = record_execution_outcome(&mut stats, &mut records, &item("t1"), &outcome, 30, 40, 1700).unwrap();
    assert_eq!(stats.failed_executions, 1);
    assert_eq!(stats.running_executions, 0);
    let r = record(&records, "e1").unwrap();
    assert_eq!(r.status, "timeout");
    assert_eq!(r.instance_id, "inst-1");
    assert_eq!(r.error_message.as_deref(), Some("Execution timeout: 7ms"));
    assert_eq!(rep.status, "timeout");
    assert_eq!(meta(&rep.metadata, "execution_time_ms").as_deref(), Some("30"));
    assert_eq!(meta(&rep.metadata, "error_message").as_deref(), Some("Execution timeout: 7ms"));

    // No task id: no report.
    let none = record_execution_outcome(&mut stats, &mut records, &item(""), &outcome, 1, 2, 3);
    assert!(none.is_none());
    // A running response: recorded, not reported.
    let running = Ok(response("running", None));
    assert!(record_execution_outcome(&mut stats, &mut records, &item("t1"), &running, 1, 2, 3).is_none());
}

#[test]
fn runtime_answers_are_followed_or_finished() {
    let mut running = RuntimeExecutionResponse::new_sync("e1".to_string(), vec![], 3);
    running.execution_status = ExecutionStatus::Running;
    running.execution_mode = ExecutionMode::Async;
    assert!(matches!(plan_after_runtime_response(&running), InvocationPlan::TrackInflight));

    let done = RuntimeExecutionResponse::new_sync("e1".to_string(), vec![1], 9);
    match plan_after_runtime_response(&done) {
        InvocationPlan::Finalize { successful, failed, error_message, duration_ms } => {
            assert!(successful);
            assert!(!failed);
            assert!(error_message.is_none());
            assert_eq!(duration_ms, 9);
        }
        other => panic!("unexpected {:?}", other),
    }

    let failed = RuntimeExecutionResponse::new_failed(
        "e1".to_string(),
        ExecutionMode::Sync,
        RuntimeExecutionError::RuntimeError { message: "boom".to_string() },
        4,
    );
    match plan_after_runtime_response(&failed) {
        InvocationPlan::Finalize { successful, failed, error_message, .. } => {
            assert!(!successful);
            assert!(failed);
            assert_eq!(error_message.as_deref(), Some("boom"));
        }
        other => panic!("unexpected {:?}", other),
    }
}

#[test]
fn executions_are_listed_newest_first() {
    let mut records = ExecutionRecords::new();
    let mk = |id: &str, task: &str, ts: u64| {
        let mut r = response("completed", None);
        r.execution_id = id.to_string();
        r.task_id = task.to_string();
        r.timestamp_ms = ts;
        r
    };
    records.put("a".to_string(), mk("a", "t1", 10));
    records.put("b".to_string(), mk("b", "t2", 30));
    records.put("c".to_string(), mk("c", "t1", 20));
    records.put("d".to_string(), mk("d", "t1", 20));
    let ids = |v: Vec<ExecutionResponse>| v.into_iter().map(|r| r.execution_id).collect::<Vec<_>>();
    assert_eq!(ids(records.list_executions(None, None, 0)), vec!["b", "c", "d", "a"]);
    assert_eq!(ids(records.list_executions(Some("t1"), None, 0)), vec!["c", "d", "a"]);
    assert_eq!(ids(records.list_executions(Some("t1"), None, 2)), vec!["c", "d"]);
    assert_eq!(ids(records.list_executions(None, Some("i1"), 1)), vec!["b"]);
    assert!(records.list_executions(Some("none"), None, 5).is_empty());
}
