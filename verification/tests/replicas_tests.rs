use spear_exec::replicas::{plan_replicas, InstanceView, ReplicaPlan};

fn inst(id: &str, busy: bool, created: u64) -> InstanceView {
    InstanceView { id: id.to_string(), busy, created_at_ms: created }
}

#[test]
fn missing_replicas_are_created() {
    let v = vec![inst("a", false, 1)];
    assert!(matches!(plan_replicas(&v, 3), ReplicaPlan::Create(2)));
    assert!(matches!(plan_replicas(&v, 1), ReplicaPlan::Keep));
}

#[test]
fn surplus_is_drained_idle_first_then_oldest() {
    let v = vec![inst("busy-old", true, 1), inst("idle-new", false, 9), inst("idle-old", false, 3), inst("busy-new", true, 7)];
    match plan_replicas(&v, 1) {
        ReplicaPlan::Drain(ids) => assert_eq!(ids, vec!["idle-old", "idle-new", "busy-old"]),
        other => panic!("unexpected {:?}", other),
    }
    match plan_replicas(&v, 0) {
        ReplicaPlan::Drain(ids) => assert_eq!(ids, vec!["idle-old", "idle-new", "busy-old", "busy-new"]),
        other => panic!("unexpected {:?}", other),
    }
}
