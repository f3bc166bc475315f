use node_monitor::registry::{MetricsOutcome, Registry};

#[test]
fn sweep_removes_only_stale_jobs() {
    let mut reg = Registry::new();
    let fresh = String::from("fresh");
    let stale = String::from("stale");
    reg.register(stale.clone(), 2, 2, String::from("/tmp/stale.log"), 100);
    reg.register(fresh.clone(), 2, 2, String::from("/tmp/fresh.log"), 250);
    // At 281: stale is 181s old (> 180), fresh is 31s old.
    let swept = reg.sweep(281);
    assert_eq!(swept.len(), 1);
    assert_eq!(swept[0].job_id, "stale");
    assert_eq!(swept[0].elapsed_secs, 181);
    assert_eq!(swept[0].log_path, "/tmp/stale.log");
    assert!(!reg.contains_job(&stale));
    assert!(reg.contains_job(&fresh));
}

#[test]
fn sweep_boundary_is_strict() {
    // Exactly 180 seconds of silence is not yet stale.
    let mut reg = Registry::new();
    let id = String::from("j");
    reg.register(id.clone(), 2, 2, String::from("/tmp/j.log"), 1000);
    let swept = reg.sweep(1180);
    assert!(swept.is_empty());
    assert!(reg.contains_job(&id));
    let swept = reg.sweep(1181);
    assert_eq!(swept.len(), 1);
    assert!(swept[0].elapsed_secs >= 180);
    assert!(!reg.contains_job(&id));
}

#[test]
fn any_metrics_message_resets_heartbeat() {
    // Even a message discarded by the buffer period refreshes the
    // heartbeat clock.
    let mut reg = Registry::new();
    let id = String::from("j");
    reg.register(id.clone(), 2, 2, String::from("/tmp/j.log"), 1000);
    match reg.record_metrics(&id, 5000, 5000, 5000, 1100) {
        MetricsOutcome::NoAction => {}
        _ => panic!("first message lies within the buffer period"),
    }
    // 180s after the message: kept; 181s after: swept.
    assert!(reg.sweep(1280).is_empty());
    assert!(reg.contains_job(&id));
    let swept = reg.sweep(1281);
    assert_eq!(swept.len(), 1);
    assert_eq!(swept[0].elapsed_secs, 181);
}

#[test]
fn registered_job_with_no_metrics_is_swept() {
    let mut reg = Registry::new();
    let id = String::from("silent");
    reg.register(id.clone(), 2, 2, String::from("/tmp/silent.log"), 0);
    let swept = reg.sweep(200);
    assert_eq!(swept.len(), 1);
    assert_eq!(swept[0].job_id, "silent");
    assert!(swept[0].elapsed_secs >= 180);
    assert!(!reg.contains_job(&id));
    // A second sweep finds nothing: removal happened exactly once.
    assert!(reg.sweep(400).is_empty());
}
