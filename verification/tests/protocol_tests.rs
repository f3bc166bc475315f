use node_monitor::job::EvictSignal;
use node_monitor::protocol::{
    connection_step, CancelPayload, Directive, LineEvent, Message, MetricsPayload,
    RegisterPayload,
};
use node_monitor::registry::Registry;

fn register_event(job_id: &str, gpu: usize, cpu: usize) -> LineEvent {
    LineEvent::Msg(Message::Register(RegisterPayload {
        job_id: String::from(job_id),
        gpu_monitor_count: gpu,
        cpu_monitor_count: cpu,
        log_path: String::from("/tmp/job.log"),
    }))
}

fn metrics_event(job_id: &str, gpu: u64, mem: u64, cpu: u64) -> LineEvent {
    LineEvent::Msg(Message::Metrics(MetricsPayload {
        job_id: String::from(job_id),
        gpu_utilization: gpu,
        gpu_memory_utilization: mem,
        cpu_utilization: cpu,
    }))
}

#[test]
fn blank_and_malformed_lines_keep_the_connection_open() {
    let mut reg = Registry::new();
    let d = connection_step(&mut reg, LineEvent::Empty, true, 0);
    assert!(matches!(d, Directive::Continue));
    assert!(!d.closes_connection());
    let d = connection_step(&mut reg, LineEvent::Malformed, true, 0);
    assert!(matches!(d, Directive::Continue));
    assert!(!d.closes_connection());
}

#[test]
fn register_acknowledges_and_keeps_the_connection_open() {
    let mut reg = Registry::new();
    let d = connection_step(&mut reg, register_event("7", 2, 2), true, 500);
    assert!(matches!(d, Directive::AckRegister));
    assert!(!d.closes_connection());
    assert!(reg.contains_job(&String::from("7")));
}

#[test]
fn register_without_log_sink_inserts_nothing() {
    let mut reg = Registry::new();
    let d = connection_step(&mut reg, register_event("7", 2, 2), false, 500);
    assert!(matches!(d, Directive::ContinueNoAck));
    assert!(!d.closes_connection());
    assert!(!reg.contains_job(&String::from("7")));
}

#[test]
fn metrics_for_unknown_job_keeps_the_connection_open() {
    let mut reg = Registry::new();
    let d = connection_step(&mut reg, metrics_event("ghost", 0, 0, 0), true, 1);
    assert!(matches!(d, Directive::Continue));
}

#[test]
fn evicting_metrics_closes_the_connection() {
    let mut reg = Registry::new();
    connection_step(&mut reg, register_event("7", 1, 1), true, 0);
    let mut now = 0;
    for _ in 0..30 {
        now += 1;
        let d = connection_step(&mut reg, metrics_event("7", 9000, 9000, 9000), true, now);
        assert!(matches!(d, Directive::Continue));
    }
    let d = connection_step(&mut reg, metrics_event("7", 0, 9000, 9000), true, now + 1);
    match &d {
        Directive::EvictAndClose { job_id, signal, mean, log_path } => {
            assert_eq!(job_id, "7");
            assert_eq!(*signal, EvictSignal::GpuUtilization);
            assert_eq!(*mean, 0);
            assert_eq!(log_path, "/tmp/job.log");
        }
        _ => panic!("expected EvictAndClose"),
    }
    assert!(d.closes_connection());
    assert!(!reg.contains_job(&String::from("7")));
}

#[test]
fn cancel_closes_the_connection_either_way() {
    let mut reg = Registry::new();
    connection_step(&mut reg, register_event("7", 2, 2), true, 0);
    let cancel = LineEvent::Msg(Message::Cancel(CancelPayload { job_id: String::from("7") }));
    let d = connection_step(&mut reg, cancel, true, 1);
    match &d {
        Directive::CancelClose { cancelled_log } => {
            assert_eq!(cancelled_log.as_deref(), Some("/tmp/job.log"));
        }
        _ => panic!("expected CancelClose"),
    }
    assert!(d.closes_connection());
    assert!(!reg.contains_job(&String::from("7")));

    let cancel = LineEvent::Msg(Message::Cancel(CancelPayload { job_id: String::from("7") }));
    let d = connection_step(&mut reg, cancel, true, 2);
    match &d {
        Directive::CancelClose { cancelled_log } => assert!(cancelled_log.is_none()),
        _ => panic!("expected CancelClose"),
    }
    assert!(d.closes_connection());
}

#[test]
fn derived_debug_counts_never_evict() {
    // A job registered with the capacities a debug partition derives gets
    // effectively unbounded windows: idle metrics never evict it.
    let (gpu, cpu) = node_monitor::counts::derive_monitor_counts("debug", None);
    let mut reg = Registry::new();
    let d = connection_step(&mut reg, register_event("d1", gpu as usize, cpu as usize), true, 0);
    assert!(matches!(d, Directive::AckRegister));
    for i in 0..200u64 {
        let d = connection_step(&mut reg, metrics_event("d1", 0, 0, 0), true, i + 1);
        assert!(matches!(d, Directive::Continue));
    }
    assert!(reg.contains_job(&String::from("d1")));
}
