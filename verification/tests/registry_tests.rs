use node_monitor::job::EvictSignal;
use node_monitor::registry::{MetricsOutcome, Registry};

fn reg_with_job(gpu_count: usize, cpu_count: usize) -> (Registry, String) {
    let mut reg = Registry::new();
    let id = String::from("42");
    reg.register(
        id.clone(),
        gpu_count,
        cpu_count,
        String::from("/tmp/job42.log"),
        1000,
    );
    (reg, id)
}

/// Feeds `n` Metrics messages with the given sample values, starting at
/// time `start`, one second apart; panics if any of them evicts.
fn feed(reg: &mut Registry, id: &String, n: u64, gpu: u64, mem: u64, cpu: u64, start: u64) -> u64 {
    let mut now = start;
    for _ in 0..n {
        now += 1;
        match reg.record_metrics(id, gpu, mem, cpu, now) {
            MetricsOutcome::NoAction => {}
            MetricsOutcome::UnknownJob => panic!("job disappeared"),
            MetricsOutcome::Evict(e) => panic!("unexpected eviction: {:?}", e.signal),
        }
    }
    now
}

#[test]
fn register_starts_fresh() {
    let (reg, id) = reg_with_job(2, 3);
    let snap = reg.job_snapshot(&id).expect("job must be registered");
    assert_eq!(snap.gpu_monitor_count, 2);
    assert_eq!(snap.cpu_monitor_count, 3);
    assert_eq!(snap.metrics_received, 0);
    assert_eq!(snap.last_heartbeat, 1000);
    assert!(snap.gpu_utilizations.is_empty());
    assert!(snap.gpu_memory_utilizations.is_empty());
    assert!(snap.cpu_utilizations.is_empty());
    assert_eq!(snap.log_path, "/tmp/job42.log");
}

#[test]
fn register_overwrites_previous_entry() {
    let (mut reg, id) = reg_with_job(2, 2);
    feed(&mut reg, &id, 5, 0, 0, 0, 1000);
    reg.register(id.clone(), 7, 8, String::from("/tmp/other.log"), 2000);
    let snap = reg.job_snapshot(&id).expect("job must be registered");
    assert_eq!(snap.gpu_monitor_count, 7);
    assert_eq!(snap.cpu_monitor_count, 8);
    assert_eq!(snap.metrics_received, 0);
    assert_eq!(snap.log_path, "/tmp/other.log");
}

#[test]
fn buffer_period_never_evicts() {
    // Window size 1 and hopeless utilization: still no eviction for the
    // first 30 messages.
    let (mut reg, id) = reg_with_job(1, 1);
    feed(&mut reg, &id, 30, 0, 0, 0, 1000);
    assert!(reg.contains_job(&id));
    let snap = reg.job_snapshot(&id).unwrap();
    assert_eq!(snap.metrics_received, 30);
    assert!(snap.gpu_utilizations.is_empty());
    // The 31st message is evaluated and breaches at once.
    match reg.record_metrics(&id, 0, 0, 0, 1031) {
        MetricsOutcome::Evict(e) => assert_eq!(e.signal, EvictSignal::GpuUtilization),
        other => panic!("expected eviction, got {:?}", kind(&other)),
    }
    assert!(!reg.contains_job(&id));
}

fn kind(o: &MetricsOutcome) -> &'static str {
    match o {
        MetricsOutcome::UnknownJob => "UnknownJob",
        MetricsOutcome::NoAction => "NoAction",
        MetricsOutcome::Evict(_) => "Evict",
    }
}

#[test]
fn window_fills_before_evaluation() {
    // Capacity 3: low samples accumulate without eviction until the window
    // holds exactly 3 samples.
    let (mut reg, id) = reg_with_job(3, 0);
    feed(&mut reg, &id, 30, 9000, 9000, 9000, 1000);
    // Two low samples: window not yet full, no eviction.
    feed(&mut reg, &id, 2, 0, 9000, 9000, 1030);
    let snap = reg.job_snapshot(&id).unwrap();
    assert_eq!(snap.gpu_utilizations, vec![0, 0]);
    // Third low sample fills the window and breaches.
    match reg.record_metrics(&id, 0, 9000, 9000, 1033) {
        MetricsOutcome::Evict(e) => {
            assert_eq!(e.signal, EvictSignal::GpuUtilization);
            assert_eq!(e.mean, 0);
        }
        other => panic!("expected eviction, got {:?}", kind(&other)),
    }
}

#[test]
fn window_slides_fifo() {
    // Capacity 2: the oldest sample drops out, so two high samples after a
    // low one leave a clean window.
    let (mut reg, id) = reg_with_job(2, 0);
    feed(&mut reg, &id, 30, 9000, 9000, 9000, 1000);
    feed(&mut reg, &id, 1, 9000, 9000, 9000, 1030);
    feed(&mut reg, &id, 1, 8000, 9000, 9000, 1031);
    let snap = reg.job_snapshot(&id).unwrap();
    assert_eq!(snap.gpu_utilizations, vec![9000, 8000]);
    feed(&mut reg, &id, 1, 7000, 9000, 9000, 1032);
    let snap = reg.job_snapshot(&id).unwrap();
    assert_eq!(snap.gpu_utilizations, vec![8000, 7000]);
}

#[test]
fn threshold_boundary_is_exclusive() {
    // CPU-only job, window size 1, threshold 50.00%: a mean exactly at the
    // threshold survives, one hundredth below evicts.
    let (mut reg, id) = reg_with_job(0, 1);
    feed(&mut reg, &id, 30, 0, 0, 0, 1000);
    match reg.record_metrics(&id, 0, 0, 5000, 1031) {
        MetricsOutcome::NoAction => {}
        other => panic!("mean at threshold must not evict, got {:?}", kind(&other)),
    }
    match reg.record_metrics(&id, 0, 0, 4999, 1032) {
        MetricsOutcome::Evict(e) => {
            assert_eq!(e.signal, EvictSignal::CpuUtilization);
            assert_eq!(e.mean, 4999);
        }
        other => panic!("mean below threshold must evict, got {:?}", kind(&other)),
    }
}

#[test]
fn first_breach_wins_gpu_before_cpu() {
    // Window size 1 everywhere and every signal hopeless: the reason is the
    // first signal in evaluation order, GPU utilization.
    let (mut reg, id) = reg_with_job(1, 1);
    feed(&mut reg, &id, 30, 9000, 9000, 9000, 1000);
    match reg.record_metrics(&id, 0, 0, 0, 1031) {
        MetricsOutcome::Evict(e) => assert_eq!(e.signal, EvictSignal::GpuUtilization),
        other => panic!("expected eviction, got {:?}", kind(&other)),
    }
}

#[test]
fn first_breach_wins_memory_before_cpu() {
    // GPU utilization healthy, GPU memory and CPU hopeless: GPU memory is
    // reported, not CPU.
    let (mut reg, id) = reg_with_job(1, 1);
    feed(&mut reg, &id, 30, 9000, 9000, 9000, 1000);
    match reg.record_metrics(&id, 9000, 0, 0, 1031) {
        MetricsOutcome::Evict(e) => assert_eq!(e.signal, EvictSignal::GpuMemory),
        other => panic!("expected eviction, got {:?}", kind(&other)),
    }
}

#[test]
fn disabled_signals_never_evict() {
    // Both capacities 0: no amount of idle metrics evicts.
    let (mut reg, id) = reg_with_job(0, 0);
    feed(&mut reg, &id, 100, 0, 0, 0, 1000);
    assert!(reg.contains_job(&id));
    let snap = reg.job_snapshot(&id).unwrap();
    assert_eq!(snap.metrics_received, 100);
}

#[test]
fn cancel_removes_and_reports_log_path() {
    let (mut reg, id) = reg_with_job(2, 2);
    let log = reg.cancel(&id);
    assert_eq!(log, Some(String::from("/tmp/job42.log")));
    assert!(!reg.contains_job(&id));
    // A second cancel is a no-op, not an error.
    assert_eq!(reg.cancel(&id), None);
}

#[test]
fn cancel_unknown_is_noop() {
    let mut reg = Registry::new();
    assert_eq!(reg.cancel(&String::from("nope")), None);
}

#[test]
fn metrics_for_unknown_job_change_nothing() {
    let (mut reg, id) = reg_with_job(1, 1);
    let other = String::from("other");
    match reg.record_metrics(&other, 0, 0, 0, 1001) {
        MetricsOutcome::UnknownJob => {}
        o => panic!("expected UnknownJob, got {:?}", kind(&o)),
    }
    assert!(reg.contains_job(&id));
    assert_eq!(reg.job_snapshot(&id).unwrap().metrics_received, 0);
}

#[test]
fn metrics_received_counts_every_message() {
    let (mut reg, id) = reg_with_job(0, 0);
    feed(&mut reg, &id, 50, 1234, 5678, 9012, 1000);
    assert_eq!(reg.job_snapshot(&id).unwrap().metrics_received, 50);
}

#[test]
fn metrics_for_one_job_leave_others_alone() {
    let mut reg = Registry::new();
    let a = String::from("a");
    let b = String::from("b");
    reg.register(a.clone(), 0, 0, String::from("/tmp/a.log"), 1000);
    reg.register(b.clone(), 0, 0, String::from("/tmp/b.log"), 1000);
    feed(&mut reg, &a, 3, 0, 0, 0, 1000);
    assert_eq!(reg.job_snapshot(&a).unwrap().metrics_received, 3);
    assert_eq!(reg.job_snapshot(&b).unwrap().metrics_received, 0);
    assert_eq!(reg.job_snapshot(&b).unwrap().last_heartbeat, 1000);
}

#[test]
fn survives_then_evicts_on_gpu_drop() {
    // Register with both capacities 2, send 32 healthy Metrics (2 past the
    // buffer), then one with a collapsed GPU sample: the mean 45.00% falls
    // below the 70% threshold and the job is evicted.
    let (mut reg, id) = reg_with_job(2, 2);
    let now = feed(&mut reg, &id, 32, 8000, 8000, 8000, 1000);
    let snap = reg.job_snapshot(&id).unwrap();
    assert_eq!(snap.gpu_utilizations, vec![8000, 8000]);
    assert_eq!(snap.gpu_memory_utilizations, vec![8000, 8000]);
    assert_eq!(snap.cpu_utilizations, vec![8000, 8000]);
    assert_eq!(snap.metrics_received, 32);
    match reg.record_metrics(&id, 1000, 8000, 8000, now + 1) {
        MetricsOutcome::Evict(e) => {
            assert_eq!(e.signal, EvictSignal::GpuUtilization);
            assert_eq!(e.mean, 4500);
            assert_eq!(e.log_path, "/tmp/job42.log");
        }
        other => panic!("expected eviction, got {:?}", kind(&other)),
    }
    assert!(!reg.contains_job(&id));
}
