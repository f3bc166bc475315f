//! Per-job state and the metrics-evaluation policy.
//!
//! A `JobState` is created by a Register message, mutated only by Metrics
//! messages, and destroyed by Cancel, by a threshold breach, or by the
//! heartbeat sweeper. `metrics_step` is the mathematical description of what
//! one Metrics message does to a job: refresh the heartbeat, count the
//! message, and — after the buffer period — evaluate the signals in fixed
//! priority order (GPU utilization, then GPU memory, then CPU), stopping at
//! the first breach.

use vstd::prelude::*;
use crate::window::{push_window, window_breaches, window_mean, push_sample, breaches, mean_samples};
use crate::{BUFFER_PERIOD, GPU_UTILIZATION_THRESHOLD, GPU_MEMORY_UTILIZATION_THRESHOLD,
    CPU_UTILIZATION_THRESHOLD};

verus! {

/// Mutable state of one registered job. Samples are utilization percentages
/// in hundredths of a percent; windows hold the most recent samples, oldest
/// first.
pub struct JobState {
    pub job_id: String,
    pub last_heartbeat: u64,
    pub gpu_monitor_count: usize,
    pub cpu_monitor_count: usize,
    pub gpu_utilizations: Vec<u64>,
    pub gpu_memory_utilizations: Vec<u64>,
    pub cpu_utilizations: Vec<u64>,
    pub metrics_received: u64,
    pub log_path: String,
}

/// Mathematical model of a job's state, without its id (jobs are keyed by id
/// in the registry).
#[verifier::ext_equal]
pub ghost struct JobView {
    pub last_heartbeat: u64,
    pub gpu_monitor_count: nat,
    pub cpu_monitor_count: nat,
    pub gpu_window: Seq<u64>,
    pub gpu_memory_window: Seq<u64>,
    pub cpu_window: Seq<u64>,
    pub metrics_received: u64,
    pub log_path: Seq<char>,
}

impl JobView {
    /// No window ever holds more samples than its configured capacity.
    pub open spec fn wf(self) -> bool {
        &&& self.gpu_window.len() <= self.gpu_monitor_count
        &&& self.gpu_memory_window.len() <= self.gpu_monitor_count
        &&& self.cpu_window.len() <= self.cpu_monitor_count
    }
}

impl View for JobState {
    type V = JobView;

    open spec fn view(&self) -> JobView {
        JobView {
            last_heartbeat: self.last_heartbeat,
            gpu_monitor_count: self.gpu_monitor_count as nat,
            cpu_monitor_count: self.cpu_monitor_count as nat,
            gpu_window: self.gpu_utilizations@,
            gpu_memory_window: self.gpu_memory_utilizations@,
            cpu_window: self.cpu_utilizations@,
            metrics_received: self.metrics_received,
            log_path: self.log_path@,
        }
    }
}

/// The state of a job immediately after registration: empty windows, no
/// metrics received, heartbeat set to the registration time.
pub open spec fn fresh_job(
    gpu_monitor_count: nat,
    cpu_monitor_count: nat,
    log_path: Seq<char>,
    now: u64,
) -> JobView {
    JobView {
        last_heartbeat: now,
        gpu_monitor_count,
        cpu_monitor_count,
        gpu_window: Seq::empty(),
        gpu_memory_window: Seq::empty(),
        cpu_window: Seq::empty(),
        metrics_received: 0,
        log_path,
    }
}

/// The signal whose window breached its threshold, in evaluation order.
#[derive(Clone, Copy, PartialEq, Eq, Structural, Debug)]
pub enum EvictSignal {
    GpuUtilization,
    GpuMemory,
    CpuUtilization,
}

/// Result of evaluating one Metrics message against a job: the job's next
/// state and, if a threshold was breached, the first breached signal.
#[verifier::ext_equal]
pub ghost struct MetricsStep {
    pub state: JobView,
    pub breach: Option<EvictSignal>,
}

/// Heartbeat refresh and message count, applied to every Metrics message for
/// a known job, breach or not (the count saturates at the type's maximum).
pub open spec fn bump(j: JobView, now: u64) -> JobView {
    JobView {
        last_heartbeat: now,
        metrics_received: if j.metrics_received < u64::MAX {
            (j.metrics_received + 1) as u64
        } else {
            u64::MAX
        },
        ..j
    }
}

/// CPU phase: evaluated only if no earlier signal breached, and only when
/// CPU monitoring is enabled for the job.
pub open spec fn cpu_phase(j: JobView, cpu: u64) -> MetricsStep {
    if j.cpu_monitor_count > 0 {
        let w = push_window(j.cpu_window, j.cpu_monitor_count, cpu);
        let next = JobView { cpu_window: w, ..j };
        if window_breaches(w, j.cpu_monitor_count, CPU_UTILIZATION_THRESHOLD) {
            MetricsStep { state: next, breach: Some(EvictSignal::CpuUtilization) }
        } else {
            MetricsStep { state: next, breach: None }
        }
    } else {
        MetricsStep { state: j, breach: None }
    }
}

/// GPU memory phase: reached only when GPU monitoring is enabled and the GPU
/// utilization phase did not breach; shares the GPU window capacity.
pub open spec fn gpu_memory_phase(j: JobView, mem: u64, cpu: u64) -> MetricsStep {
    let w = push_window(j.gpu_memory_window, j.gpu_monitor_count, mem);
    let next = JobView { gpu_memory_window: w, ..j };
    if window_breaches(w, j.gpu_monitor_count, GPU_MEMORY_UTILIZATION_THRESHOLD) {
        MetricsStep { state: next, breach: Some(EvictSignal::GpuMemory) }
    } else {
        cpu_phase(next, cpu)
    }
}

/// Signal evaluation in fixed priority order — GPU utilization, GPU memory,
/// CPU — skipping signals whose capacity is 0; the first breach stops the
/// evaluation and later windows are left untouched.
pub open spec fn evaluate_signals(j: JobView, gpu: u64, mem: u64, cpu: u64) -> MetricsStep {
    if j.gpu_monitor_count > 0 {
        let w = push_window(j.gpu_window, j.gpu_monitor_count, gpu);
        let next = JobView { gpu_window: w, ..j };
        if window_breaches(w, j.gpu_monitor_count, GPU_UTILIZATION_THRESHOLD) {
            MetricsStep { state: next, breach: Some(EvictSignal::GpuUtilization) }
        } else {
            gpu_memory_phase(next, mem, cpu)
        }
    } else {
        cpu_phase(j, cpu)
    }
}

/// What one Metrics message does to a job: refresh the heartbeat, count the
/// message, and evaluate the signals — unless the job is still within its
/// buffer period, in which case the sample is discarded and nothing breaches.
pub open spec fn metrics_step(j: JobView, gpu: u64, mem: u64, cpu: u64, now: u64) -> MetricsStep {
    let b = bump(j, now);
    if b.metrics_received <= BUFFER_PERIOD {
        MetricsStep { state: b, breach: None }
    } else {
        evaluate_signals(b, gpu, mem, cpu)
    }
}

/// The window that produced the breach of a step, if any.
pub open spec fn breached_window(s: MetricsStep) -> Seq<u64> {
    match s.breach {
        Some(EvictSignal::GpuUtilization) => s.state.gpu_window,
        Some(EvictSignal::GpuMemory) => s.state.gpu_memory_window,
        Some(EvictSignal::CpuUtilization) => s.state.cpu_window,
        None => Seq::empty(),
    }
}

impl JobState {
    /// Applies one Metrics message to this job, exactly as `metrics_step`
    /// describes; on a breach, returns the breached signal and the mean of
    /// its window (hundredths of a percent, rounded toward zero).
    pub fn apply_metrics(&mut self, gpu: u64, mem: u64, cpu: u64, now: u64) -> (r: Option<
        (EvictSignal, u64),
    >)
        requires
            old(self)@.wf(),
        ensures
            final(self)@.wf(),
            final(self).job_id@ == old(self).job_id@,
            final(self)@ == metrics_step(old(self)@, gpu, mem, cpu, now).state,
            match r {
                None => metrics_step(old(self)@, gpu, mem, cpu, now).breach is None,
                Some((sig, mean)) => {
                    let step = metrics_step(old(self)@, gpu, mem, cpu, now);
                    &&& step.breach == Some(sig)
                    &&& mean == window_mean(breached_window(step))
                },
            },
    {
        self.last_heartbeat = now;
        self.metrics_received = self.metrics_received.saturating_add(1);
        if self.metrics_received <= BUFFER_PERIOD {
            return None;
        }
        let gpu_cap = self.gpu_monitor_count;
        if gpu_cap > 0 {
            push_sample(&mut self.gpu_utilizations, gpu_cap, gpu);
            if breaches(&self.gpu_utilizations, gpu_cap, GPU_UTILIZATION_THRESHOLD) {
                let mean = mean_samples(&self.gpu_utilizations);
                return Some((EvictSignal::GpuUtilization, mean));
            }
            push_sample(&mut self.gpu_memory_utilizations, gpu_cap, mem);
            if breaches(&self.gpu_memory_utilizations, gpu_cap, GPU_MEMORY_UTILIZATION_THRESHOLD) {
                let mean = mean_samples(&self.gpu_memory_utilizations);
                return Some((EvictSignal::GpuMemory, mean));
            }
        }
        let cpu_cap = self.cpu_monitor_count;
        if cpu_cap > 0 {
            push_sample(&mut self.cpu_utilizations, cpu_cap, cpu);
            if breaches(&self.cpu_utilizations, cpu_cap, CPU_UTILIZATION_THRESHOLD) {
                let mean = mean_samples(&self.cpu_utilizations);
                return Some((EvictSignal::CpuUtilization, mean));
            }
        }
        None
    }
}

} // verus!
