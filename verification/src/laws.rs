//! The eviction policy's guarantees, proved once and for all over the
//! policy's mathematical description.

use vstd::prelude::*;
use vstd::arithmetic::div_mod::{lemma_fundamental_div_mod, lemma_mod_bound};
use vstd::arithmetic::mul::lemma_mul_inequality;
use crate::job::{JobView, EvictSignal, metrics_step, evaluate_signals, bump};
use crate::window::{push_window, window_breaches, window_sum, window_mean,
    lemma_window_sum_nonneg};
use crate::{BUFFER_PERIOD, GPU_UTILIZATION_THRESHOLD, GPU_MEMORY_UTILIZATION_THRESHOLD,
    CPU_UTILIZATION_THRESHOLD};

verus! {

/// A job still within its buffer period never breaches, whatever the sample
/// values: the message only refreshes the heartbeat and the count, and no
/// window is touched.
pub proof fn lemma_buffer_period_discards(j: JobView, gpu: u64, mem: u64, cpu: u64, now: u64)
    requires
        j.metrics_received < BUFFER_PERIOD,
    ensures
        metrics_step(j, gpu, mem, cpu, now).breach is None,
        metrics_step(j, gpu, mem, cpu, now).state.gpu_window == j.gpu_window,
        metrics_step(j, gpu, mem, cpu, now).state.gpu_memory_window == j.gpu_memory_window,
        metrics_step(j, gpu, mem, cpu, now).state.cpu_window == j.cpu_window,
        metrics_step(j, gpu, mem, cpu, now).state.metrics_received == j.metrics_received + 1,
{
}

/// A signal is evaluated only against a full window: a breach requires the
/// window to hold exactly its configured (non-zero) number of samples.
pub proof fn lemma_eviction_needs_full_window(w: Seq<u64>, cap: nat, threshold: u64)
    ensures
        window_breaches(w, cap, threshold) ==> w.len() == cap && cap > 0,
{
}

/// The windows slide strictly FIFO: below capacity a push only appends;
/// at capacity the oldest sample is dropped and the new one appended, so the
/// window always holds the most recent samples in arrival order.
pub proof fn lemma_window_slides_fifo(w: Seq<u64>, cap: nat, x: u64)
    requires
        w.len() <= cap,
    ensures
        w.len() < cap ==> push_window(w, cap, x) == w.push(x),
        w.len() == cap && cap > 0 ==> push_window(w, cap, x) == w.drop_first().push(x),
{
    if w.len() == cap && cap > 0 {
        assert(w.push(x).drop_first() =~= w.drop_first().push(x));
    }
}

/// The threshold boundary is exclusive on the low side: a full window whose
/// mean is exactly the threshold, or above it, never breaches; one strictly
/// below always does.
pub proof fn lemma_threshold_boundary(w: Seq<u64>, cap: nat, threshold: u64, m: int)
    requires
        cap > 0,
        w.len() == cap,
        window_sum(w) == m * cap,
    ensures
        window_breaches(w, cap, threshold) <==> m < threshold,
{
    assert(m * cap < threshold * cap <==> m < threshold) by (nonlinear_arith)
        requires
            cap > 0,
    ;
}

/// The same boundary over the rounded-down mean that an eviction reports:
/// a full window breaches exactly when that mean is strictly below the
/// threshold.
pub proof fn lemma_breach_iff_mean_below(w: Seq<u64>, cap: nat, threshold: u64)
    requires
        cap > 0,
        w.len() == cap,
    ensures
        window_breaches(w, cap, threshold) <==> window_mean(w) < threshold,
{
    let s = window_sum(w);
    let l = cap as int;
    lemma_window_sum_nonneg(w);
    lemma_fundamental_div_mod(s, l);
    lemma_mod_bound(s, l);
    assert(l * (s / l) == (s / l) * l) by (nonlinear_arith);
    assert((s / l + 1) * l == (s / l) * l + l) by (nonlinear_arith);
    if s < threshold * l {
        if s / l >= threshold {
            lemma_mul_inequality(threshold as int, s / l, l);
            assert(threshold * l <= (s / l) * l);
            assert(s >= (s / l) * l);
        }
    }
    if s / l < threshold {
        lemma_mul_inequality(s / l + 1, threshold as int, l);
        assert(s < (s / l + 1) * l);
        assert((s / l + 1) * l <= threshold * l);
    }
}

/// Signals are evaluated in the fixed order GPU utilization, GPU memory,
/// CPU, and the first breach stops the evaluation: a GPU utilization breach
/// leaves the GPU memory and CPU windows untouched, and a GPU memory breach
/// leaves the CPU window untouched.
pub proof fn lemma_first_breach_stops(j: JobView, gpu: u64, mem: u64, cpu: u64)
    requires
        j.gpu_monitor_count > 0,
    ensures
        ({
            let w = push_window(j.gpu_window, j.gpu_monitor_count, gpu);
            window_breaches(w, j.gpu_monitor_count, GPU_UTILIZATION_THRESHOLD) ==> {
                let s = evaluate_signals(j, gpu, mem, cpu);
                &&& s.breach == Some(EvictSignal::GpuUtilization)
                &&& s.state.gpu_memory_window == j.gpu_memory_window
                &&& s.state.cpu_window == j.cpu_window
            }
        }),
        ({
            let w = push_window(j.gpu_window, j.gpu_monitor_count, gpu);
            let wm = push_window(j.gpu_memory_window, j.gpu_monitor_count, mem);
            !window_breaches(w, j.gpu_monitor_count, GPU_UTILIZATION_THRESHOLD)
                && window_breaches(wm, j.gpu_monitor_count, GPU_MEMORY_UTILIZATION_THRESHOLD)
                ==> {
                let s = evaluate_signals(j, gpu, mem, cpu);
                &&& s.breach == Some(EvictSignal::GpuMemory)
                &&& s.state.cpu_window == j.cpu_window
            }
        }),
{
}

/// A signal whose configured window size is 0 is skipped outright and can
/// never be the breached signal.
pub proof fn lemma_disabled_signal_never_breaches(
    j: JobView,
    gpu: u64,
    mem: u64,
    cpu: u64,
    now: u64,
)
    ensures
        j.gpu_monitor_count == 0 ==> metrics_step(j, gpu, mem, cpu, now).breach != Some(
            EvictSignal::GpuUtilization,
        ) && metrics_step(j, gpu, mem, cpu, now).breach != Some(EvictSignal::GpuMemory),
        j.cpu_monitor_count == 0 ==> metrics_step(j, gpu, mem, cpu, now).breach != Some(
            EvictSignal::CpuUtilization,
        ),
        j.gpu_monitor_count == 0 && j.cpu_monitor_count == 0 ==> metrics_step(
            j,
            gpu,
            mem,
            cpu,
            now,
        ).breach is None,
{
}

/// Every Metrics message refreshes the job's heartbeat to the time of the
/// message, buffer period and breaches notwithstanding.
pub proof fn lemma_heartbeat_refreshed(j: JobView, gpu: u64, mem: u64, cpu: u64, now: u64)
    ensures
        metrics_step(j, gpu, mem, cpu, now).state.last_heartbeat == now,
{
}

/// Every Metrics message is counted exactly once, so the count after a run
/// of messages equals the number of messages received.
pub proof fn lemma_metrics_counted(j: JobView, gpu: u64, mem: u64, cpu: u64, now: u64)
    requires
        j.metrics_received < u64::MAX,
    ensures
        metrics_step(j, gpu, mem, cpu, now).state.metrics_received == j.metrics_received + 1,
{
}

/// After the buffer period, the message's sample always enters the window
/// of the first enabled signal in evaluation order.
pub proof fn lemma_sample_recorded(j: JobView, gpu: u64, mem: u64, cpu: u64, now: u64)
    requires
        bump(j, now).metrics_received > BUFFER_PERIOD,
    ensures
        j.gpu_monitor_count > 0 ==> metrics_step(j, gpu, mem, cpu, now).state.gpu_window
            == push_window(j.gpu_window, j.gpu_monitor_count, gpu),
{
}

} // verus!
