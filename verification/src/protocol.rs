//! The line protocol's message shapes and the per-connection decision step.
//!
//! Each connection carries newline-delimited frames. The surrounding loop
//! reads one line, decodes it into a `LineEvent`, and asks `connection_step`
//! what to do; the step mutates the registry and hands back a `Directive`
//! naming the I/O to perform afterwards and whether the connection closes.
//! Only a successful Cancel and an eviction-producing Metrics close the
//! connection from this side; a Register never does, and a malformed line
//! only skips to the next one.

use vstd::prelude::*;
use crate::job::{EvictSignal, fresh_job, metrics_step, breached_window};
use crate::registry::{Registry, MetricsOutcome};
use crate::window::window_mean;

verus! {

/// Payload of a Register message: the job's id, its two window capacities
/// (0 disables the signal), and the destination of its audit log.
pub struct RegisterPayload {
    pub job_id: String,
    pub gpu_monitor_count: usize,
    pub cpu_monitor_count: usize,
    pub log_path: String,
}

/// Payload of a Metrics message: one utilization sample per signal, in
/// hundredths of a percent.
pub struct MetricsPayload {
    pub job_id: String,
    pub gpu_utilization: u64,
    pub gpu_memory_utilization: u64,
    pub cpu_utilization: u64,
}

/// Payload of a Cancel message.
pub struct CancelPayload {
    pub job_id: String,
}

/// The three tagged message shapes of the wire protocol.
pub enum Message {
    Register(RegisterPayload),
    Metrics(MetricsPayload),
    Cancel(CancelPayload),
}

/// One line as the connection loop sees it after decoding.
pub enum LineEvent {
    /// A blank line: skipped.
    Empty,
    /// A line that did not decode into any message: logged and skipped.
    Malformed,
    /// A well-formed message.
    Msg(Message),
}

/// What the connection loop must do after a step.
pub enum Directive {
    /// Keep reading; no I/O owed.
    Continue,
    /// A registration succeeded: send the ok status line, keep reading.
    AckRegister,
    /// A registration was aborted because its log sink could not be
    /// prepared: send nothing, keep reading.
    ContinueNoAck,
    /// A threshold breached: append the reason to the job's log, run the
    /// external termination command, close the connection.
    EvictAndClose { job_id: String, signal: EvictSignal, mean: u64, log_path: String },
    /// A Cancel was processed: if the job existed, append the cancellation
    /// reason to the returned log; close the connection either way.
    CancelClose { cancelled_log: Option<String> },
}

/// Whether a directive closes the connection.
pub open spec fn spec_closes_connection(d: Directive) -> bool {
    match d {
        Directive::EvictAndClose { .. } => true,
        Directive::CancelClose { .. } => true,
        _ => false,
    }
}

impl Directive {
    /// Whether the connection loop stops after obeying this directive.
    pub fn closes_connection(&self) -> (r: bool)
        ensures
            r == spec_closes_connection(*self),
    {
        match self {
            Directive::EvictAndClose { .. } => true,
            Directive::CancelClose { .. } => true,
            _ => false,
        }
    }
}

/// Applies one decoded line to the registry and decides what the connection
/// does next. `log_ready` reports whether the caller could prepare the log
/// sink of a Register payload (ignored for other events): registration is
/// aborted without inserting state when it could not.
pub fn connection_step(reg: &mut Registry, event: LineEvent, log_ready: bool, now: u64) -> (d:
    Directive)
    requires
        old(reg).wf(),
    ensures
        final(reg).wf(),
        match event {
            LineEvent::Empty => d is Continue && final(reg)@ == old(reg)@,
            LineEvent::Malformed => d is Continue && final(reg)@ == old(reg)@,
            LineEvent::Msg(m) => match m {
                Message::Register(p) => {
                    if log_ready {
                        &&& d is AckRegister
                        &&& final(reg)@ == old(reg)@.insert(
                            p.job_id@,
                            fresh_job(
                                p.gpu_monitor_count as nat,
                                p.cpu_monitor_count as nat,
                                p.log_path@,
                                now,
                            ),
                        )
                    } else {
                        &&& d is ContinueNoAck
                        &&& final(reg)@ == old(reg)@
                    }
                },
                Message::Metrics(p) => {
                    if !old(reg)@.contains_key(p.job_id@) {
                        d is Continue && final(reg)@ == old(reg)@
                    } else {
                        let step = metrics_step(
                            old(reg)@[p.job_id@],
                            p.gpu_utilization,
                            p.gpu_memory_utilization,
                            p.cpu_utilization,
                            now,
                        );
                        match d {
                            Directive::Continue => step.breach is None && final(reg)@ == old(
                                reg,
                            )@.insert(p.job_id@, step.state),
                            Directive::EvictAndClose { job_id, signal, mean, log_path } => {
                                &&& step.breach == Some(signal)
                                &&& job_id@ == p.job_id@
                                &&& mean == window_mean(breached_window(step))
                                &&& log_path@ == old(reg)@[p.job_id@].log_path
                                &&& final(reg)@ == old(reg)@.remove(p.job_id@)
                            },
                            _ => false,
                        }
                    }
                },
                Message::Cancel(p) => match d {
                    Directive::CancelClose { cancelled_log } => match cancelled_log {
                        Some(lp) => old(reg)@.contains_key(p.job_id@) && lp@ == old(
                            reg,
                        )@[p.job_id@].log_path && final(reg)@ == old(reg)@.remove(p.job_id@),
                        None => !old(reg)@.contains_key(p.job_id@) && final(reg)@ == old(reg)@,
                    },
                    _ => false,
                },
            },
        },
{
    match event {
        LineEvent::Empty => Directive::Continue,
        LineEvent::Malformed => Directive::Continue,
        LineEvent::Msg(m) => match m {
            Message::Register(p) => {
                if log_ready {
                    reg.register(
                        p.job_id,
                        p.gpu_monitor_count,
                        p.cpu_monitor_count,
                        p.log_path,
                        now,
                    );
                    Directive::AckRegister
                } else {
                    Directive::ContinueNoAck
                }
            },
            Message::Metrics(p) => {
                let outcome = reg.record_metrics(
                    &p.job_id,
                    p.gpu_utilization,
                    p.gpu_memory_utilization,
                    p.cpu_utilization,
                    now,
                );
                match outcome {
                    MetricsOutcome::UnknownJob => Directive::Continue,
                    MetricsOutcome::NoAction => Directive::Continue,
                    MetricsOutcome::Evict(e) => Directive::EvictAndClose {
                        job_id: p.job_id,
                        signal: e.signal,
                        mean: e.mean,
                        log_path: e.log_path,
                    },
                }
            },
            Message::Cancel(p) => {
                let cancelled_log = reg.cancel(&p.job_id);
                Directive::CancelClose { cancelled_log }
            },
        },
    }
}

} // verus!
