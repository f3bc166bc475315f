//! The job registry: one entry per actively monitored job, keyed by job id.
//!
//! The registry is modeled as a map from job id to `JobView`. A job id
//! present in the map denotes an actively monitored job; absence means never
//! registered, already evicted, or cancelled. Exactly one of threshold
//! eviction, heartbeat-timeout eviction, or explicit cancel removes any given
//! registration instance, because every removal goes through one of the
//! operations below and each states precisely when it removes.
//!
//! The registry itself does no I/O: each operation returns what its caller
//! must do afterwards (write an audit-log line, run the external termination
//! command), so a lock around the registry need never be held across I/O.

use vstd::prelude::*;
use crate::job::{JobState, JobView, EvictSignal, fresh_job, metrics_step, breached_window};
use crate::window::window_mean;
use crate::HEARTBEAT_TIMEOUT_SECS;

verus! {

/// No two entries share a job id.
pub open spec fn ids_distinct(s: Seq<JobState>) -> bool {
    forall|i: int, j: int| 0 <= i < j < s.len() ==> s[i].job_id@ != s[j].job_id@
}

/// Some entry carries the id `k`.
pub open spec fn seq_contains_id(s: Seq<JobState>, k: Seq<char>) -> bool {
    exists|i: int| 0 <= i < s.len() && s[i].job_id@ == k
}

/// The index of the entry carrying `k` (unique when ids are distinct).
pub open spec fn seq_idx_of(s: Seq<JobState>, k: Seq<char>) -> int {
    choose|i: int| 0 <= i < s.len() && s[i].job_id@ == k
}

/// The map denoted by a sequence of entries with distinct ids.
pub open spec fn map_of(s: Seq<JobState>) -> Map<Seq<char>, JobView> {
    Map::new(|k: Seq<char>| seq_contains_id(s, k), |k: Seq<char>| s[seq_idx_of(s, k)]@)
}

/// A job whose last heartbeat is strictly more than the timeout before `now`
/// is stale and must be swept.
pub open spec fn stale(last_heartbeat: u64, now: u64) -> bool {
    now > last_heartbeat + HEARTBEAT_TIMEOUT_SECS
}

/// Outcome of recording one Metrics message.
pub enum MetricsOutcome {
    /// The job id is not in the registry: logged by the caller, no state change.
    UnknownJob,
    /// The job's state was updated and no threshold breached.
    NoAction,
    /// A threshold breached: the job has been removed from the registry and
    /// the caller must log the reason and trigger external termination.
    Evict(Eviction),
}

/// A threshold eviction: the first breached signal, the mean of its window
/// (hundredths of a percent, rounded toward zero), and the audit-log sink of
/// the removed job.
pub struct Eviction {
    pub signal: EvictSignal,
    pub mean: u64,
    pub log_path: String,
}

/// A job removed by the heartbeat sweeper, with the elapsed seconds since
/// its last heartbeat and its audit-log sink; the caller logs the reason and
/// triggers external termination after releasing the registry lock.
pub struct SweptJob {
    pub job_id: String,
    pub elapsed_secs: u64,
    pub log_path: String,
}

/// The registry of active jobs.
pub struct Registry {
    jobs: Vec<JobState>,
}

/// An owned copy of one job's state, as `Registry::job_snapshot` hands it
/// out for inspection.
pub struct JobSnapshot {
    pub last_heartbeat: u64,
    pub gpu_monitor_count: usize,
    pub cpu_monitor_count: usize,
    pub gpu_utilizations: Vec<u64>,
    pub gpu_memory_utilizations: Vec<u64>,
    pub cpu_utilizations: Vec<u64>,
    pub metrics_received: u64,
    pub log_path: String,
}

/// An element-wise copy of a sample window.
fn copy_samples(v: &Vec<u64>) -> (r: Vec<u64>)
    ensures
        r@ == v@,
{
    let mut r: Vec<u64> = Vec::new();
    let mut i: usize = 0;
    while i < v.len()
        invariant
            i <= v@.len(),
            r@ =~= v@.take(i as int),
        decreases v@.len() - i,
    {
        r.push(v[i]);
        proof {
            assert(r@ =~= v@.take(i + 1));
        }
        i = i + 1;
    }
    proof {
        assert(v@.take(v@.len() as int) =~= v@);
    }
    r
}

impl View for Registry {
    type V = Map<Seq<char>, JobView>;

    closed spec fn view(&self) -> Map<Seq<char>, JobView> {
        map_of(self.jobs@)
    }
}

proof fn lemma_found_idx(s: Seq<JobState>, i: int)
    requires
        ids_distinct(s),
        0 <= i < s.len(),
    ensures
        seq_contains_id(s, s[i].job_id@),
        seq_idx_of(s, s[i].job_id@) == i,
        map_of(s).contains_key(s[i].job_id@),
        map_of(s)[s[i].job_id@] == s[i]@,
{
    assert(seq_contains_id(s, s[i].job_id@));
    let j: int = seq_idx_of(s, s[i].job_id@);
    assert(0 <= j < s.len() && s[j].job_id@ == s[i].job_id@);
    if i != j {
        assert(false);
    }
}

proof fn lemma_map_of_remove(s: Seq<JobState>, i: int)
    requires
        ids_distinct(s),
        0 <= i < s.len(),
    ensures
        ids_distinct(s.remove(i)),
        map_of(s.remove(i)) =~= map_of(s).remove(s[i].job_id@),
        forall|q: int|
            0 <= q < s.remove(i).len() ==> exists|j: int|
                0 <= j < s.len() && (#[trigger] s.remove(i)[q]) == s[j],
{
    let t = s.remove(i);
    assert forall|p: int, q: int| 0 <= p < q < t.len() implies t[p].job_id@ != t[q].job_id@ by {
        let p0: int = if p < i { p } else { p + 1 };
        let q0: int = if q < i { q } else { q + 1 };
        assert(t[p] == s[p0] && t[q] == s[q0]);
    }
    assert forall|q: int| 0 <= q < t.len() implies exists|j: int|
        0 <= j < s.len() && (#[trigger] t[q]) == s[j] by {
        let q0: int = if q < i { q } else { q + 1 };
        assert(t[q] == s[q0]);
    }
    assert forall|k: Seq<char>| #[trigger] map_of(t).contains_key(k) implies map_of(s).remove(
        s[i].job_id@,
    ).contains_key(k) && map_of(t)[k] == map_of(s).remove(s[i].job_id@)[k] by {
        let p: int = seq_idx_of(t, k);
        lemma_found_idx(t, p);
        let p0: int = if p < i { p } else { p + 1 };
        assert(t[p] == s[p0]);
        lemma_found_idx(s, p0);
        lemma_found_idx(s, i);
    }
    assert forall|k: Seq<char>| #[trigger] map_of(s).remove(s[i].job_id@).contains_key(
        k,
    ) implies map_of(t).contains_key(k) by {
        let p0: int = seq_idx_of(s, k);
        lemma_found_idx(s, p0);
        let p: int = if p0 < i { p0 } else { p0 - 1 };
        assert(t[p] == s[p0]);
        assert(seq_contains_id(t, k));
    }
}

proof fn lemma_map_of_push(s: Seq<JobState>, x: JobState)
    requires
        ids_distinct(s),
        !seq_contains_id(s, x.job_id@),
    ensures
        ids_distinct(s.push(x)),
        map_of(s.push(x)) =~= map_of(s).insert(x.job_id@, x@),
{
    let t = s.push(x);
    assert forall|p: int, q: int| 0 <= p < q < t.len() implies t[p].job_id@ != t[q].job_id@ by {
        if q == s.len() {
            assert(t[p] == s[p]);
            assert(t[q] == x);
            assert(s[p].job_id@ != x.job_id@);
        } else {
            assert(t[p] == s[p] && t[q] == s[q]);
        }
    }
    assert forall|k: Seq<char>| #[trigger] map_of(t).contains_key(k) implies map_of(s).insert(
        x.job_id@,
        x@,
    ).contains_key(k) && map_of(t)[k] == map_of(s).insert(x.job_id@, x@)[k] by {
        let p: int = seq_idx_of(t, k);
        lemma_found_idx(t, p);
        if p == s.len() {
            assert(t[p] == x);
        } else {
            assert(t[p] == s[p]);
            lemma_found_idx(s, p);
            assert(k != x.job_id@);
        }
    }
    assert forall|k: Seq<char>| #[trigger] map_of(s).insert(x.job_id@, x@).contains_key(
        k,
    ) implies map_of(t).contains_key(k) by {
        if k == x.job_id@ {
            assert(t[s.len() as int].job_id@ == k);
            assert(seq_contains_id(t, k));
        } else {
            let p0: int = seq_idx_of(s, k);
            lemma_found_idx(s, p0);
            assert(t[p0].job_id@ == k);
            assert(seq_contains_id(t, k));
        }
    }
}

proof fn lemma_map_of_update(s: Seq<JobState>, i: int, x: JobState)
    requires
        ids_distinct(s),
        0 <= i < s.len(),
        x.job_id@ == s[i].job_id@,
    ensures
        ids_distinct(s.update(i, x)),
        map_of(s.update(i, x)) =~= map_of(s).insert(x.job_id@, x@),
{
    let t = s.update(i, x);
    assert forall|p: int, q: int| 0 <= p < q < t.len() implies t[p].job_id@ != t[q].job_id@ by {
        assert(t[p].job_id@ == s[p].job_id@ && t[q].job_id@ == s[q].job_id@);
    }
    assert forall|k: Seq<char>| #[trigger] map_of(t).contains_key(k) implies map_of(s).insert(
        x.job_id@,
        x@,
    ).contains_key(k) && map_of(t)[k] == map_of(s).insert(x.job_id@, x@)[k] by {
        let p: int = seq_idx_of(t, k);
        lemma_found_idx(t, p);
        assert(s[p].job_id@ == k);
        lemma_found_idx(s, p);
        if p != i {
            assert(t[p] == s[p]);
            lemma_found_idx(s, i);
            assert(k != x.job_id@);
        }
    }
    assert forall|k: Seq<char>| #[trigger] map_of(s).insert(x.job_id@, x@).contains_key(
        k,
    ) implies map_of(t).contains_key(k) by {
        if k == x.job_id@ {
            assert(t[i].job_id@ == k);
            assert(seq_contains_id(t, k));
        } else {
            let p0: int = seq_idx_of(s, k);
            lemma_found_idx(s, p0);
            assert(t[p0].job_id@ == k);
            assert(seq_contains_id(t, k));
        }
    }
}

impl Registry {
    /// All entries carry distinct job ids and each entry's windows respect
    /// its capacities; established by `new` and preserved by every operation.
    pub closed spec fn wf(&self) -> bool {
        &&& ids_distinct(self.jobs@)
        &&& forall|i: int| 0 <= i < self.jobs@.len() ==> (#[trigger] self.jobs@[i])@.wf()
    }

    /// An empty registry.
    pub fn new() -> (r: Registry)
        ensures
            r.wf(),
            r@ == Map::<Seq<char>, JobView>::empty(),
    {
        let r = Registry { jobs: Vec::new() };
        proof {
            assert(r@ =~= Map::<Seq<char>, JobView>::empty());
        }
        r
    }

    /// The index of the entry carrying `job_id`, if any.
    fn find(&self, job_id: &String) -> (r: Option<usize>)
        requires
            self.wf(),
        ensures
            match r {
                Some(i) => i < self.jobs@.len() && self.jobs@[i as int].job_id@ == job_id@
                    && self@.contains_key(job_id@),
                None => !self@.contains_key(job_id@),
            },
    {
        let mut i: usize = 0;
        while i < self.jobs.len()
            invariant
                self.wf(),
                i <= self.jobs@.len(),
                forall|p: int| 0 <= p < i ==> (#[trigger] self.jobs@[p]).job_id@ != job_id@,
            decreases self.jobs@.len() - i,
        {
            if self.jobs[i].job_id == *job_id {
                proof {
                    lemma_found_idx(self.jobs@, i as int);
                }
                return Some(i);
            }
            i = i + 1;
        }
        proof {
            assert(!seq_contains_id(self.jobs@, job_id@));
        }
        None
    }

    /// Whether a job is currently registered.
    pub fn contains_job(&self, job_id: &String) -> (r: bool)
        requires
            self.wf(),
        ensures
            r == self@.contains_key(job_id@),
    {
        self.find(job_id).is_some()
    }

    /// A copy of a job's current state, or `None` when the id is unknown.
    pub fn job_snapshot(&self, job_id: &String) -> (r: Option<JobSnapshot>)
        requires
            self.wf(),
        ensures
            match r {
                Some(s) => {
                    let j = self@[job_id@];
                    &&& self@.contains_key(job_id@)
                    &&& s.last_heartbeat == j.last_heartbeat
                    &&& s.gpu_monitor_count == j.gpu_monitor_count
                    &&& s.cpu_monitor_count == j.cpu_monitor_count
                    &&& s.gpu_utilizations@ == j.gpu_window
                    &&& s.gpu_memory_utilizations@ == j.gpu_memory_window
                    &&& s.cpu_utilizations@ == j.cpu_window
                    &&& s.metrics_received == j.metrics_received
                    &&& s.log_path@ == j.log_path
                },
                None => !self@.contains_key(job_id@),
            },
    {
        match self.find(job_id) {
            Some(i) => {
                proof {
                    lemma_found_idx(self.jobs@, i as int);
                }
                let state = &self.jobs[i];
                Some(
                    JobSnapshot {
                        last_heartbeat: state.last_heartbeat,
                        gpu_monitor_count: state.gpu_monitor_count,
                        cpu_monitor_count: state.cpu_monitor_count,
                        gpu_utilizations: copy_samples(&state.gpu_utilizations),
                        gpu_memory_utilizations: copy_samples(&state.gpu_memory_utilizations),
                        cpu_utilizations: copy_samples(&state.cpu_utilizations),
                        metrics_received: state.metrics_received,
                        log_path: state.log_path.clone(),
                    },
                )
            },
            None => None,
        }
    }

    /// Registers a job: inserts a fresh state with empty windows, the
    /// supplied window capacities, no metrics received, and the heartbeat set
    /// to `now` — overwriting any prior entry for the same id.
    pub fn register(
        &mut self,
        job_id: String,
        gpu_monitor_count: usize,
        cpu_monitor_count: usize,
        log_path: String,
        now: u64,
    )
        requires
            old(self).wf(),
        ensures
            final(self).wf(),
            final(self)@ == old(self)@.insert(
                job_id@,
                fresh_job(gpu_monitor_count as nat, cpu_monitor_count as nat, log_path@, now),
            ),
    {
        let ghost s0 = self.jobs@;
        let ghost m0 = self@;
        match self.find(&job_id) {
            Some(i) => {
                proof {
                    lemma_map_of_remove(s0, i as int);
                }
                self.jobs.remove(i);
                proof {
                    assert forall|p: int| 0 <= p < self.jobs@.len() implies (
                    #[trigger] self.jobs@[p]).job_id@ != job_id@ by {
                        let p0: int = if p < i { p } else { p + 1 };
                        assert(self.jobs@[p] == s0[p0]);
                        assert(p0 != i);
                    }
                    assert(!seq_contains_id(self.jobs@, job_id@));
                }
            },
            None => {
                proof {
                    assert(!seq_contains_id(self.jobs@, job_id@));
                    assert forall|q: int| 0 <= q < self.jobs@.len() implies exists|j: int|
                        0 <= j < s0.len() && (#[trigger] self.jobs@[q]) == s0[j] by {
                        assert(self.jobs@[q] == s0[q]);
                    }
                }
            },
        }
        let ghost s1 = self.jobs@;
        let state = JobState {
            job_id,
            last_heartbeat: now,
            gpu_monitor_count,
            cpu_monitor_count,
            gpu_utilizations: Vec::new(),
            gpu_memory_utilizations: Vec::new(),
            cpu_utilizations: Vec::new(),
            metrics_received: 0,
            log_path,
        };
        proof {
            lemma_map_of_push(s1, state);
        }
        self.jobs.push(state);
        proof {
            let fresh = fresh_job(
                gpu_monitor_count as nat,
                cpu_monitor_count as nat,
                state.log_path@,
                now,
            );
            assert(state@ =~= fresh);
            assert(self@ =~= m0.insert(state.job_id@, fresh));
            assert forall|q: int| 0 <= q < self.jobs@.len() implies (
            #[trigger] self.jobs@[q])@.wf() by {
                if q < s1.len() {
                    assert(self.jobs@[q] == s1[q]);
                    let j: int = choose|j: int| 0 <= j < s0.len() && s1[q] == s0[j];
                    assert(s0[j]@.wf());
                } else {
                    assert(self.jobs@[q] == state);
                }
            }
        }
    }

    /// Removes a job unconditionally if present, returning its audit-log
    /// sink so the caller can append the cancellation reason; `None` when the
    /// id is unknown (a no-op, never an error).
    pub fn cancel(&mut self, job_id: &String) -> (r: Option<String>)
        requires
            old(self).wf(),
        ensures
            final(self).wf(),
            match r {
                Some(log_path) => old(self)@.contains_key(job_id@) && log_path@ == old(
                    self,
                )@[job_id@].log_path && final(self)@ == old(self)@.remove(job_id@),
                None => !old(self)@.contains_key(job_id@) && final(self)@ == old(self)@,
            },
    {
        match self.find(job_id) {
            Some(i) => {
                proof {
                    lemma_found_idx(self.jobs@, i as int);
                    lemma_map_of_remove(self.jobs@, i as int);
                }
                let state = self.jobs.remove(i);
                proof {
                    assert(self@ =~= old(self)@.remove(job_id@));
                }
                Some(state.log_path)
            },
            None => None,
        }
    }

    /// Records one Metrics message: refreshes the job's heartbeat, counts
    /// the message, and evaluates the eviction policy as `metrics_step`
    /// describes. On a breach the job is removed and the caller receives the
    /// reason; an unknown id changes nothing.
    pub fn record_metrics(
        &mut self,
        job_id: &String,
        gpu_utilization: u64,
        gpu_memory_utilization: u64,
        cpu_utilization: u64,
        now: u64,
    ) -> (r: MetricsOutcome)
        requires
            old(self).wf(),
        ensures
            final(self).wf(),
            !old(self)@.contains_key(job_id@) ==> r is UnknownJob && final(self)@ == old(self)@,
            old(self)@.contains_key(job_id@) ==> {
                let step = metrics_step(
                    old(self)@[job_id@],
                    gpu_utilization,
                    gpu_memory_utilization,
                    cpu_utilization,
                    now,
                );
                match r {
                    MetricsOutcome::UnknownJob => false,
                    MetricsOutcome::NoAction => step.breach is None && final(self)@ == old(
                        self,
                    )@.insert(job_id@, step.state),
                    MetricsOutcome::Evict(e) => step.breach == Some(e.signal) && e.mean
                        == window_mean(breached_window(step)) && e.log_path@ == old(
                        self,
                    )@[job_id@].log_path && final(self)@ == old(self)@.remove(job_id@),
                }
            },
    {
        let i = match self.find(job_id) {
            Some(i) => i,
            None => {
                return MetricsOutcome::UnknownJob;
            },
        };
        let ghost s0 = self.jobs@;
        proof {
            lemma_found_idx(s0, i as int);
            lemma_map_of_remove(s0, i as int);
        }
        let mut state = self.jobs.remove(i);
        let outcome = state.apply_metrics(
            gpu_utilization,
            gpu_memory_utilization,
            cpu_utilization,
            now,
        );
        match outcome {
            None => {
                proof {
                    assert(self.jobs@.insert(i as int, state) =~= s0.update(i as int, state));
                    lemma_map_of_update(s0, i as int, state);
                }
                self.jobs.insert(i, state);
                proof {
                    assert(self@ =~= old(self)@.insert(job_id@, state@));
                    assert forall|q: int| 0 <= q < self.jobs@.len() implies (
                    #[trigger] self.jobs@[q])@.wf() by {
                        assert(self.jobs@ == s0.update(i as int, state));
                        if q != i {
                            assert(self.jobs@[q] == s0[q]);
                        }
                    }
                }
                MetricsOutcome::NoAction
            },
            Some((signal, mean)) => {
                proof {
                    assert(self@ =~= old(self)@.remove(job_id@));
                }
                MetricsOutcome::Evict(Eviction { signal, mean, log_path: state.log_path })
            },
        }
    }

    /// Removes every job whose heartbeat is stale at `now` — strictly more
    /// than the timeout old — and returns one entry per removed job, with the
    /// elapsed seconds since its heartbeat; jobs with fresh heartbeats are
    /// kept untouched.
    #[verifier::rlimit(100)]
    pub fn sweep(&mut self, now: u64) -> (swept: Vec<SweptJob>)
        requires
            old(self).wf(),
        ensures
            final(self).wf(),
            forall|k: Seq<char>| #[trigger] final(self)@.contains_key(k) <==> (old(
                self,
            )@.contains_key(k) && !stale(old(self)@[k].last_heartbeat, now)),
            forall|k: Seq<char>| #[trigger] final(self)@.contains_key(k) ==> final(self)@[k]
                == old(self)@[k],
            forall|t: int|
                0 <= t < swept@.len() ==> {
                    let k = (#[trigger] swept@[t]).job_id@;
                    &&& old(self)@.contains_key(k)
                    &&& stale(old(self)@[k].last_heartbeat, now)
                    &&& swept@[t].elapsed_secs == now - old(self)@[k].last_heartbeat
                    &&& swept@[t].log_path@ == old(self)@[k].log_path
                },
            forall|k: Seq<char>|
                old(self)@.contains_key(k) && stale(
                    (#[trigger] old(self)@[k]).last_heartbeat,
                    now,
                ) ==> exists|t: int| 0 <= t < swept@.len() && (#[trigger] swept@[t]).job_id@ == k,
            forall|t1: int, t2: int|
                0 <= t1 < t2 < swept@.len() ==> swept@[t1].job_id@ != swept@[t2].job_id@,
    {
        let ghost orig = self.jobs@;
        let mut rest: Vec<JobState> = Vec::new();
        core::mem::swap(&mut rest, &mut self.jobs);
        let total: usize = rest.len();
        let mut swept: Vec<SweptJob> = Vec::new();
        proof {
            assert(rest@ =~= orig.skip(0));
        }
        // ghost provenance: the original index of each kept / swept entry
        let ghost mut ksrcs: Seq<int> = Seq::empty();
        let ghost mut ssrcs: Seq<int> = Seq::empty();
        let mut p: usize = 0;
        while rest.len() > 0
            invariant
                orig.len() == total,
                p <= total,
                ids_distinct(orig),
                forall|i: int| 0 <= i < orig.len() ==> (#[trigger] orig[i])@.wf(),
                rest@ =~= orig.skip(p as int),
                ksrcs.len() == self.jobs@.len(),
                forall|q: int|
                    0 <= q < ksrcs.len() ==> 0 <= #[trigger] ksrcs[q] < p && self.jobs@[q]
                        == orig[ksrcs[q]] && !stale(orig[ksrcs[q]].last_heartbeat, now),
                forall|q1: int, q2: int| 0 <= q1 < q2 < ksrcs.len() ==> ksrcs[q1] < ksrcs[q2],
                ssrcs.len() == swept@.len(),
                forall|t: int|
                    0 <= t < ssrcs.len() ==> 0 <= #[trigger] ssrcs[t] < p && stale(
                        orig[ssrcs[t]].last_heartbeat,
                        now,
                    ) && swept@[t].job_id@ == orig[ssrcs[t]].job_id@ && swept@[t].elapsed_secs
                        == now - orig[ssrcs[t]].last_heartbeat && swept@[t].log_path@
                        == orig[ssrcs[t]].log_path@,
                forall|t1: int, t2: int| 0 <= t1 < t2 < ssrcs.len() ==> ssrcs[t1] < ssrcs[t2],
                forall|i: int|
                    0 <= i < p && stale((#[trigger] orig[i]).last_heartbeat, now)
                        ==> exists|t: int| 0 <= t < ssrcs.len() && #[trigger] ssrcs[t] == i,
                forall|i: int|
                    0 <= i < p && !stale((#[trigger] orig[i]).last_heartbeat, now)
                        ==> exists|q: int| 0 <= q < ksrcs.len() && #[trigger] ksrcs[q] == i,
            decreases rest@.len(),
        {
            let ghost pi: int = p as int;
            proof {
                assert(rest@[0] == orig[pi]);
            }
            let state = rest.remove(0);
            proof {
                assert(rest@ =~= orig.skip(pi + 1));
                assert(state == orig[pi]);
            }
            let elapsed = if now >= state.last_heartbeat {
                now - state.last_heartbeat
            } else {
                0
            };
            if elapsed > HEARTBEAT_TIMEOUT_SECS {
                swept.push(
                    SweptJob {
                        job_id: state.job_id,
                        elapsed_secs: elapsed,
                        log_path: state.log_path,
                    },
                );
                proof {
                    let ssrcs0 = ssrcs;
                    ssrcs = ssrcs.push(pi);
                    assert(ssrcs == ssrcs0.push(pi));
                    assert(ssrcs.len() == ssrcs0.len() + 1);
                    assert(ssrcs[ssrcs0.len() as int] == pi);
                    assert(stale(orig[pi].last_heartbeat, now));
                    assert forall|i: int|
                        0 <= i < p + 1 && stale(
                            (#[trigger] orig[i]).last_heartbeat,
                            now,
                        ) implies exists|t: int|
                        0 <= t < ssrcs.len() && #[trigger] ssrcs[t] == i by {
                        if i == pi {
                            assert(ssrcs[ssrcs0.len() as int] == i);
                        } else {
                            let t: int = choose|t: int|
                                0 <= t < ssrcs0.len() && #[trigger] ssrcs0[t] == i;
                            assert(ssrcs[t] == ssrcs0[t]);
                            assert(ssrcs[t] == i);
                        }
                    }
                }
            } else {
                self.jobs.push(state);
                proof {
                    let ksrcs0 = ksrcs;
                    ksrcs = ksrcs.push(pi);
                    assert(ksrcs == ksrcs0.push(pi));
                    assert(ksrcs.len() == ksrcs0.len() + 1);
                    assert(ksrcs[ksrcs0.len() as int] == pi);
                    assert(!stale(orig[pi].last_heartbeat, now));
                    assert forall|i: int|
                        0 <= i < p + 1 && !stale(
                            (#[trigger] orig[i]).last_heartbeat,
                            now,
                        ) implies exists|q: int|
                        0 <= q < ksrcs.len() && #[trigger] ksrcs[q] == i by {
                        if i == pi {
                            assert(ksrcs[ksrcs0.len() as int] == i);
                        } else {
                            let q: int = choose|q: int|
                                0 <= q < ksrcs0.len() && #[trigger] ksrcs0[q] == i;
                            assert(ksrcs[q] == ksrcs0[q]);
                            assert(ksrcs[q] == i);
                        }
                    }
                }
            }
            p = p + 1;
        }
        proof {
            assert(orig.skip(p as int).len() == 0);
            assert(p == orig.len());
            let kept = self.jobs@;
            assert forall|q1: int, q2: int| 0 <= q1 < q2 < kept.len() implies kept[q1].job_id@
                != kept[q2].job_id@ by {
                assert(ksrcs[q1] < ksrcs[q2]);
            }
            assert(ids_distinct(kept));
            assert forall|q: int| 0 <= q < kept.len() implies (#[trigger] kept[q])@.wf() by {
                assert(kept[q] == orig[ksrcs[q]]);
            }
            assert forall|t1: int, t2: int| 0 <= t1 < t2 < swept@.len() implies swept@[t1].job_id@
                != swept@[t2].job_id@ by {
                assert(ssrcs[t1] < ssrcs[t2]);
            }
            // the kept map is contained in the non-stale part of the original
            assert forall|k: Seq<char>| #[trigger] map_of(kept).contains_key(k) implies (map_of(
                orig,
            ).contains_key(k) && !stale(map_of(orig)[k].last_heartbeat, now) && map_of(kept)[k]
                == map_of(orig)[k]) by {
                let q: int = seq_idx_of(kept, k);
                lemma_found_idx(kept, q);
                assert(kept[q] == orig[ksrcs[q]]);
                lemma_found_idx(orig, ksrcs[q]);
            }
            // every non-stale original job is kept
            assert forall|k: Seq<char>|
                map_of(orig).contains_key(k) && !stale(
                    (#[trigger] map_of(orig)[k]).last_heartbeat,
                    now,
                ) implies map_of(kept).contains_key(k) by {
                let i: int = seq_idx_of(orig, k);
                lemma_found_idx(orig, i);
                let q: int = choose|q: int| 0 <= q < ksrcs.len() && #[trigger] ksrcs[q] == i;
                assert(kept[q].job_id@ == k);
                assert(seq_contains_id(kept, k));
            }
            // every stale original job appears among the swept
            assert forall|k: Seq<char>|
                map_of(orig).contains_key(k) && stale(
                    (#[trigger] map_of(orig)[k]).last_heartbeat,
                    now,
                ) implies exists|t: int|
                0 <= t < swept@.len() && (#[trigger] swept@[t]).job_id@ == k by {
                let i: int = seq_idx_of(orig, k);
                lemma_found_idx(orig, i);
                let t: int = choose|t: int| 0 <= t < ssrcs.len() && #[trigger] ssrcs[t] == i;
                assert(swept@[t].job_id@ == k);
            }
            // every swept entry reports its job as the original map records it
            assert forall|t: int| 0 <= t < swept@.len() implies {
                let k = (#[trigger] swept@[t]).job_id@;
                &&& map_of(orig).contains_key(k)
                &&& stale(map_of(orig)[k].last_heartbeat, now)
                &&& swept@[t].elapsed_secs == now - map_of(orig)[k].last_heartbeat
                &&& swept@[t].log_path@ == map_of(orig)[k].log_path
            } by {
                assert(swept@[t].job_id@ == orig[ssrcs[t]].job_id@);
                lemma_found_idx(orig, ssrcs[t]);
            }
        }
        swept
    }
}

} // verus!
