//! CPU time accounting of the load monitor.
//!
//! Every 200 ms the monitor reads the per-core idle and busy counters that
//! the scheduler probe keeps, adds the time that the task now running on a
//! core has accumulated since its last context switch, and turns the growth
//! of the counters into busy and total nanoseconds per core. For the
//! foreground app it measures the CPU time of its process (or, where the
//! process is not tracked, of its busiest thread). The ratios themselves are
//! taken by the caller.

use vstd::prelude::*;
use std::collections::HashMap;
use crate::frame::sat_sub;
use crate::text::{chars_of, parse_u32, parse_unsigned_spec};

verus! {

broadcast use vstd::std_specs::hash::group_hash_axioms;

/// Time on a core since its last switch that is counted (under 1 s; a
/// larger gap is treated as stale).
pub const PENDING_LIMIT_NS: u64 = 1_000_000_000;

/// `v[i]`, or zero where the per-CPU read gave no value.
pub open spec fn u64_at(v: Seq<u64>, i: int) -> u64 {
    if 0 <= i < v.len() {
        v[i]
    } else {
        0
    }
}

/// `v[i]`, or zero where the per-CPU read gave no value.
pub open spec fn u32_at(v: Seq<u32>, i: int) -> u32 {
    if 0 <= i < v.len() {
        v[i]
    } else {
        0
    }
}

/// The time that the task on a core has run since its last switch, ignored
/// when it is a second or more.
pub open spec fn core_pending(now: u64, last_switch: u64) -> u64 {
    if sat_sub(now, last_switch) > PENDING_LIMIT_NS {
        0
    } else {
        sat_sub(now, last_switch)
    }
}

/// Busy and total time of one core over one sample.
#[derive(Debug, Clone, Copy, PartialEq, Eq)]
pub struct CoreDelta {
    pub busy_ns: u64,
    pub total_ns: u64,
}

/// Per-core counters read at one sample, indexed by CPU number.
pub struct CoreReadings {
    pub idle: Vec<u64>,
    pub busy: Vec<u64>,
    pub last_switch: Vec<u64>,
    pub current_tid: Vec<u32>,
}

/// The idle counter of a core with the running time of an idle task added.
pub open spec fn adj_idle(r: CoreReadings, cpu: int, now: u64) -> int {
    u64_at(r.idle@, cpu) + if u32_at(r.current_tid@, cpu) == 0 {
        core_pending(now, u64_at(r.last_switch@, cpu)) as int
    } else {
        0
    }
}

/// The busy counter of a core with the running time of a busy task added.
pub open spec fn adj_busy(r: CoreReadings, cpu: int, now: u64) -> int {
    u64_at(r.busy@, cpu) + if u32_at(r.current_tid@, cpu) != 0 {
        core_pending(now, u64_at(r.last_switch@, cpu)) as int
    } else {
        0
    }
}

/// Growth of a counter since the last sample, zero if it went down.
pub open spec fn growth(now: int, before: u64) -> int {
    if now >= before {
        now - before
    } else {
        0
    }
}

/// Per-core sampler: the online CPUs and the counters seen last.
pub struct CoreSampler {
    online: Vec<u32>,
    last_idle: Vec<u64>,
    last_busy: Vec<u64>,
}

impl CoreSampler {
    /// The online CPUs, in order.
    pub closed spec fn online(&self) -> Seq<u32> {
        self.online@
    }

    /// The idle counter seen last for each CPU number.
    pub closed spec fn last_idle(&self) -> Seq<u64> {
        self.last_idle@
    }

    /// The busy counter seen last for each CPU number.
    pub closed spec fn last_busy(&self) -> Seq<u64> {
        self.last_busy@
    }

    /// The sampler's tables cover every online CPU, each once.
    pub closed spec fn wf(&self) -> bool {
        &&& self.last_idle@.len() == self.last_busy@.len()
        &&& forall|k: int| 0 <= k < self.online@.len() ==> (#[trigger] self.online@[k] as int)
            < self.last_idle@.len()
        &&& forall|a: int, b: int|
            0 <= a < b < self.online@.len() ==> self.online@[a] != self.online@[b]
    }

    /// A sampler for the given online CPUs (a CPU listed twice counts once),
    /// with counters at zero for CPU numbers up to the highest one.
    pub fn new(online: Vec<u32>) -> (r: Self)
        requires
            forall|k: int| 0 <= k < online@.len() ==> (#[trigger] online@[k] as int) + 1
                <= usize::MAX,
        ensures
            r.wf(),
            r.online() == distinct_cpus(online@),
            forall|i: int| 0 <= i < r.last_idle().len() ==> #[trigger] r.last_idle()[i] == 0,
            forall|i: int| 0 <= i < r.last_busy().len() ==> #[trigger] r.last_busy()[i] == 0,
    {
        let mut max_id: usize = 0;
        let mut k: usize = 0;
        while k < online.len()
            invariant
                k <= online@.len(),
                forall|j: int| 0 <= j < online@.len() ==> (#[trigger] online@[j] as int) + 1
                    <= usize::MAX,
                forall|j: int| 0 <= j < k ==> (#[trigger] online@[j] as int) <= max_id,
                k > 0 ==> max_id + 1 <= usize::MAX,
                k == 0 ==> max_id == 0,
            decreases online@.len() - k,
        {
            if online[k] as usize > max_id {
                max_id = online[k] as usize;
            }
            k += 1;
        }
        let mut cpus: Vec<u32> = Vec::new();
        let mut k: usize = 0;
        while k < online.len()
            invariant
                k <= online@.len(),
                forall|j: int| 0 <= j < online@.len() ==> (#[trigger] online@[j] as int) <= max_id,
                cpus@ == distinct_cpus(online@.take(k as int)),
                forall|j: int| 0 <= j < cpus@.len() ==> (#[trigger] cpus@[j] as int) <= max_id,
                forall|a: int, b: int| 0 <= a < b < cpus@.len() ==> cpus@[a] != cpus@[b],
            decreases online@.len() - k,
        {
            let c = online[k];
            let mut seen = false;
            let mut j: usize = 0;
            while j < cpus.len()
                invariant
                    j <= cpus@.len(),
                    seen == cpus@.take(j as int).contains(c),
                decreases cpus@.len() - j,
            {
                proof {
                    let t0 = cpus@.take(j as int);
                    let t1 = cpus@.take(j + 1);
                    assert(t1 == t0.push(cpus@[j as int]));
                    if t0.contains(c) {
                        let w = choose|w: int| 0 <= w < t0.len() && t0[w] == c;
                        assert(t1[w] == c);
                    }
                    if cpus@[j as int] == c {
                        assert(t1[j as int] == c);
                    }
                    if t1.contains(c) && cpus@[j as int] != c {
                        let w = choose|w: int| 0 <= w < t1.len() && t1[w] == c;
                        assert(t0[w] == c);
                    }
                }
                if cpus[j] == c {
                    seen = true;
                }
                j += 1;
            }
            proof {
                assert(cpus@.take(cpus@.len() as int) == cpus@);
                assert(online@.take(k + 1).drop_last() == online@.take(k as int));
                assert(online@.take(k + 1).last() == c);
            }
            if !seen {
                proof {
                    assert forall|a: int| 0 <= a < cpus@.len() implies cpus@[a] != c by {
                        if cpus@[a] == c {
                            assert(cpus@.contains(c));
                        }
                    }
                }
                cpus.push(c);
            }
            k += 1;
        }
        proof {
            assert(online@.take(online@.len() as int) == online@);
        }
        let n = max_id + 1;
        let mut last_idle: Vec<u64> = Vec::new();
        let mut last_busy: Vec<u64> = Vec::new();
        let mut i: usize = 0;
        while i < n
            invariant
                i <= n,
                last_idle@.len() == i,
                last_busy@.len() == i,
                forall|j: int| 0 <= j < i ==> #[trigger] last_idle@[j] == 0,
                forall|j: int| 0 <= j < i ==> #[trigger] last_busy@[j] == 0,
            decreases n - i,
        {
            last_idle.push(0);
            last_busy.push(0);
            i += 1;
        }
        CoreSampler { online: cpus, last_idle, last_busy }
    }

    /// The busy and total time of each CPU since the last sample, indexed by
    /// CPU number: an online CPU gets its delta, a CPU number that the online
    /// list leaves out gets zero. The adjusted counters of the online CPUs
    /// become the ones seen last.
    pub fn sample(&mut self, r: &CoreReadings, now: u64) -> (out: Vec<CoreDelta>)
        requires
            old(self).wf(),
            sample_fits(old(self).online(), old(self).last_idle(), old(self).last_busy(), *r, now),
        ensures
            final(self).wf(),
            final(self).online() == old(self).online(),
            out@.len() == old(self).last_idle().len(),
            forall|i: int|
                0 <= i < out@.len() ==> #[trigger] out@[i] == cpu_delta_at(
                    *r,
                    old(self).online(),
                    i,
                    now,
                    old(self).last_idle(),
                    old(self).last_busy(),
                ),
            forall|k: int|
                0 <= k < old(self).online().len() ==> {
                    let cpu = #[trigger] old(self).online()[k] as int;
                    &&& final(self).last_idle()[cpu] == adj_idle(*r, cpu, now)
                    &&& final(self).last_busy()[cpu] == adj_busy(*r, cpu, now)
                },
            final(self).last_idle().len() == old(self).last_idle().len(),
            forall|i: int|
                0 <= i < old(self).last_idle().len() && !lists_cpu(old(self).online(), i)
                    ==> #[trigger] final(self).last_idle()[i] == old(self).last_idle()[i]
                    && final(self).last_busy()[i] == old(self).last_busy()[i],
    {
        let ghost online = self.online@;
        let ghost li = self.last_idle@;
        let ghost lb = self.last_busy@;
        let n = self.last_idle.len();
        let listed = self.sample_in_list_order(r, now);
        let mut out: Vec<CoreDelta> = Vec::new();
        let mut i: usize = 0;
        while i < n
            invariant
                i <= n,
                out@.len() == i,
                forall|j: int| 0 <= j < i ==> #[trigger] out@[j] == (CoreDelta { busy_ns: 0, total_ns: 0 }),
            decreases n - i,
        {
            out.push(CoreDelta { busy_ns: 0, total_ns: 0 });
            i += 1;
        }
        let mut k: usize = 0;
        while k < self.online.len()
            invariant
                self.wf(),
                self.online@ == online,
                self.last_idle@.len() == n,
                k <= online.len(),
                out@.len() == n,
                listed@.len() == online.len(),
                forall|j: int|
                    0 <= j < online.len() ==> #[trigger] listed@[j] == core_delta(
                        *r,
                        online[j] as int,
                        now,
                        li,
                        lb,
                    ),
                forall|j: int|
                    0 <= j < n ==> #[trigger] out@[j] == (if lists_cpu(online.take(k as int), j) {
                        core_delta(*r, j, now, li, lb)
                    } else {
                        CoreDelta { busy_ns: 0, total_ns: 0 }
                    }),
            decreases online.len() - k,
        {
            let cpu = self.online[k] as usize;
            proof {
                assert(online[k as int] as int == cpu as int);
            }
            out.set(cpu, listed[k]);
            proof {
                let t0 = online.take(k as int);
                let t1 = online.take(k + 1);
                assert(t1 == t0.push(online[k as int]));
                assert forall|j: int| 0 <= j < n implies #[trigger] out@[j] == (if lists_cpu(
                    t1,
                    j,
                ) {
                    core_delta(*r, j, now, li, lb)
                } else {
                    CoreDelta { busy_ns: 0, total_ns: 0 }
                }) by {
                    if j == cpu as int {
                        assert(t1[k as int] as int == j);
                    } else {
                        if lists_cpu(t1, j) {
                            let w = choose|w: int| 0 <= w < t1.len() && t1[w] as int == j;
                            assert(w != k as int);
                            assert(t0[w] == t1[w]);
                        }
                        if lists_cpu(t0, j) {
                            let w = choose|w: int| 0 <= w < t0.len() && t0[w] as int == j;
                            assert(t1[w] == t0[w]);
                        }
                    }
                }
            }
            k += 1;
        }
        proof {
            assert(online.take(online.len() as int) == online);
        }
        out
    }

    /// The busy and total time of each online CPU since the last sample, in
    /// the order of the online list; the adjusted counters become the ones
    /// seen last.
    #[verifier::rlimit(40)]
    fn sample_in_list_order(&mut self, r: &CoreReadings, now: u64) -> (out: Vec<CoreDelta>)
        requires
            old(self).wf(),
            sample_fits(old(self).online(), old(self).last_idle(), old(self).last_busy(), *r, now),
        ensures
            final(self).wf(),
            final(self).online() == old(self).online(),
            out@.len() == old(self).online().len(),
            forall|k: int|
                0 <= k < out@.len() ==> #[trigger] out@[k] == core_delta(
                    *r,
                    old(self).online()[k] as int,
                    now,
                    old(self).last_idle(),
                    old(self).last_busy(),
                ),
            forall|k: int|
                0 <= k < out@.len() ==> {
                    let cpu = #[trigger] old(self).online()[k] as int;
                    &&& final(self).last_idle()[cpu] == adj_idle(*r, cpu, now)
                    &&& final(self).last_busy()[cpu] == adj_busy(*r, cpu, now)
                },
            final(self).last_idle().len() == old(self).last_idle().len(),
            forall|i: int|
                0 <= i < old(self).last_idle().len() && !lists_cpu(old(self).online(), i)
                    ==> #[trigger] final(self).last_idle()[i] == old(self).last_idle()[i]
                    && final(self).last_busy()[i] == old(self).last_busy()[i],
    {
        let ghost old_idle = self.last_idle@;
        let ghost old_busy = self.last_busy@;
        let ghost online = self.online@;
        let mut out: Vec<CoreDelta> = Vec::new();
        let mut k: usize = 0;
        while k < self.online.len()
            invariant
                self.wf(),
                self.online@ == online,
                online == old(self).online@,
                k <= online.len(),
                out@.len() == k,
                old_idle == old(self).last_idle@,
                old_busy == old(self).last_busy@,
                self.last_idle@.len() == old_idle.len(),
                self.last_busy@.len() == old_busy.len(),
                sample_fits(online, old_idle, old_busy, *r, now),
                forall|j: int|
                    0 <= j < k ==> #[trigger] out@[j] == core_delta(
                        *r,
                        online[j] as int,
                        now,
                        old_idle,
                        old_busy,
                    ),
                forall|j: int|
                    0 <= j < k ==> {
                        let cpu = #[trigger] online[j] as int;
                        &&& self.last_idle@[cpu] == adj_idle(*r, cpu, now)
                        &&& self.last_busy@[cpu] == adj_busy(*r, cpu, now)
                    },
                forall|i: int|
                    0 <= i < old_idle.len() && !lists_cpu(online.take(k as int), i)
                        ==> #[trigger] self.last_idle@[i] == old_idle[i] && self.last_busy@[i]
                        == old_busy[i],
            decreases online.len() - k,
        {
            let cpu = self.online[k];
            let idx = cpu as usize;
            proof {
                assert(online[k as int] == cpu);
                assert(idx < self.last_idle@.len());
                if lists_cpu(online.take(k as int), idx as int) {
                    let j = choose|j: int| 0 <= j < online.take(k as int).len() && online.take(
                        k as int,
                    )[j] as int == idx as int;
                    assert(online[j] == online[k as int]);
                }
                assert(self.last_idle@[idx as int] == old_idle[idx as int]);
                assert(self.last_busy@[idx as int] == old_busy[idx as int]);
            }
            let raw_idle = if idx < r.idle.len() {
                r.idle[idx]
            } else {
                0
            };
            let raw_busy = if idx < r.busy.len() {
                r.busy[idx]
            } else {
                0
            };
            let last_switch = if idx < r.last_switch.len() {
                r.last_switch[idx]
            } else {
                0
            };
            let current_tid = if idx < r.current_tid.len() {
                r.current_tid[idx]
            } else {
                0
            };
            let mut pending = now.saturating_sub(last_switch);
            if pending > PENDING_LIMIT_NS {
                pending = 0;
            }
            proof {
                assert(sample_fits(online, old_idle, old_busy, *r, now));
                assert(online[k as int] == cpu);
            }
            let mut a_idle = raw_idle;
            let mut a_busy = raw_busy;
            if current_tid == 0 {
                a_idle = raw_idle + pending;
            } else {
                a_busy = raw_busy + pending;
            }
            let idle_diff = a_idle.saturating_sub(self.last_idle[idx]);
            let busy_diff = a_busy.saturating_sub(self.last_busy[idx]);
            let total_diff = idle_diff + busy_diff;
            out.push(CoreDelta { busy_ns: busy_diff, total_ns: total_diff });
            let ghost prev_idle = self.last_idle@;
            let ghost prev_busy = self.last_busy@;
            self.last_idle.set(idx, a_idle);
            self.last_busy.set(idx, a_busy);
            proof {
                let t0 = online.take(k as int);
                let t1 = online.take(k + 1);
                assert(t1 == t0.push(cpu));
                assert forall|j: int| 0 <= j < k implies online[j] != cpu by {
                }
                assert forall|i: int|
                    0 <= i < old_idle.len() && !lists_cpu(t1, i)
                        implies #[trigger] self.last_idle@[i] == old_idle[i] && self.last_busy@[i]
                        == old_busy[i] by {
                    if i == idx as int {
                        assert(t1[k as int] as int == i);
                        assert(lists_cpu(t1, i));
                    }
                    if lists_cpu(t0, i) {
                        let j = choose|j: int| 0 <= j < t0.len() && t0[j] as int == i;
                        assert(t1[j] == t0[j]);
                        assert(lists_cpu(t1, i));
                    }
                    assert(prev_idle[i] == old_idle[i]);
                    assert(prev_busy[i] == old_busy[i]);
                }
                assert forall|j: int| 0 <= j < k + 1 implies {
                    let c = #[trigger] online[j] as int;
                    &&& self.last_idle@[c] == adj_idle(*r, c, now)
                    &&& self.last_busy@[c] == adj_busy(*r, c, now)
                } by {
                    if j < k {
                        assert(online[j] != cpu);
                        assert(self.last_idle@[online[j] as int] == prev_idle[online[j] as int]);
                    }
                }
            }
            k += 1;
        }
        proof {
            assert(online.take(online.len() as int) == online);
        }
        out
    }
}

/// The CPUs of a list, each once, in the order in which they first appear.
pub open spec fn distinct_cpus(online: Seq<u32>) -> Seq<u32>
    decreases online.len(),
{
    if online.len() == 0 {
        Seq::empty()
    } else {
        let p = distinct_cpus(online.drop_last());
        if p.contains(online.last()) {
            p
        } else {
            p.push(online.last())
        }
    }
}

/// Whether the CPU list names CPU `i`.
pub open spec fn lists_cpu(online: Seq<u32>, i: int) -> bool {
    exists|j: int| 0 <= j < online.len() && online[j] as int == i
}

/// What a sample reports for CPU number `i`: its delta when the online list
/// names it, zero otherwise.
pub open spec fn cpu_delta_at(
    r: CoreReadings,
    online: Seq<u32>,
    i: int,
    now: u64,
    last_idle: Seq<u64>,
    last_busy: Seq<u64>,
) -> CoreDelta {
    if lists_cpu(online, i) {
        core_delta(r, i, now, last_idle, last_busy)
    } else {
        CoreDelta { busy_ns: 0, total_ns: 0 }
    }
}

/// The delta of one core, given the counters seen last.
pub open spec fn core_delta(
    r: CoreReadings,
    cpu: int,
    now: u64,
    last_idle: Seq<u64>,
    last_busy: Seq<u64>,
) -> CoreDelta {
    let gi = growth(adj_idle(r, cpu, now), last_idle[cpu]);
    let gb = growth(adj_busy(r, cpu, now), last_busy[cpu]);
    CoreDelta { busy_ns: gb as u64, total_ns: (gi + gb) as u64 }
}

/// The sample's sums fit in 64 bits (the counters are nanoseconds since
/// boot, far below that).
pub open spec fn sample_fits(
    online: Seq<u32>,
    last_idle: Seq<u64>,
    last_busy: Seq<u64>,
    r: CoreReadings,
    now: u64,
) -> bool {
    forall|k: int|
        0 <= k < online.len() ==> {
            let cpu = #[trigger] online[k] as int;
            &&& adj_idle(r, cpu, now) <= u64::MAX
            &&& adj_busy(r, cpu, now) <= u64::MAX
            &&& growth(adj_idle(r, cpu, now), last_idle[cpu]) + growth(
                adj_busy(r, cpu, now),
                last_busy[cpu],
            ) <= u64::MAX
        }
}

} // verus!

verus! {

/// An optional per-CPU reading by its contents.
pub open spec fn opt_seq32(o: Option<Vec<u32>>) -> Option<Seq<u32>> {
    match o {
        Some(v) => Some(v@),
        None => None,
    }
}

/// An optional per-CPU reading by its contents.
pub open spec fn opt_seq64(o: Option<Vec<u64>>) -> Option<Seq<u64>> {
    match o {
        Some(v) => Some(v@),
        None => None,
    }
}

/// Time run on the listed CPUs, since their last switch, by the task or
/// process `key`: the sum over CPUs whose current entry is `key` of the time
/// since the switch, each counted only below 1 s. Without a current-entry
/// reading nothing is pending; without a switch-time reading a switch time
/// of zero is used.
pub open spec fn pending_for(
    online: Seq<u32>,
    current: Option<Seq<u32>>,
    last_switch: Option<Seq<u64>>,
    key: u32,
    now: u64,
) -> nat
    decreases online.len(),
{
    if online.len() == 0 {
        0
    } else {
        let rest = pending_for(online.drop_last(), current, last_switch, key, now);
        let cpu = online.last() as int;
        match current {
            Some(cur) => {
                let ls = match last_switch {
                    Some(v) => u64_at(v, cpu),
                    None => 0,
                };
                let p = sat_sub(now, ls);
                if u32_at(cur, cpu) == key && p < PENDING_LIMIT_NS {
                    rest + p as nat
                } else {
                    rest
                }
            },
            None => rest,
        }
    }
}

/// What one sample says of the foreground process as a whole.
#[derive(Debug, Clone, Copy, PartialEq, Eq)]
pub enum TgidUsage {
    /// The process has no accumulated time yet: measure its threads instead.
    Untracked,
    /// The sample only sets the baseline (first sample, or the counter went
    /// back): utilisation 0.
    Baseline,
    /// CPU time of the process since the last sample, pending time included.
    Busy(u64),
}

/// Per-foreground-app accounting state carried from sample to sample.
pub struct ForegroundTracker {
    /// Accumulated time of the process at the last sample (pending time
    /// excluded).
    pub last_tgid_run: u64,
    /// The process that the baseline belongs to.
    pub last_tgid_pid: u32,
    /// Per-thread time (pending included) at the last thread-level sample.
    pub last_thread_run: HashMap<u32, u64>,
}

/// The tracker with its thread table taken as a map.
pub struct ForegroundView {
    pub last_tgid_run: u64,
    pub last_tgid_pid: u32,
    pub last_thread_run: Map<u32, u64>,
}

impl View for ForegroundTracker {
    type V = ForegroundView;

    open spec fn view(&self) -> ForegroundView {
        ForegroundView {
            last_tgid_run: self.last_tgid_run,
            last_tgid_pid: self.last_tgid_pid,
            last_thread_run: self.last_thread_run@,
        }
    }
}

/// The outcome of a process-level sample and the baseline that it leaves.
pub open spec fn spec_tgid_usage(
    t: ForegroundView,
    raw: u64,
    pending: nat,
) -> (ForegroundView, TgidUsage) {
    if raw == 0 && t.last_tgid_run == 0 {
        (t, TgidUsage::Untracked)
    } else {
        let prev = t.last_tgid_run;
        let t2 = ForegroundView { last_tgid_run: raw, ..t };
        if prev == 0 || raw < prev {
            (t2, TgidUsage::Baseline)
        } else {
            (t2, TgidUsage::Busy((raw - prev + pending) as u64))
        }
    }
}

/// A thread's time with its pending time added.
pub open spec fn thread_time(
    raw: u64,
    online: Seq<u32>,
    current: Option<Seq<u32>>,
    last_switch: Option<Seq<u64>>,
    tid: u32,
    now: u64,
) -> nat {
    raw as nat + pending_for(online, current, last_switch, tid, now)
}

/// The thread table built from the first `n` threads.
pub open spec fn thread_table(tids: Seq<u32>, times: Seq<nat>, n: int) -> Map<u32, u64>
    decreases n,
{
    if n <= 0 {
        Map::empty()
    } else {
        thread_table(tids, times, n - 1).insert(tids[n - 1], times[n - 1] as u64)
    }
}

/// The largest growth, over the first `n` threads that the previous table
/// knows and whose time did not go back, of their time; zero if none.
pub open spec fn max_thread_growth(
    tids: Seq<u32>,
    times: Seq<nat>,
    last: Map<u32, u64>,
    n: int,
) -> nat
    decreases n,
{
    if n <= 0 {
        0
    } else {
        let m = max_thread_growth(tids, times, last, n - 1);
        let tid = tids[n - 1];
        if last.contains_key(tid) && times[n - 1] >= last[tid] && times[n - 1] - last[tid] > m {
            (times[n - 1] - last[tid]) as nat
        } else {
            m
        }
    }
}

/// Thread `tids[i]` is known to the previous table and its time did not go
/// back, so its growth is measured.
pub open spec fn measured(tids: Seq<u32>, times: Seq<nat>, last: Map<u32, u64>, i: int) -> bool {
    &&& last.contains_key(tids[i])
    &&& times[i] >= last[tids[i]]
}

/// The thread-level figure is the busiest thread's growth: it is at least the
/// growth of every measured thread among the first `n`, and it is the growth
/// of one of them, or zero when none is measured.
pub proof fn law_thread_growth_is_busiest(
    tids: Seq<u32>,
    times: Seq<nat>,
    last: Map<u32, u64>,
    n: int,
)
    requires
        0 <= n <= tids.len(),
        times.len() == tids.len(),
    ensures
        forall|i: int|
            0 <= i < n && #[trigger] measured(tids, times, last, i) ==> max_thread_growth(
                tids,
                times,
                last,
                n,
            ) >= times[i] - last[tids[i]],
        max_thread_growth(tids, times, last, n) == 0 || exists|i: int|
            0 <= i < n && #[trigger] measured(tids, times, last, i) && max_thread_growth(
                tids,
                times,
                last,
                n,
            ) == times[i] - last[tids[i]],
    decreases n,
{
    if n > 0 {
        law_thread_growth_is_busiest(tids, times, last, n - 1);
        let m = max_thread_growth(tids, times, last, n - 1);
        if measured(tids, times, last, n - 1) && times[n - 1] - last[tids[n - 1]] > m {
            assert(max_thread_growth(tids, times, last, n) == times[n - 1] - last[tids[n - 1]]);
        } else {
            assert(max_thread_growth(tids, times, last, n) == m);
            if m != 0 {
                let w = choose|i: int|
                    0 <= i < n - 1 && #[trigger] measured(tids, times, last, i) && m == times[i]
                        - last[tids[i]];
                assert(measured(tids, times, last, w));
            }
        }
    }
}

impl ForegroundTracker {
    /// A tracker with no baseline.
    pub fn new() -> (r: Self)
        ensures
            r@.last_tgid_run == 0,
            r@.last_tgid_pid == 0,
            r@.last_thread_run == Map::<u32, u64>::empty(),
    {
        ForegroundTracker { last_tgid_run: 0, last_tgid_pid: 0, last_thread_run: HashMap::new() }
    }

    /// Notes the foreground process of this sample; a different process
    /// drops the baseline and the thread table.
    pub fn select_pid(&mut self, fg_pid: u32)
        ensures
            fg_pid == old(self)@.last_tgid_pid ==> final(self)@ == old(self)@,
            fg_pid != old(self)@.last_tgid_pid ==> final(self)@ == (ForegroundView {
                last_tgid_run: 0,
                last_tgid_pid: fg_pid,
                last_thread_run: Map::empty(),
            }),
    {
        if fg_pid != self.last_tgid_pid {
            self.last_tgid_run = 0;
            self.last_tgid_pid = fg_pid;
            self.last_thread_run.clear();
        }
    }

    /// Process-level sample: `raw` is the process's accumulated time.
    pub fn tgid_usage(
        &mut self,
        fg_pid: u32,
        raw: u64,
        current_tgid: &Option<Vec<u32>>,
        last_switch: &Option<Vec<u64>>,
        online: &Vec<u32>,
        now: u64,
    ) -> (r: TgidUsage)
        requires
            ({
                let pend = pending_for(
                    online@,
                    opt_seq32(*current_tgid),
                    opt_seq64(*last_switch),
                    fg_pid,
                    now,
                );
                &&& pend <= u64::MAX
                &&& raw >= old(self)@.last_tgid_run ==> raw - old(self)@.last_tgid_run + pend
                    <= u64::MAX
            }),
        ensures
            (final(self)@, r) == spec_tgid_usage(
                old(self)@,
                raw,
                pending_for(
                    online@,
                    opt_seq32(*current_tgid),
                    opt_seq64(*last_switch),
                    fg_pid,
                    now,
                ),
            ),
    {
        let ghost cur = opt_seq32(*current_tgid);
        let ghost ls = opt_seq64(*last_switch);
        if raw == 0 && self.last_tgid_run == 0 {
            return TgidUsage::Untracked;
        }
        let pending = pending_sum(online, current_tgid, last_switch, fg_pid, now);
        let prev = self.last_tgid_run;
        self.last_tgid_run = raw;
        if prev == 0 {
            return TgidUsage::Baseline;
        }
        if raw < prev {
            return TgidUsage::Baseline;
        }
        TgidUsage::Busy(raw - prev + pending)
    }

    /// Thread-level sample: `raw_times[i]` is the accumulated time of thread
    /// `tids[i]`. Returns the largest growth of a known thread's time; the
    /// thread table becomes this sample's times.
    pub fn thread_usage(
        &mut self,
        tids: &Vec<u32>,
        raw_times: &Vec<u64>,
        current_tid: &Option<Vec<u32>>,
        last_switch: &Option<Vec<u64>>,
        online: &Vec<u32>,
        now: u64,
    ) -> (r: u64)
        requires
            raw_times@.len() == tids@.len(),
            forall|i: int|
                0 <= i < tids@.len() ==> thread_time(
                    #[trigger] raw_times@[i],
                    online@,
                    opt_seq32(*current_tid),
                    opt_seq64(*last_switch),
                    tids@[i],
                    now,
                ) <= u64::MAX,
        ensures
            ({
                let times = Seq::new(
                    tids@.len(),
                    |i: int|
                        thread_time(
                            raw_times@[i],
                            online@,
                            opt_seq32(*current_tid),
                            opt_seq64(*last_switch),
                            tids@[i],
                            now,
                        ),
                );
                &&& r == max_thread_growth(
                    tids@,
                    times,
                    old(self)@.last_thread_run,
                    tids@.len() as int,
                )
                &&& final(self)@.last_thread_run == thread_table(tids@, times, tids@.len() as int)
                &&& final(self)@.last_tgid_run == old(self)@.last_tgid_run
                &&& final(self)@.last_tgid_pid == old(self)@.last_tgid_pid
            }),
    {
        let ghost cur = opt_seq32(*current_tid);
        let ghost ls = opt_seq64(*last_switch);
        let ghost times = Seq::new(
            tids@.len(),
            |i: int| thread_time(raw_times@[i], online@, cur, ls, tids@[i], now),
        );
        let ghost last = self.last_thread_run@;
        let mut current: HashMap<u32, u64> = HashMap::new();
        let mut max_growth: u64 = 0;
        let mut i: usize = 0;
        while i < tids.len()
            invariant
                i <= tids@.len(),
                raw_times@.len() == tids@.len(),
                cur == opt_seq32(*current_tid),
                ls == opt_seq64(*last_switch),
                times == Seq::new(
                    tids@.len(),
                    |i: int| thread_time(raw_times@[i], online@, cur, ls, tids@[i], now),
                ),
                forall|j: int|
                    0 <= j < tids@.len() ==> thread_time(
                        #[trigger] raw_times@[j],
                        online@,
                        cur,
                        ls,
                        tids@[j],
                        now,
                    ) <= u64::MAX,
                last == self.last_thread_run@,
                current@ == thread_table(tids@, times, i as int),
                max_growth == max_thread_growth(tids@, times, last, i as int),
            decreases tids@.len() - i,
        {
            let tid = tids[i];
            assert(thread_time(raw_times@[i as int], online@, cur, ls, tids@[i as int], now)
                <= u64::MAX);
            let p = pending_sum(online, current_tid, last_switch, tid, now);
            assert(times[i as int] == raw_times@[i as int] + p);
            let adj = raw_times[i] + p;
            current.insert(tid, adj);
            match self.last_thread_run.get(&tid) {
                Some(last_run) => {
                    if adj >= *last_run {
                        let g = adj - *last_run;
                        if g > max_growth {
                            max_growth = g;
                        }
                    }
                },
                None => {},
            }
            i += 1;
        }
        self.last_thread_run = current;
        max_growth
    }
}

/// Computes `pending_for`.
fn pending_sum(
    online: &Vec<u32>,
    current: &Option<Vec<u32>>,
    last_switch: &Option<Vec<u64>>,
    key: u32,
    now: u64,
) -> (r: u64)
    requires
        pending_for(
            online@,
            opt_seq32(*current),
            opt_seq64(*last_switch),
            key,
            now,
        ) <= u64::MAX,
    ensures
        r == pending_for(
            online@,
            opt_seq32(*current),
            opt_seq64(*last_switch),
            key,
            now,
        ),
{
    let ghost cur = opt_seq32(*current);
    let ghost ls = opt_seq64(*last_switch);
    let mut sum: u64 = 0;
    match current {
        None => {
            let mut k: usize = 0;
            while k < online.len()
                invariant
                    k <= online@.len(),
                    cur is None,
                    sum == 0,
                    pending_for(online@.take(k as int), cur, ls, key, now) == 0,
                decreases online@.len() - k,
            {
                assert(online@.take(k + 1).drop_last() == online@.take(k as int));
                k += 1;
            }
            assert(online@.take(online@.len() as int) == online@);
            return 0;
        },
        Some(cur_v) => {
            let mut k: usize = 0;
            proof {
                lemma_pending_prefix_le(online@, cur, ls, key, now, 0);
            }
            while k < online.len()
                invariant
                    k <= online@.len(),
                    cur == Some(cur_v@),
                    ls == opt_seq64(*last_switch),
                    pending_for(online@, cur, ls, key, now) <= u64::MAX,
                    sum == pending_for(online@.take(k as int), cur, ls, key, now),
                decreases online@.len() - k,
            {
                let cpu = online[k];
                let idx = cpu as usize;
                assert(online@.take(k + 1).drop_last() == online@.take(k as int));
                assert(online@.take(k + 1).last() == cpu);
                let t = if idx < cur_v.len() {
                    cur_v[idx]
                } else {
                    0
                };
                let lsw: u64 = match last_switch {
                    Some(v) => if idx < v.len() {
                        v[idx]
                    } else {
                        0
                    },
                    None => 0,
                };
                let p = now.saturating_sub(lsw);
                proof {
                    lemma_pending_prefix_le(online@, cur, ls, key, now, k + 1);
                }
                if t == key && p < PENDING_LIMIT_NS {
                    sum = sum + p;
                }
                k += 1;
            }
            assert(online@.take(online@.len() as int) == online@);
            sum
        },
    }
}

proof fn lemma_pending_prefix_le(
    online: Seq<u32>,
    current: Option<Seq<u32>>,
    last_switch: Option<Seq<u64>>,
    key: u32,
    now: u64,
    k: int,
)
    requires
        0 <= k <= online.len(),
    ensures
        pending_for(online.take(k), current, last_switch, key, now) <= pending_for(
            online,
            current,
            last_switch,
            key,
            now,
        ),
    decreases online.len() - k,
{
    if k < online.len() {
        lemma_pending_prefix_le(online, current, last_switch, key, now, k + 1);
        assert(online.take(k + 1).drop_last() == online.take(k));
    } else {
        assert(online.take(k) == online);
    }
}

/// The thread ids among the entries of `/proc/<pid>/task`: the names that
/// parse as `u32`, in the order given.
pub open spec fn tid_entries(names: Seq<Seq<char>>) -> Seq<u32>
    decreases names.len(),
{
    if names.len() == 0 {
        Seq::empty()
    } else {
        let p = tid_entries(names.drop_last());
        match parse_unsigned_spec(names.last(), u32::MAX as nat) {
            Some(v) => p.push(v as u32),
            None => p,
        }
    }
}

/// The thread ids of a process from its task directory's entry names
/// (`get_thread_tids` once the directory is read).
pub fn thread_ids(names: &Vec<String>) -> (r: Vec<u32>)
    ensures
        r@ == tid_entries(names@.map_values(|n: String| n@)),
{
    let ghost nv = names@.map_values(|n: String| n@);
    let mut ids: Vec<u32> = Vec::new();
    let mut i: usize = 0;
    while i < names.len()
        invariant
            i <= names@.len(),
            nv == names@.map_values(|n: String| n@),
            ids@ == tid_entries(nv.take(i as int)),
        decreases names@.len() - i,
    {
        assert(nv.take(i + 1).drop_last() == nv.take(i as int));
        assert(nv.take(i + 1).last() == names@[i as int]@);
        match parse_u32(chars_of(names[i].as_str()).as_slice()) {
            Some(v) => {
                ids.push(v);
            },
            None => {},
        }
        i += 1;
    }
    assert(nv.take(names@.len() as int) == nv);
    ids
}

/// A monotonic clock reading in nanoseconds, from its seconds and
/// nanoseconds (as `bpf_ktime_get_ns` counts).
pub fn ktime_ns(sec: u64, nsec: u64) -> (r: u64)
    requires
        sec * 1_000_000_000 + nsec <= u64::MAX,
    ensures
        r == sec * 1_000_000_000 + nsec,
{
    sec * 1_000_000_000 + nsec
}

} // verus!
