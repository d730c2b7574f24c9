//! A model of the accounting that the `sched_switch` probe performs on each
//! context switch: per-core idle and busy time, run time per thread and per
//! process.
//!
//! The probe that runs in the kernel is an eBPF program, shipped prebuilt as
//! `core/bin/bpf_probe.o` and built separately from its own source. This
//! module states and verifies the same accounting as ordinary Rust, so that
//! the monitor's side (`cpu_load`) can be read against it; nothing checks
//! that the prebuilt object computes what this model does.

use vstd::prelude::*;
use std::collections::HashMap;

verus! {

broadcast use vstd::std_specs::hash::group_hash_axioms;

/// A gap between two switches on a core longer than this is not counted.
pub const SWITCH_GAP_LIMIT_NS: u64 = 10_000_000_000;

/// How many threads the per-thread run time table holds.
pub const THREAD_TABLE_CAPACITY: usize = 32768;

/// How many processes the per-process run time table holds.
pub const PROCESS_TABLE_CAPACITY: usize = 1024;

/// The per-core slots of the probe.
#[derive(Debug, Clone, Copy)]
pub struct CoreSlots {
    /// When the core last switched tasks.
    pub last_time: u64,
    /// Idle nanoseconds counted on the core.
    pub idle_time: u64,
    /// Busy nanoseconds counted on the core.
    pub busy_time: u64,
    /// The thread running on the core.
    pub current_tid: u32,
    /// The process of the thread running on the core.
    pub current_tgid: u32,
}

/// A run time table of fixed capacity, keyed by thread or process id.
pub struct RunTimeTable {
    table: HashMap<u32, u64>,
    capacity: usize,
}

/// `a + b` modulo 2^64, as the probe's additions wrap.
pub open spec fn wrap_add(a: u64, b: u64) -> u64 {
    ((a as int + b as int) % 0x1_0000_0000_0000_0000) as u64
}

/// Adding `delta` to the entry of `key`: an existing entry grows (wrapping),
/// a new key gets an entry when the table has room, and is dropped
/// otherwise.
pub open spec fn add_spec(m: Map<u32, u64>, capacity: nat, key: u32, delta: u64) -> Map<u32, u64> {
    if m.contains_key(key) {
        m.insert(key, wrap_add(m[key], delta))
    } else if m.len() < capacity {
        m.insert(key, delta)
    } else {
        m
    }
}

impl View for RunTimeTable {
    type V = Map<u32, u64>;

    closed spec fn view(&self) -> Map<u32, u64> {
        self.table@
    }
}

impl RunTimeTable {
    pub closed spec fn capacity(&self) -> nat {
        self.capacity as nat
    }

    /// The table never holds more entries than its capacity.
    pub closed spec fn wf(&self) -> bool {
        self.table@.len() <= self.capacity
    }

    /// An empty table of the given capacity.
    pub fn new(capacity: usize) -> (r: RunTimeTable)
        ensures
            r.wf(),
            r@ == Map::<u32, u64>::empty(),
            r.capacity() == capacity,
    {
        RunTimeTable { table: HashMap::new(), capacity }
    }

    /// The run time recorded for `key`.
    pub fn get(&self, key: u32) -> (r: Option<u64>)
        ensures
            r == (if self@.contains_key(key) {
                Some(self@[key])
            } else {
                None
            }),
    {
        match self.table.get(&key) {
            Some(v) => Some(*v),
            None => None,
        }
    }

    /// How many entries the table holds.
    pub fn len(&self) -> (r: usize)
        ensures
            r == self@.len(),
    {
        self.table.len()
    }

    /// Adds `delta` to the entry of `key` (`add_to_hash`).
    pub fn add(&mut self, key: u32, delta: u64)
        requires
            old(self).wf(),
        ensures
            final(self).wf(),
            final(self).capacity() == old(self).capacity(),
            final(self)@ == add_spec(old(self)@, old(self).capacity(), key, delta),
    {
        let cur = match self.table.get(&key) {
            Some(v) => Some(*v),
            None => None,
        };
        match cur {
            Some(v) => {
                self.table.insert(key, v.wrapping_add(delta));
                assert(self.table@.dom() =~= old(self).table@.dom());
            },
            None => {
                if self.table.len() < self.capacity {
                    self.table.insert(key, delta);
                }
            },
        }
    }
}

/// What the probe does on one context switch at `now` on a core, from
/// thread `prev_tid` to thread `next_tid` of process `next_tgid`: the time
/// since the core's last switch, when positive and under the gap limit,
/// counts as idle time when the previous thread was the idle task (tid 0),
/// and otherwise as busy time of the core, run time of the thread, and run
/// time of the previous thread's process when that is known; then the core
/// records the switch.
pub open spec fn switch_spec(
    core: CoreSlots,
    threads: Map<u32, u64>,
    processes: Map<u32, u64>,
    now: u64,
    prev_tid: i32,
    next_tid: i32,
    next_tgid: u32,
) -> (CoreSlots, Map<u32, u64>, Map<u32, u64>) {
    let delta: u64 = if now >= core.last_time {
        (now - core.last_time) as u64
    } else {
        0
    };
    let counted = delta > 0 && delta < SWITCH_GAP_LIMIT_NS;
    let idle = counted && prev_tid == 0;
    let busy = counted && prev_tid != 0;
    let after = CoreSlots {
        last_time: now,
        idle_time: if idle {
            wrap_add(core.idle_time, delta)
        } else {
            core.idle_time
        },
        busy_time: if busy {
            wrap_add(core.busy_time, delta)
        } else {
            core.busy_time
        },
        current_tid: next_tid as u32,
        current_tgid: next_tgid,
    };
    let threads2 = if busy {
        add_spec(threads, THREAD_TABLE_CAPACITY as nat, prev_tid as u32, delta)
    } else {
        threads
    };
    let processes2 = if busy && core.current_tgid > 0 {
        add_spec(processes, PROCESS_TABLE_CAPACITY as nat, core.current_tgid, delta)
    } else {
        processes
    };
    (after, threads2, processes2)
}

/// The accounting of one context switch (`try_handle_sched_switch`).
pub fn handle_sched_switch(
    core: &mut CoreSlots,
    threads: &mut RunTimeTable,
    processes: &mut RunTimeTable,
    now: u64,
    prev_tid: i32,
    next_tid: i32,
    next_tgid: u32,
)
    requires
        old(threads).wf(),
        old(processes).wf(),
        old(threads).capacity() == THREAD_TABLE_CAPACITY,
        old(processes).capacity() == PROCESS_TABLE_CAPACITY,
    ensures
        final(threads).wf(),
        final(processes).wf(),
        final(threads).capacity() == THREAD_TABLE_CAPACITY,
        final(processes).capacity() == PROCESS_TABLE_CAPACITY,
        (*final(core), final(threads)@, final(processes)@) == switch_spec(
            *old(core),
            old(threads)@,
            old(processes)@,
            now,
            prev_tid,
            next_tid,
            next_tgid,
        ),
{
    let delta = now.saturating_sub(core.last_time);
    if delta > 0 && delta < SWITCH_GAP_LIMIT_NS {
        if prev_tid == 0 {
            core.idle_time = core.idle_time.wrapping_add(delta);
        } else {
            core.busy_time = core.busy_time.wrapping_add(delta);
            threads.add(prev_tid as u32, delta);
            let prev_tgid = core.current_tgid;
            if prev_tgid > 0 {
                processes.add(prev_tgid, delta);
            }
        }
    }
    core.last_time = now;
    core.current_tid = next_tid as u32;
    core.current_tgid = next_tgid;
}

/// Each counted interval between two switches on a core goes to exactly one
/// of the core's idle and busy counters (barring wrap-around): together they
/// grow by the interval, and not at all when the interval is not counted.
pub proof fn law_switch_time_split(
    core: CoreSlots,
    threads: Map<u32, u64>,
    processes: Map<u32, u64>,
    now: u64,
    prev_tid: i32,
    next_tid: i32,
    next_tgid: u32,
)
    requires
        core.idle_time + core.busy_time + SWITCH_GAP_LIMIT_NS <= u64::MAX,
    ensures
        ({
            let after = switch_spec(core, threads, processes, now, prev_tid, next_tid, next_tgid).0;
            let delta = if now >= core.last_time {
                now - core.last_time
            } else {
                0
            };
            if 0 < delta < SWITCH_GAP_LIMIT_NS {
                after.idle_time + after.busy_time == core.idle_time + core.busy_time + delta
            } else {
                after.idle_time == core.idle_time && after.busy_time == core.busy_time
            }
        }),
{
}

/// A switch away from a thread that is already in the thread table grows
/// its entry by the counted interval (barring wrap-around), and leaves every
/// other entry as it was.
pub proof fn law_thread_time_grows(
    core: CoreSlots,
    threads: Map<u32, u64>,
    processes: Map<u32, u64>,
    now: u64,
    prev_tid: i32,
    next_tid: i32,
    next_tgid: u32,
    other: u32,
)
    requires
        prev_tid != 0,
        threads.contains_key(prev_tid as u32),
        threads[prev_tid as u32] + SWITCH_GAP_LIMIT_NS <= u64::MAX,
        other != prev_tid as u32,
    ensures
        ({
            let after = switch_spec(core, threads, processes, now, prev_tid, next_tid, next_tgid).1;
            let delta = if now >= core.last_time {
                now - core.last_time
            } else {
                0
            };
            &&& after.contains_key(prev_tid as u32)
            &&& (0 < delta < SWITCH_GAP_LIMIT_NS ==> after[prev_tid as u32] == threads[prev_tid
                as u32] + delta)
            &&& (!(0 < delta < SWITCH_GAP_LIMIT_NS) ==> after[prev_tid as u32] == threads[prev_tid
                as u32])
            &&& after.contains_key(other) == threads.contains_key(other)
            &&& (threads.contains_key(other) ==> after[other] == threads[other])
        }),
{
}

/// A switch credits process time only to the process that was running on
/// the core (the previous thread's process, which the core recorded at the
/// last switch), never to the process switched to: every other process entry
/// is left as it was, and the previous process's existing entry grows by the
/// counted interval of a busy switch (barring wrap-around), or gets an entry
/// of that interval when the table has room.
pub proof fn law_process_time_goes_to_previous(
    core: CoreSlots,
    threads: Map<u32, u64>,
    processes: Map<u32, u64>,
    now: u64,
    prev_tid: i32,
    next_tid: i32,
    next_tgid: u32,
    other: u32,
)
    requires
        other != core.current_tgid,
        processes.contains_key(core.current_tgid) ==> processes[core.current_tgid]
            + SWITCH_GAP_LIMIT_NS <= u64::MAX,
    ensures
        ({
            let after = switch_spec(core, threads, processes, now, prev_tid, next_tid, next_tgid).2;
            let p = core.current_tgid;
            let delta = if now >= core.last_time {
                now - core.last_time
            } else {
                0
            };
            let busy = 0 < delta < SWITCH_GAP_LIMIT_NS && prev_tid != 0 && p > 0;
            &&& after.contains_key(other) == processes.contains_key(other)
            &&& (processes.contains_key(other) ==> after[other] == processes[other])
            &&& (!busy ==> after == processes)
            &&& (busy && processes.contains_key(p) ==> after[p] == processes[p] + delta)
            &&& (busy && !processes.contains_key(p) && processes.len() < PROCESS_TABLE_CAPACITY
                ==> after.contains_key(p) && after[p] == delta)
        }),
{
    let p = core.current_tgid;
    let delta: u64 = if now >= core.last_time {
        (now - core.last_time) as u64
    } else {
        0
    };
    if processes.contains_key(p) && delta < SWITCH_GAP_LIMIT_NS {
        assert(wrap_add(processes[p], delta) == processes[p] + delta) by {
            assert(processes[p] + delta < 0x1_0000_0000_0000_0000);
        }
    }
}

} // verus!
