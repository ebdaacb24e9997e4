//! The scheduler: which targets are watched, which scans are running, and
//! when the next round of scans is due.
//!
//! Times are milliseconds on a monotonic clock of the caller's choosing.

use vstd::prelude::*;
use std::collections::{BTreeMap, HashSet};

use super::MonitorCmd;
use crate::state::target::TargetId;
use vstd::arithmetic::div_mod::{lemma_fundamental_div_mod, lemma_fundamental_div_mod_converse, lemma_mod_bound};

verus! {

/// A scan that the scheduler asks a worker to run.
#[derive(Debug, Clone)]
pub struct ScanTaskRequest {
    pub id: TargetId,
    pub path: String,
}

/// The scheduler's state.
pub struct SchedulerState {
    /// The watched targets: the number of their id, and their path.
    pub targets: BTreeMap<u64, String>,
    /// The targets whose scan was handed out and has not completed.
    pub in_flight: HashSet<u64>,
    /// The polling interval, in milliseconds.
    pub interval: u64,
    /// When the last round of scans was handed out, in milliseconds.
    pub last_tick: u64,
}

/// The time from `last` to `now`, or 0 when `now` is earlier.
pub open spec fn elapsed(now: u64, last: u64) -> int {
    if now >= last {
        now - last
    } else {
        0
    }
}

/// Whether a round of scans is due at `now`: some target is watched and a
/// whole interval has passed since the last round.
pub open spec fn tick_due(s: SchedulerState, now: u64) -> bool {
    !s.targets@.is_empty() && elapsed(now, s.last_tick) >= s.interval
}

/// `tasks` asks for a scan of each target of `targets` that is not `busy`,
/// with its path, once, in increasing order of id, and of nothing else.
pub open spec fn is_dispatch(tasks: Seq<ScanTaskRequest>, targets: Map<u64, String>, busy: Set<u64>) -> bool {
    &&& forall|i: int, j: int| 0 <= i < j < tasks.len() ==> tasks[i].id.0 < tasks[j].id.0
    &&& forall|i: int|
        0 <= i < tasks.len() ==> targets.contains_key(#[trigger] tasks[i].id.0) && !busy.contains(
            tasks[i].id.0,
        ) && tasks[i].path@ == targets[tasks[i].id.0]@
    &&& forall|k: u64|
        #[trigger] targets.contains_key(k) && !busy.contains(k) ==> exists|i: int|
            0 <= i < tasks.len() && tasks[i].id.0 == k
}

/// `new` and `tasks` are the outcome of a tick at `now` from `old`: when a
/// round is due, every watched target that is not being scanned is handed
/// out and marked in flight, and the round is dated `now`; otherwise nothing
/// is handed out and nothing changes.
pub open spec fn tick_outcome(old: SchedulerState, new: SchedulerState, now: u64, tasks: Seq<ScanTaskRequest>) -> bool {
    &&& new.targets@ == old.targets@
    &&& new.interval == old.interval
    &&& if tick_due(old, now) {
        &&& new.last_tick == now
        &&& is_dispatch(tasks, old.targets@, old.in_flight@)
        &&& new.in_flight@ == old.in_flight@ + old.targets@.dom()
    } else {
        &&& tasks.len() == 0
        &&& new.last_tick == old.last_tick
        &&& new.in_flight@ == old.in_flight@
    }
}

/// The keys of `m`, in increasing order.
pub(crate) fn sorted_keys<V>(m: &BTreeMap<u64, V>) -> (v: Vec<u64>)
    ensures
        forall|i: int, j: int| 0 <= i < j < v@.len() ==> v@[i] < v@[j],
        forall|k: u64| m@.contains_key(k) <==> v@.contains(k),
{
    let it0 = m.keys();
    let ghost rem = vstd::std_specs::iter::IteratorSpec::remaining(&it0);
    let ghost ks = rem.unref();
    proof {
        assert(vstd::std_specs::btree::key_obeys_cmp_spec::<u64>());
        assert(it0 == vstd::std_specs::btree::spec_keys_iter(m));
        assert(vstd::std_specs::btree::increasing_seq(rem));
        assert(vstd::laws_cmp::obeys_cmp::<&u64>());
        assert(ks.to_set() == m@.dom());
        assert forall|k: u64| m@.contains_key(k) <==> ks.contains(k) by {
            if m@.contains_key(k) {
                assert(ks.to_set().contains(k));
            }
            if ks.contains(k) {
                assert(ks.to_set().contains(k));
            }
        }
        assert forall|i: int, j: int| 0 <= i < j < ks.len() implies ks[i] < ks[j] by {
            assert(vstd::std_specs::cmp::OrdSpec::cmp_spec(&rem[i], &rem[j]) is Less);
        }
    }
    let mut v: Vec<u64> = Vec::new();
    let ghost mut seen: int = 0;
    for k in iter: it0
        invariant
            iter.seq().unref() == ks,
            seen == iter.index(),
            v@ == ks.take(seen),
    {
        v.push(*k);
        proof {
            seen = seen + 1;
            assert(v@ =~= ks.take(seen));
        }
    }
    assert(v@ =~= ks);
    v
}

/// `tasks` is the dispatch of the first `n` keys of `keys`: one task for
/// each of them that is not `busy`, in the order of `keys`, with its path.
#[verifier::opaque]
spec fn dispatch_prefix(tasks: Seq<ScanTaskRequest>, keys: Seq<u64>, n: int, busy: Set<u64>, targets: Map<u64, String>) -> bool {
    &&& forall|a: int, b: int| 0 <= a < b < tasks.len() ==> tasks[a].id.0 < tasks[b].id.0
    &&& forall|a: int|
        0 <= a < tasks.len() ==> (exists|m: int| 0 <= m < n && keys[m] == (#[trigger] tasks[a]).id.0)
            && !busy.contains(tasks[a].id.0) && targets.contains_key(tasks[a].id.0) && tasks[a].path@
            == targets[tasks[a].id.0]@
    &&& forall|m: int|
        0 <= m < n && !busy.contains(#[trigger] keys[m]) ==> exists|a: int|
            0 <= a < tasks.len() && tasks[a].id.0 == keys[m]
}

proof fn lemma_dispatch_step(
    before: Seq<ScanTaskRequest>,
    after: Seq<ScanTaskRequest>,
    keys: Seq<u64>,
    i: int,
    busy: Set<u64>,
    targets: Map<u64, String>,
)
    requires
        0 <= i < keys.len(),
        forall|a: int, b: int| 0 <= a < b < keys.len() ==> keys[a] < keys[b],
        targets.contains_key(keys[i]),
        dispatch_prefix(before, keys, i, busy, targets),
        busy.contains(keys[i]) ==> after == before,
        !busy.contains(keys[i]) ==> after.len() == before.len() + 1 && after.drop_last() == before
            && after.last().id.0 == keys[i] && after.last().path@ == targets[keys[i]]@,
    ensures
        dispatch_prefix(after, keys, i + 1, busy, targets),
{
    reveal(dispatch_prefix);
    if !busy.contains(keys[i]) {
        assert forall|a: int| 0 <= a < before.len() implies after[a] == before[a] by {
            assert(after.drop_last()[a] == after[a]);
        }
        assert forall|a: int, b: int| 0 <= a < b < after.len() implies after[a].id.0 < after[b].id.0 by {
            if b == after.len() - 1 {
                let m = choose|m: int| 0 <= m < i && keys[m] == (#[trigger] before[a]).id.0;
            }
        }
        assert forall|m: int|
            0 <= m < i + 1 && !busy.contains(#[trigger] keys[m]) implies exists|a: int|
            0 <= a < after.len() && after[a].id.0 == keys[m] by {
            if m < i {
                let a = choose|a: int| 0 <= a < before.len() && before[a].id.0 == keys[m];
                assert(after[a] == before[a]);
            } else {
                assert(after[before.len() as int].id.0 == keys[m]);
            }
        }
        assert forall|a: int|
            0 <= a < after.len() implies (exists|m: int| 0 <= m < i + 1 && keys[m] == (#[trigger] after[a]).id.0)
            && !busy.contains(after[a].id.0) && targets.contains_key(after[a].id.0) && after[a].path@
            == targets[after[a].id.0]@ by {
            if a == before.len() {
                assert(keys[i] == after[a].id.0);
            }
        }
    }
}

proof fn lemma_dispatch_done(tasks: Seq<ScanTaskRequest>, keys: Seq<u64>, busy: Set<u64>, targets: Map<u64, String>)
    requires
        forall|k: u64| targets.contains_key(k) <==> keys.contains(k),
        dispatch_prefix(tasks, keys, keys.len() as int, busy, targets),
    ensures
        is_dispatch(tasks, targets, busy),
{
    reveal(dispatch_prefix);
    assert forall|k: u64| #[trigger] targets.contains_key(k) && !busy.contains(k) implies exists|a: int|
        0 <= a < tasks.len() && tasks[a].id.0 == k by {
        assert(keys.contains(k));
        let m = choose|m: int| 0 <= m < keys.len() && keys[m] == k;
        assert(!busy.contains(keys[m]));
    }
}

/// `new` and `tasks` are the outcome of the command `cmd` from `old`:
/// `AddTarget` watches the path under the id, `RemoveTarget` forgets the
/// target and its scan in flight, `SetInterval` sets the interval,
/// `TriggerImmediate` hands out a scan of a watched target that is not in
/// flight and marks it in flight, and `Shutdown` changes nothing. Only
/// `TriggerImmediate` hands out a scan.
pub open spec fn command_outcome(old: SchedulerState, new: SchedulerState, cmd: MonitorCmd, tasks: Seq<ScanTaskRequest>) -> bool {
    &&& new.last_tick == old.last_tick
    &&& match cmd {
        MonitorCmd::AddTarget { id, path, kind: _ } => {
            &&& new.targets@ == old.targets@.insert(id.0, path)
            &&& new.in_flight@ == old.in_flight@
            &&& new.interval == old.interval
            &&& tasks.len() == 0
        },
        MonitorCmd::RemoveTarget(id) => {
            &&& new.targets@ == old.targets@.remove(id.0)
            &&& new.in_flight@ == old.in_flight@.remove(id.0)
            &&& new.interval == old.interval
            &&& tasks.len() == 0
        },
        MonitorCmd::SetInterval(ms) => {
            &&& new.targets@ == old.targets@
            &&& new.in_flight@ == old.in_flight@
            &&& new.interval == ms
            &&& tasks.len() == 0
        },
        MonitorCmd::TriggerImmediate(id) => {
            &&& new.targets@ == old.targets@
            &&& new.interval == old.interval
            &&& if old.targets@.contains_key(id.0) && !old.in_flight@.contains(id.0) {
                &&& new.in_flight@ == old.in_flight@.insert(id.0)
                &&& tasks.len() == 1
                &&& tasks[0].id == id
                &&& tasks[0].path@ == old.targets@[id.0]@
            } else {
                &&& new.in_flight@ == old.in_flight@
                &&& tasks.len() == 0
            }
        },
        MonitorCmd::Shutdown => {
            &&& new.targets@ == old.targets@
            &&& new.in_flight@ == old.in_flight@
            &&& new.interval == old.interval
            &&& tasks.len() == 0
        },
    }
}

impl SchedulerState {
    /// A scheduler with no target and nothing in flight, polling every
    /// `interval` milliseconds, whose last round is dated `now`.
    pub fn new(interval: u64, now: u64) -> (s: SchedulerState)
        ensures
            s.targets@ == Map::<u64, String>::empty(),
            s.in_flight@ == Set::<u64>::empty(),
            s.interval == interval,
            s.last_tick == now,
    {
        SchedulerState { targets: BTreeMap::new(), in_flight: HashSet::new(), interval, last_tick: now }
    }

    /// Applies a command of the interface and returns the scans to hand out
    /// at once.
    pub fn apply(&mut self, cmd: MonitorCmd) -> (tasks: Vec<ScanTaskRequest>)
        ensures
            command_outcome(*old(self), *final(self), cmd, tasks@),
    {
        match cmd {
            MonitorCmd::AddTarget { id, path, kind: _ } => {
                self.targets.insert(id.0, path);
                Vec::new()
            },
            MonitorCmd::RemoveTarget(id) => {
                self.targets.remove(&id.0);
                self.in_flight.remove(&id.0);
                Vec::new()
            },
            MonitorCmd::SetInterval(ms) => {
                self.interval = ms as u64;
                Vec::new()
            },
            MonitorCmd::TriggerImmediate(id) => {
                if self.targets.contains_key(&id.0) && !self.in_flight.contains(&id.0) {
                    let path = self.targets.get(&id.0).unwrap().clone();
                    self.in_flight.insert(id.0);
                    let mut tasks = Vec::new();
                    tasks.push(ScanTaskRequest { id, path });
                    tasks
                } else {
                    Vec::new()
                }
            },
            MonitorCmd::Shutdown => Vec::new(),
        }
    }

    /// Hands out a round of scans when one is due at `now`.
    pub fn on_tick(&mut self, now: u64) -> (tasks: Vec<ScanTaskRequest>)
        ensures
            tick_outcome(*old(self), *final(self), now, tasks@),
    {
        if self.targets.is_empty() {
            return Vec::new();
        }
        let elapsed_ms: u64 = if now >= self.last_tick {
            now - self.last_tick
        } else {
            0
        };
        if elapsed_ms < self.interval {
            return Vec::new();
        }
        self.last_tick = now;
        let tasks = self.collect_idle();
        self.mark_in_flight(&tasks);
        proof {
            assert forall|k: u64| self.in_flight@.contains(k) <==> (old(self).in_flight@ + old(self).targets@.dom()).contains(k) by {
                if old(self).targets@.contains_key(k) && !old(self).in_flight@.contains(k) {
                    assert(exists|a: int| 0 <= a < tasks@.len() && tasks@[a].id.0 == k);
                }
                if exists|a: int| 0 <= a < tasks@.len() && tasks@[a].id.0 == k {
                    let a = choose|a: int| 0 <= a < tasks@.len() && tasks@[a].id.0 == k;
                    assert(old(self).targets@.contains_key(tasks@[a].id.0));
                }
            }
            assert(self.in_flight@ =~= old(self).in_flight@ + old(self).targets@.dom());
        }
        tasks
    }

    /// The watched targets that are not in flight, in increasing order of id.
    fn collect_idle(&self) -> (tasks: Vec<ScanTaskRequest>)
        ensures
            is_dispatch(tasks@, self.targets@, self.in_flight@),
    {
        let keys = sorted_keys(&self.targets);
        let mut tasks: Vec<ScanTaskRequest> = Vec::new();
        let mut i: usize = 0;
        proof {
            reveal(dispatch_prefix);
        }
        while i < keys.len()
            invariant
                i <= keys@.len(),
                forall|a: int, b: int| 0 <= a < b < keys@.len() ==> keys@[a] < keys@[b],
                forall|k: u64| self.targets@.contains_key(k) <==> keys@.contains(k),
                dispatch_prefix(tasks@, keys@, i as int, self.in_flight@, self.targets@),
            decreases keys@.len() - i,
        {
            let k = keys[i];
            assert(keys@.contains(k));
            let ghost before = tasks@;
            if !self.in_flight.contains(&k) {
                let path = self.targets.get(&k).unwrap().clone();
                tasks.push(ScanTaskRequest { id: TargetId(k), path });
                assert(tasks@.drop_last() =~= before);
            }
            proof {
                lemma_dispatch_step(before, tasks@, keys@, i as int, self.in_flight@, self.targets@);
            }
            i = i + 1;
        }
        proof {
            lemma_dispatch_done(tasks@, keys@, self.in_flight@, self.targets@);
        }
        tasks
    }

    /// Marks the targets of `tasks` in flight.
    fn mark_in_flight(&mut self, tasks: &Vec<ScanTaskRequest>)
        ensures
            forall|k: u64| #[trigger] final(self).in_flight@.contains(k) <==> old(self).in_flight@.contains(k)
                || exists|a: int| 0 <= a < tasks@.len() && tasks@[a].id.0 == k,
            final(self).targets@ == old(self).targets@,
            final(self).interval == old(self).interval,
            final(self).last_tick == old(self).last_tick,
    {
        let mut i: usize = 0;
        while i < tasks.len()
            invariant
                i <= tasks@.len(),
                forall|k: u64| #[trigger] self.in_flight@.contains(k) <==> old(self).in_flight@.contains(k)
                    || exists|a: int| 0 <= a < i && tasks@[a].id.0 == k,
                self.targets@ == old(self).targets@,
                self.interval == old(self).interval,
                self.last_tick == old(self).last_tick,
            decreases tasks@.len() - i,
        {
            self.in_flight.insert(tasks[i].id.0);
            proof {
                assert forall|k: u64| #[trigger] self.in_flight@.contains(k) <==> old(self).in_flight@.contains(k)
                    || exists|a: int| 0 <= a < i + 1 && tasks@[a].id.0 == k by {
                    if k == tasks@[i as int].id.0 {
                        assert(tasks@[i as int].id.0 == k);
                    }
                }
            }
            i = i + 1;
        }
    }

    /// A scan of the target `id` completed: it is no longer in flight.
    pub fn on_scan_done(&mut self, id: TargetId)
        ensures
            final(self).in_flight@ == old(self).in_flight@.remove(id.0),
            final(self).targets@ == old(self).targets@,
            final(self).interval == old(self).interval,
            final(self).last_tick == old(self).last_tick,
    {
        self.in_flight.remove(&id.0);
    }
}

/// A scan is only ever handed out for a target that is not in flight, and
/// that target is in flight afterwards; so no target is scanned twice at
/// once, and with no target nothing is ever handed out.
pub proof fn lemma_tick_never_overlaps(old: SchedulerState, new: SchedulerState, now: u64, tasks: Seq<ScanTaskRequest>)
    requires
        tick_outcome(old, new, now, tasks),
    ensures
        forall|i: int|
            0 <= i < tasks.len() ==> !old.in_flight@.contains(#[trigger] tasks[i].id.0)
                && new.in_flight@.contains(tasks[i].id.0),
        old.targets@.is_empty() ==> tasks.len() == 0,
{
}

/// Scanning a target at once never overlaps a scan of it in flight either.
pub proof fn lemma_trigger_never_overlaps(old: SchedulerState, new: SchedulerState, id: TargetId, tasks: Seq<ScanTaskRequest>)
    requires
        command_outcome(old, new, MonitorCmd::TriggerImmediate(id), tasks),
    ensures
        forall|i: int|
            0 <= i < tasks.len() ==> !old.in_flight@.contains(#[trigger] tasks[i].id.0)
                && new.in_flight@.contains(tasks[i].id.0),
{
}

/// Two ticks with no completed scan between them never hand out the same
/// target.
pub proof fn lemma_no_concurrent_scan(
    s0: SchedulerState,
    s1: SchedulerState,
    s2: SchedulerState,
    t1: u64,
    t2: u64,
    first: Seq<ScanTaskRequest>,
    second: Seq<ScanTaskRequest>,
)
    requires
        tick_outcome(s0, s1, t1, first),
        tick_outcome(s1, s2, t2, second),
    ensures
        forall|i: int, j: int| 0 <= i < first.len() && 0 <= j < second.len() ==> first[i].id != second[j].id,
{
    lemma_tick_never_overlaps(s0, s1, t1, first);
    lemma_tick_never_overlaps(s1, s2, t2, second);
    assert forall|i: int, j: int| 0 <= i < first.len() && 0 <= j < second.len() implies first[i].id != second[j].id by {
        assert(s1.in_flight@.contains(first[i].id.0));
        assert(!s1.in_flight@.contains(second[j].id.0));
    }
}

/// Changing the interval keeps the scans in flight.
pub proof fn lemma_set_interval_keeps_in_flight(old: SchedulerState, new: SchedulerState, ms: u32, tasks: Seq<ScanTaskRequest>)
    requires
        command_outcome(old, new, MonitorCmd::SetInterval(ms), tasks),
    ensures
        new.in_flight@ == old.in_flight@,
        new.interval == ms,
        tasks.len() == 0,
{
}

/// The clock part of a tick: the interval is kept, and the round is dated
/// `now` when it was due and keeps its date otherwise.
pub open spec fn tick_clock(old: SchedulerState, new: SchedulerState, now: u64) -> bool {
    &&& new.interval == old.interval
    &&& new.last_tick == if tick_due(old, now) {
        now
    } else {
        old.last_tick
    }
}

/// Over a run of ticks at non-decreasing times, the date of the last round
/// is at least the time of any earlier round that was due and never passes
/// the time of the next tick.
proof fn lemma_last_tick_bounds(states: Seq<SchedulerState>, times: Seq<u64>, i: int, j: int)
    requires
        states.len() == times.len() + 1,
        forall|k: int| 0 <= k < times.len() ==> tick_clock(#[trigger] states[k], states[k + 1], times[k]),
        forall|a: int, b: int| 0 <= a <= b < times.len() ==> times[a] <= times[b],
        0 <= i < j <= times.len(),
        tick_due(states[i], times[i]),
    ensures
        times[i] <= states[j].last_tick,
        j < times.len() ==> states[j].last_tick <= times[j],
        states[j].interval == states[i].interval,
    decreases j - i,
{
    assert(tick_clock(states[j - 1], states[j], times[j - 1]));
    if j > i + 1 {
        lemma_last_tick_bounds(states, times, i, j - 1);
    }
}

/// Polling never hands out rounds more often than the interval: over a run
/// of ticks at non-decreasing times, any two ticks that are due lie a whole
/// interval apart.
pub proof fn lemma_polling_spacing(
    states: Seq<SchedulerState>,
    times: Seq<u64>,
    tasks: Seq<Seq<ScanTaskRequest>>,
    i: int,
    j: int,
)
    requires
        states.len() == times.len() + 1,
        tasks.len() == times.len(),
        forall|k: int| 0 <= k < times.len() ==> tick_outcome(#[trigger] states[k], states[k + 1], times[k], tasks[k]),
        forall|a: int, b: int| 0 <= a <= b < times.len() ==> times[a] <= times[b],
        0 <= i < j < times.len(),
        tick_due(states[i], times[i]),
        tick_due(states[j], times[j]),
    ensures
        times[j] >= times[i] + states[i].interval,
{
    assert forall|k: int| 0 <= k < times.len() implies tick_clock(#[trigger] states[k], states[k + 1], times[k]) by {
        assert(tick_outcome(states[k], states[k + 1], times[k], tasks[k]));
    }
    lemma_last_tick_bounds(states, times, i, j);
}

/// Between a due round and the first tick a whole interval later, no round
/// is due, so the date of the last round stays that of the due one.
#[verifier::spinoff_prover]
proof fn lemma_last_tick_held(states: Seq<SchedulerState>, times: Seq<u64>, i: int, k: int)
    requires
        states.len() == times.len() + 1,
        forall|m: int| 0 <= m < times.len() ==> tick_clock(#[trigger] states[m], states[m + 1], times[m]),
        forall|m: int| 0 <= m < times.len() ==> (#[trigger] states[m + 1]).targets@ == states[m].targets@,
        forall|a: int, b: int| 0 <= a <= b < times.len() ==> times[a] <= times[b],
        0 <= i < k <= times.len(),
        tick_due(states[i], times[i]),
        forall|m: int| i < m < k ==> times[m] < times[i] + states[i].interval,
    ensures
        states[k].last_tick == times[i],
        states[k].interval == states[i].interval,
        states[k].targets@ == states[i].targets@,
    decreases k - i,
{
    assert(tick_clock(states[k - 1], states[k], times[k - 1]));
    assert(states[k].targets@ == states[k - 1].targets@);
    if k > i + 1 {
        lemma_last_tick_held(states, times, i, k - 1);
    }
}

/// Polling keeps pace with the interval: after a due round, the first tick
/// that comes a whole interval later or more is due again. So when ticks
/// come at most `step` apart, rounds come at most an interval and a step
/// apart.
pub proof fn lemma_polling_keeps_pace(
    states: Seq<SchedulerState>,
    times: Seq<u64>,
    tasks: Seq<Seq<ScanTaskRequest>>,
    i: int,
    j: int,
)
    requires
        states.len() == times.len() + 1,
        tasks.len() == times.len(),
        forall|k: int| 0 <= k < times.len() ==> tick_outcome(#[trigger] states[k], states[k + 1], times[k], tasks[k]),
        forall|a: int, b: int| 0 <= a <= b < times.len() ==> times[a] <= times[b],
        0 <= i < j < times.len(),
        tick_due(states[i], times[i]),
        times[j] >= times[i] + states[i].interval,
        forall|m: int| i < m < j ==> times[m] < times[i] + states[i].interval,
    ensures
        tick_due(states[j], times[j]),
{
    assert forall|k: int| 0 <= k < times.len() implies tick_clock(#[trigger] states[k], states[k + 1], times[k]) by {
        assert(tick_outcome(states[k], states[k + 1], times[k], tasks[k]));
    }
    assert forall|k: int| 0 <= k < times.len() implies (#[trigger] states[k + 1]).targets@ == states[k].targets@ by {
        assert(tick_outcome(states[k], states[k + 1], times[k], tasks[k]));
    }
    lemma_last_tick_held(states, times, i, j);
}

/// Over a run of ticks with no completed scan between them, the targets in
/// flight only grow: whatever is in flight before a tick is in flight after
/// any later one.
proof fn lemma_in_flight_grows(states: Seq<SchedulerState>, times: Seq<u64>, tasks: Seq<Seq<ScanTaskRequest>>, i: int, j: int)
    requires
        states.len() == times.len() + 1,
        tasks.len() == times.len(),
        forall|k: int| 0 <= k < times.len() ==> tick_outcome(#[trigger] states[k], states[k + 1], times[k], tasks[k]),
        0 <= i <= j <= times.len(),
    ensures
        states[i].in_flight@.subset_of(states[j].in_flight@),
    decreases j - i,
{
    if j > i {
        lemma_in_flight_grows(states, times, tasks, i, j - 1);
        assert(tick_outcome(states[j - 1], states[j], times[j - 1], tasks[j - 1]));
    }
}

/// Over any run of ticks with no completed scan between them, a target is
/// handed out at most once: no tick hands out the same target twice, and no
/// two ticks hand out the same target. A slow scan is never doubled.
pub proof fn lemma_run_hands_out_once(states: Seq<SchedulerState>, times: Seq<u64>, tasks: Seq<Seq<ScanTaskRequest>>)
    requires
        states.len() == times.len() + 1,
        tasks.len() == times.len(),
        forall|k: int| 0 <= k < times.len() ==> tick_outcome(#[trigger] states[k], states[k + 1], times[k], tasks[k]),
    ensures
        forall|k: int, a: int, b: int|
            0 <= k < tasks.len() && 0 <= a < b < tasks[k].len() ==> tasks[k][a].id != tasks[k][b].id,
        forall|i: int, j: int, a: int, b: int|
            0 <= i < j < tasks.len() && 0 <= a < tasks[i].len() && 0 <= b < tasks[j].len() ==> tasks[i][a].id
                != tasks[j][b].id,
{
    assert forall|k: int, a: int, b: int|
        0 <= k < tasks.len() && 0 <= a < b < tasks[k].len() implies tasks[k][a].id != tasks[k][b].id by {
        assert(tick_outcome(states[k], states[k + 1], times[k], tasks[k]));
        lemma_tick_never_overlaps(states[k], states[k + 1], times[k], tasks[k]);
        if tick_due(states[k], times[k]) {
            assert(tasks[k][a].id.0 < tasks[k][b].id.0);
        }
    }
    assert forall|i: int, j: int, a: int, b: int|
        0 <= i < j < tasks.len() && 0 <= a < tasks[i].len() && 0 <= b < tasks[j].len() implies tasks[i][a].id
            != tasks[j][b].id by {
        assert(tick_outcome(states[i], states[i + 1], times[i], tasks[i]));
        assert(tick_outcome(states[j], states[j + 1], times[j], tasks[j]));
        lemma_tick_never_overlaps(states[i], states[i + 1], times[i], tasks[i]);
        lemma_tick_never_overlaps(states[j], states[j + 1], times[j], tasks[j]);
        lemma_in_flight_grows(states, times, tasks, i + 1, j);
        assert(states[i + 1].in_flight@.contains(tasks[i][a].id.0));
        assert(states[j].in_flight@.contains(tasks[i][a].id.0));
    }
}

/// How many of the rounds `tasks` hand out the target `id`.
pub open spec fn handed_out_count(tasks: Seq<Seq<ScanTaskRequest>>, id: u64) -> nat
    decreases tasks.len(),
{
    if tasks.len() == 0 {
        0
    } else {
        handed_out_count(tasks.drop_last(), id) + if exists|a: int|
            0 <= a < tasks.last().len() && (#[trigger] tasks.last()[a]).id.0 == id {
            1nat
        } else {
            0nat
        }
    }
}

/// A run of ticks a step `d` apart, from `start`, the date of the last round,
/// with an interval of `q` steps and every scan completed before the next
/// tick: tick `k`, at `times[k]`, takes `states[k]` to `after[k]` and hands
/// out `tasks[k]`; the completions then take `after[k]` to `states[k + 1]`,
/// changing nothing but the scans in flight, of which there are none at a
/// tick.
pub open spec fn steady_polling_run(
    states: Seq<SchedulerState>,
    after: Seq<SchedulerState>,
    times: Seq<u64>,
    tasks: Seq<Seq<ScanTaskRequest>>,
    start: u64,
    d: int,
    q: int,
) -> bool {
    &&& states.len() == times.len() + 1
    &&& after.len() == times.len()
    &&& tasks.len() == times.len()
    &&& d >= 1
    &&& q >= 1
    &&& states[0].interval == q * d
    &&& states[0].last_tick == start
    &&& forall|k: int| 0 <= k < times.len() ==> #[trigger] times[k] == start + k * d
    &&& forall|k: int|
        0 <= k < times.len() ==> tick_outcome(#[trigger] states[k], after[k], times[k], tasks[k])
    &&& forall|k: int|
        0 <= k < times.len() ==> (#[trigger] states[k + 1]).targets@ == after[k].targets@
            && states[k + 1].interval == after[k].interval && states[k + 1].last_tick == after[k].last_tick
    &&& forall|k: int| 0 <= k <= times.len() ==> (#[trigger] states[k]).in_flight@ == Set::<u64>::empty()
}

/// The steps from the last round to tick `k` (`k >= 1`) of a run whose rounds
/// come every `q` steps lie between 1 and `q`, and are `q` exactly when `k`
/// is a multiple of `q`; then `k` starts the next round.
proof fn lemma_round_arith(k: int, q: int)
    requires
        k >= 1,
        q >= 1,
    ensures
        1 <= k - ((k - 1) / q) * q <= q,
        (k - ((k - 1) / q) * q == q) == (k % q == 0),
        k % q == 0 ==> (k / q) * q == k && k / q == (k - 1) / q + 1,
        k % q != 0 ==> k / q == (k - 1) / q,
{
    let a = (k - 1) / q;
    let r = (k - 1) % q;
    lemma_fundamental_div_mod(k - 1, q);
    lemma_mod_bound(k - 1, q);
    assert(q * a == a * q) by (nonlinear_arith);
    if r == q - 1 {
        assert((a + 1) * q == a * q + q) by (nonlinear_arith);
        lemma_fundamental_div_mod_converse(k, q, a + 1, 0);
    } else {
        lemma_fundamental_div_mod_converse(k, q, a, r + 1);
    }
}

/// The first `k` ticks of a steady run: the targets and the interval are
/// kept, the last round is dated at the last multiple of `q` steps before
/// tick `k`, and a watched target was handed out once per round.
proof fn lemma_steady_prefix(
    states: Seq<SchedulerState>,
    after: Seq<SchedulerState>,
    times: Seq<u64>,
    tasks: Seq<Seq<ScanTaskRequest>>,
    start: u64,
    d: int,
    q: int,
    id: u64,
    k: int,
)
    requires
        steady_polling_run(states, after, times, tasks, start, d, q),
        states[0].targets@.contains_key(id),
        0 <= k <= times.len(),
    ensures
        states[k].targets@ == states[0].targets@,
        states[k].interval == q * d,
        states[k].last_tick == start + (if k == 0 {
            0int
        } else {
            ((k - 1) / q) * q
        }) * d,
        handed_out_count(tasks.take(k), id) == if k == 0 {
            0int
        } else {
            (k - 1) / q
        },
    decreases k,
{
    if k == 0 {
        assert(tasks.take(0) =~= Seq::<Seq<ScanTaskRequest>>::empty());
    } else {
        let j = k - 1;
        lemma_steady_prefix(states, after, times, tasks, start, d, q, id, j);
        let s = states[j];
        assert(tick_outcome(s, after[j], times[j], tasks[j]));
        assert(states[j + 1].targets@ == after[j].targets@ && states[j + 1].interval == after[j].interval
            && states[j + 1].last_tick == after[j].last_tick);
        assert(s.in_flight@ == Set::<u64>::empty());
        assert(times[j] == start + j * d);
        assert(tasks.take(k).drop_last() =~= tasks.take(j));
        assert(tasks.take(k).last() == tasks[j]);
        let g: int = if j == 0 {
            0int
        } else {
            ((j - 1) / q) * q
        };
        assert(s.last_tick == start + g * d);
        let due = exists|a: int| 0 <= a < tasks[j].len() && (#[trigger] tasks[j][a]).id.0 == id;
        if j == 0 {
            assert(0 * d == 0) by (nonlinear_arith);
            assert(q * d >= 1) by (nonlinear_arith)
                requires
                    q >= 1,
                    d >= 1,
            ;
            assert(!tick_due(s, times[j]));
            lemma_fundamental_div_mod_converse(0, q, 0, 0);
            assert(((k - 1) / q) * q == 0);
            assert(!due);
        } else {
            lemma_round_arith(j, q);
            let e = j - g;
            assert(j * d - g * d == e * d) by (nonlinear_arith)
                requires
                    e == j - g,
            ;
            assert(e * d >= d) by (nonlinear_arith)
                requires
                    e >= 1,
                    d >= 1,
            ;
            assert(times[j] >= s.last_tick);
            assert(elapsed(times[j], s.last_tick) == e * d);
            assert((e * d >= q * d) == (e >= q)) by (nonlinear_arith)
                requires
                    d >= 1,
            ;
            if j % q == 0 {
                assert(tick_due(s, times[j]));
                assert(is_dispatch(tasks[j], s.targets@, s.in_flight@));
                assert(s.targets@.contains_key(id) && !s.in_flight@.contains(id));
                assert(due);
                assert(((k - 1) / q) * q == j);
            } else {
                assert(!tick_due(s, times[j]));
                assert(!due);
            }
        }
    }
}

/// Polling hands out a watched target once per interval. Over `m` intervals
/// of ticks a step `d` apart (`m * q` ticks, the interval being `q` steps),
/// from the date of the last round, with the targets unchanged and every
/// scan completed before the next tick, a watched target is handed out at
/// the ticks `q`, `2q`, ...: `m - 1` times, within one of `m`.
pub proof fn lemma_polling_frequency(
    states: Seq<SchedulerState>,
    after: Seq<SchedulerState>,
    times: Seq<u64>,
    tasks: Seq<Seq<ScanTaskRequest>>,
    start: u64,
    d: int,
    q: int,
    id: u64,
    m: int,
)
    requires
        steady_polling_run(states, after, times, tasks, start, d, q),
        states[0].targets@.contains_key(id),
        m >= 1,
        times.len() == m * q,
    ensures
        handed_out_count(tasks, id) == m - 1,
        m - 1 <= handed_out_count(tasks, id) <= m + 1,
{
    let n = times.len() as int;
    assert(m * q >= 1) by (nonlinear_arith)
        requires
            m >= 1,
            q >= 1,
    ;
    lemma_steady_prefix(states, after, times, tasks, start, d, q, id, n);
    assert(tasks.take(n) =~= tasks);
    assert(n - 1 == (m - 1) * q + (q - 1)) by (nonlinear_arith)
        requires
            n == m * q,
    ;
    lemma_fundamental_div_mod_converse(n - 1, q, m - 1, q - 1);
}

/// Along ticks from a state whose only target is `id`, none in flight, the
/// target is in flight from the first tick on, and no tick but the first
/// hands anything out.
proof fn lemma_single_target_prefix(states: Seq<SchedulerState>, times: Seq<u64>, tasks: Seq<Seq<ScanTaskRequest>>, id: u64, k: int)
    requires
        states.len() == times.len() + 1,
        tasks.len() == times.len(),
        forall|m: int| 0 <= m < times.len() ==> tick_outcome(#[trigger] states[m], states[m + 1], times[m], tasks[m]),
        states[0].targets@.dom() == set![id],
        states[0].in_flight@ == Set::<u64>::empty(),
        tick_due(states[0], times[0]),
        1 <= k <= times.len(),
    ensures
        states[k].targets@ == states[0].targets@,
        states[k].in_flight@ == set![id],
        tasks[0].len() == 1 && tasks[0][0].id.0 == id,
        forall|m: int| 1 <= m < k ==> (#[trigger] tasks[m]).len() == 0,
        handed_out_count(tasks.take(k), id) == 1,
    decreases k,
{
    assert(tick_outcome(states[0], states[1], times[0], tasks[0]));
    let t0 = tasks[0];
    assert(states[0].targets@.contains_key(id) && !states[0].in_flight@.contains(id));
    assert(exists|a: int| 0 <= a < t0.len() && t0[a].id.0 == id);
    assert forall|a: int| 0 <= a < t0.len() implies (#[trigger] t0[a]).id.0 == id by {
        assert(states[0].targets@.contains_key(t0[a].id.0));
        assert(states[0].targets@.dom().contains(t0[a].id.0));
    }
    if t0.len() >= 2 {
        assert(t0[0].id.0 < t0[1].id.0);
    }
    if k == 1 {
        assert(states[1].in_flight@ =~= set![id]);
        assert(tasks.take(1).drop_last() =~= Seq::<Seq<ScanTaskRequest>>::empty());
        assert(tasks.take(1).last() == t0);
        assert(t0[0].id.0 == id);
        assert(tasks.take(1).last()[0].id.0 == id);
        assert(handed_out_count(tasks.take(1).drop_last(), id) == 0);
    } else {
        lemma_single_target_prefix(states, times, tasks, id, k - 1);
        let j = k - 1;
        let s = states[j];
        assert(tick_outcome(s, states[k], times[j], tasks[j]));
        if tasks[j].len() > 0 {
            assert(tick_due(s, times[j]));
            assert(s.targets@.contains_key(tasks[j][0].id.0));
            assert(s.targets@.dom().contains(tasks[j][0].id.0));
            assert(!s.in_flight@.contains(tasks[j][0].id.0));
        }
        assert(tasks[j].len() == 0);
        assert(states[k].in_flight@ =~= set![id]);
        assert(tasks.take(k).drop_last() =~= tasks.take(j));
        assert(tasks.take(k).last() == tasks[j]);
        assert(!(exists|a: int| 0 <= a < tasks.take(k).last().len() && (#[trigger] tasks.take(k).last()[a]).id.0 == id));
        assert(handed_out_count(tasks.take(k), id) == handed_out_count(tasks.take(j), id));
    }
}

/// A slow scan is never doubled: from a state whose only target is `id`,
/// none in flight, over ticks with no completed scan between them, the
/// first of which is due, the target is handed out exactly once, at the
/// first tick, and stays in flight.
pub proof fn lemma_single_target_handed_out_once(states: Seq<SchedulerState>, times: Seq<u64>, tasks: Seq<Seq<ScanTaskRequest>>, id: u64)
    requires
        states.len() == times.len() + 1,
        tasks.len() == times.len(),
        times.len() >= 1,
        forall|m: int| 0 <= m < times.len() ==> tick_outcome(#[trigger] states[m], states[m + 1], times[m], tasks[m]),
        states[0].targets@.dom() == set![id],
        states[0].in_flight@ == Set::<u64>::empty(),
        tick_due(states[0], times[0]),
    ensures
        tasks[0].len() == 1 && tasks[0][0].id.0 == id,
        forall|m: int| 1 <= m < tasks.len() ==> (#[trigger] tasks[m]).len() == 0,
        handed_out_count(tasks, id) == 1,
        states.last().in_flight@ == set![id],
{
    lemma_single_target_prefix(states, times, tasks, id, times.len() as int);
    assert(tasks.take(times.len() as int) =~= tasks);
}

} // verus!
