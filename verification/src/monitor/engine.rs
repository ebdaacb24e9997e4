//! The decisions of the monitor's loop.
//!
//! The loop itself (its threads, channels and clock) runs outside the
//! library; each time something happens it hands the event to `engine_step`,
//! which updates the scheduler and says what to send and what to scan.

use vstd::prelude::*;

use super::{MonitorCmd, ScanEvent};
use super::scheduler::{SchedulerState, ScanTaskRequest, command_outcome, tick_outcome};
use crate::detector::ProcessRecord;
use crate::error::ScanFailure;
use crate::state::target::TargetId;

verus! {

/// What happened to the monitor's loop.
pub enum EngineInput {
    /// A worker finished scanning a target.
    ScanFinished(TargetId, Result<Vec<ProcessRecord>, ScanFailure>),
    /// A command arrived from the interface.
    Command(MonitorCmd),
    /// The command channel was closed.
    Disconnected,
    /// No command came for a while; the time is now `now` (milliseconds).
    Tick(u64),
}

/// What the loop does in answer.
pub struct EngineOutput {
    /// Events to send to the interface, in order.
    pub events: Vec<ScanEvent>,
    /// Scans to hand to the workers, in order.
    pub tasks: Vec<ScanTaskRequest>,
    /// Whether the loop stops.
    pub stop: bool,
}

/// `events` announces the start of each scan of `tasks`, in order.
pub open spec fn announces(events: Seq<ScanEvent>, tasks: Seq<ScanTaskRequest>) -> bool {
    &&& events.len() == tasks.len()
    &&& forall|i: int| 0 <= i < tasks.len() ==> #[trigger] events[i] == ScanEvent::Started(tasks[i].id)
}

/// The `Started` events of `tasks`, in order.
fn started_events(tasks: &Vec<ScanTaskRequest>) -> (events: Vec<ScanEvent>)
    ensures
        announces(events@, tasks@),
{
    let mut events: Vec<ScanEvent> = Vec::new();
    let mut i: usize = 0;
    while i < tasks.len()
        invariant
            i <= tasks@.len(),
            events@.len() == i,
            forall|k: int| 0 <= k < i ==> #[trigger] events@[k] == ScanEvent::Started(tasks@[k].id),
        decreases tasks@.len() - i,
    {
        events.push(ScanEvent::Started(tasks[i].id));
        i = i + 1;
    }
    events
}

/// One step of the monitor's loop.
///
/// - A finished scan takes its target out of flight and sends `Completed`
///   with the records, or `Failed` with the failure.
/// - `Shutdown`, or a closed command channel, stops the loop.
/// - Another command goes to the scheduler; a tick asks the scheduler for a
///   round of scans. Each scan handed out is announced with `Started` and
///   given to the workers.
pub fn engine_step(sched: &mut SchedulerState, input: EngineInput) -> (out: EngineOutput)
    ensures
        match input {
            EngineInput::ScanFinished(id, result) => {
                &&& final(sched).in_flight@ == old(sched).in_flight@.remove(id.0)
                &&& final(sched).targets@ == old(sched).targets@
                &&& final(sched).interval == old(sched).interval
                &&& final(sched).last_tick == old(sched).last_tick
                &&& out.tasks@.len() == 0
                &&& !out.stop
                &&& out.events@.len() == 1
                &&& out.events@[0] == match result {
                    Ok(records) => ScanEvent::Completed(id, records),
                    Err(failure) => ScanEvent::Failed(id, failure),
                }
            },
            EngineInput::Command(cmd) => if cmd is Shutdown {
                &&& out.stop
                &&& *final(sched) == *old(sched)
                &&& out.tasks@.len() == 0
                &&& out.events@.len() == 0
            } else {
                &&& !out.stop
                &&& command_outcome(*old(sched), *final(sched), cmd, out.tasks@)
                &&& announces(out.events@, out.tasks@)
            },
            EngineInput::Disconnected => {
                &&& out.stop
                &&& *final(sched) == *old(sched)
                &&& out.tasks@.len() == 0
                &&& out.events@.len() == 0
            },
            EngineInput::Tick(now) => {
                &&& !out.stop
                &&& tick_outcome(*old(sched), *final(sched), now, out.tasks@)
                &&& announces(out.events@, out.tasks@)
            },
        },
{
    match input {
        EngineInput::ScanFinished(id, result) => {
            sched.on_scan_done(id);
            let ev = match result {
                Ok(records) => ScanEvent::Completed(id, records),
                Err(failure) => ScanEvent::Failed(id, failure),
            };
            let mut events = Vec::new();
            events.push(ev);
            EngineOutput { events, tasks: Vec::new(), stop: false }
        },
        EngineInput::Command(cmd) => {
            if let MonitorCmd::Shutdown = cmd {
                return EngineOutput { events: Vec::new(), tasks: Vec::new(), stop: true };
            }
            let tasks = sched.apply(cmd);
            let events = started_events(&tasks);
            EngineOutput { events, tasks, stop: false }
        },
        EngineInput::Disconnected => EngineOutput { events: Vec::new(), tasks: Vec::new(), stop: true },
        EngineInput::Tick(now) => {
            let tasks = sched.on_tick(now);
            let events = started_events(&tasks);
            EngineOutput { events, tasks, stop: false }
        },
    }
}

} // verus!
