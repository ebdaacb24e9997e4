//! The background monitor: the commands it takes from the interface, the
//! events it sends back, its scheduler and its clock.
//!
//! - `scheduler`: which targets to scan and when.
//! - `clock`: the time source.

use vstd::prelude::*;

pub mod clock;
pub mod engine;
pub mod scheduler;

use crate::detector::ProcessRecord;
use crate::error::ScanFailure;
use crate::state::target::{TargetId, TargetKind};

verus! {

/// A command from the interface to the monitor.
#[derive(Debug)]
pub enum MonitorCmd {
    /// Watch a new target.
    AddTarget { id: TargetId, path: String, kind: TargetKind },
    /// Stop watching a target.
    RemoveTarget(TargetId),
    /// Set the polling interval, in milliseconds.
    SetInterval(u32),
    /// Scan a target now, whatever the time since its last scan.
    TriggerImmediate(TargetId),
    /// Stop the monitor.
    Shutdown,
}

/// An event from the monitor to the interface.
#[derive(Debug)]
pub enum ScanEvent {
    /// A scan of the target started.
    Started(TargetId),
    /// A scan of the target completed with the processes holding it.
    Completed(TargetId, Vec<ProcessRecord>),
    /// A scan of the target failed.
    Failed(TargetId, ScanFailure),
}

} // verus!
