//! A process control that keeps the record of the calls made through it,
//! each with what it returned. The record can only grow by a call, so a
//! contract that speaks of it speaks of the calls that were really made.

use vstd::prelude::*;

use super::ProcessControlApi;
use crate::error::TerminateError;
use crate::process_info::FileTime;

verus! {

/// One call made through a `RecordedControl`, with what it returned.
pub enum ControlCall {
    /// `open_terminate(pid)`, with its outcome (the handle left out).
    Open { pid: u32, opened: Result<(), TerminateError> },
    /// `get_start_time`, with its outcome.
    StartTime { read: Result<FileTime, TerminateError> },
    /// `terminate(.., code)`, with its outcome.
    Terminate { code: u32, terminated: Result<(), TerminateError> },
}

/// The outcome of an open, with the handle left out.
pub open spec fn opened<H>(r: Result<H, TerminateError>) -> Result<(), TerminateError> {
    match r {
        Ok(_) => Ok(()),
        Err(e) => Err(e),
    }
}

/// A process control together with the record of the calls made through
/// it.
pub struct RecordedControl<C: ProcessControlApi> {
    control: C,
    calls: Ghost<Seq<ControlCall>>,
}

impl<C: ProcessControlApi> RecordedControl<C> {
    /// The calls made through this control so far, in order, each with
    /// what it returned.
    pub closed spec fn calls(&self) -> Seq<ControlCall> {
        self.calls@
    }

    /// `control`, with no call made yet.
    pub fn new(control: C) -> (r: RecordedControl<C>)
        ensures
            r.calls() == Seq::<ControlCall>::empty(),
    {
        RecordedControl { control, calls: Ghost(Seq::empty()) }
    }

    /// The control that the calls go to.
    pub fn control(&self) -> &C {
        &self.control
    }

    /// Opens the process `pid` with the right to terminate it, and records
    /// the call.
    pub fn open_terminate(&mut self, pid: u32) -> (r: Result<C::Handle, TerminateError>)
        ensures
            final(self).calls() == old(self).calls().push(ControlCall::Open { pid, opened: opened(r) }),
    {
        let r = self.control.open_terminate(pid);
        self.calls = Ghost(self.calls@.push(ControlCall::Open { pid, opened: opened(r) }));
        r
    }

    /// Reads the start time of the opened process, and records the call.
    pub fn get_start_time(&mut self, h: &C::Handle) -> (r: Result<FileTime, TerminateError>)
        ensures
            final(self).calls() == old(self).calls().push(ControlCall::StartTime { read: r }),
    {
        let r = self.control.get_start_time(h);
        self.calls = Ghost(self.calls@.push(ControlCall::StartTime { read: r }));
        r
    }

    /// Terminates the opened process with the exit code `code`, and records
    /// the call.
    pub fn terminate(&mut self, h: &C::Handle, code: u32) -> (r: Result<(), TerminateError>)
        ensures
            final(self).calls() == old(self).calls().push(ControlCall::Terminate { code, terminated: r }),
    {
        let r = self.control.terminate(h, code);
        self.calls = Ghost(self.calls@.push(ControlCall::Terminate { code, terminated: r }));
        r
    }
}

} // verus!
