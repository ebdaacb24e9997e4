//! Forced termination of a process.
//!
//! The steps go through `ProcessControlApi`, so that tests can stand in for
//! Windows: open the process with the right to terminate it, check that its
//! start time is the one recorded when it was found (a process id can be
//! reused by a new process), and terminate it with exit code 1. System
//! processes (pid 0 and 4) are refused before anything is asked.

use vstd::prelude::*;

pub mod recorded;

use crate::error::{TerminateError, message_or_fallback};
use crate::process_info::FileTime;
use recorded::{ControlCall, RecordedControl, opened};

verus! {

/// `ERROR_ACCESS_DENIED`.
pub const ERROR_ACCESS_DENIED: u32 = 5;

/// `ERROR_INVALID_PARAMETER`: what opening a process that has exited gives.
pub const ERROR_INVALID_PARAMETER: u32 = 87;

/// The exit code given to a terminated process.
pub const TERMINATE_EXIT_CODE: u32 = 1;

/// The operations that terminating a process takes.
pub trait ProcessControlApi: Send + Sync {
    /// An open process; closed when dropped.
    type Handle;

    /// Opens the process `pid` with the right to terminate it.
    fn open_terminate(&self, pid: u32) -> Result<Self::Handle, TerminateError>;

    /// The start time of the process.
    fn get_start_time(&self, h: &Self::Handle) -> Result<FileTime, TerminateError>;

    /// Terminates the process with the exit code `code`.
    fn terminate(&self, h: &Self::Handle, code: u32) -> Result<(), TerminateError>;
}

/// `e` is the error for a failing Win32 code when a process is opened:
/// `AccessDenied` for `ERROR_ACCESS_DENIED`, `AlreadyExited` for
/// `ERROR_INVALID_PARAMETER`, and `Win32` with the code and its description
/// otherwise.
pub open spec fn open_error_for(code: u32, e: TerminateError) -> bool {
    if code == ERROR_ACCESS_DENIED {
        e == TerminateError::AccessDenied
    } else if code == ERROR_INVALID_PARAMETER {
        e == TerminateError::AlreadyExited
    } else {
        e matches TerminateError::Win32 { code: c, desc } && c == code && desc@.len() > 0 && exists|
            raw: Seq<char>,
        | desc@ == message_or_fallback(raw, code)
    }
}

/// The error for a failing Win32 code when a process is opened.
pub fn open_error_from_code(code: u32) -> (e: TerminateError)
    ensures
        open_error_for(code, e),
{
    if code == ERROR_ACCESS_DENIED {
        TerminateError::AccessDenied
    } else if code == ERROR_INVALID_PARAMETER {
        TerminateError::AlreadyExited
    } else {
        TerminateError::from_win32(code)
    }
}

/// Whether the pid is one of the system processes that are never
/// terminated (the idle process, 0, and the kernel, 4).
pub open spec fn is_protected_pid(pid: u32) -> bool {
    pid == 0 || pid == 4
}

/// The check of a process's start time against the one recorded when it
/// was found: `StalePid` when they differ.
pub fn check_start_time(expected: FileTime, actual: FileTime) -> (r: Result<(), TerminateError>)
    ensures
        r == if actual == expected {
            Ok::<(), TerminateError>(())
        } else {
            Err::<(), TerminateError>(TerminateError::StalePid)
        },
{
    if actual.low != expected.low || actual.high != expected.high {
        Err(TerminateError::StalePid)
    } else {
        Ok(())
    }
}

/// What the last step of a termination gave.
pub enum TerminateEvent {
    /// Nothing yet: the termination starts.
    Begin,
    /// The outcome of opening the process (the handle left out).
    Opened(Result<(), TerminateError>),
    /// The outcome of reading the start time of the process.
    StartTimeRead(Result<FileTime, TerminateError>),
    /// The outcome of terminating the process.
    Terminated(Result<(), TerminateError>),
}

/// What a termination does next.
pub enum TerminateAction {
    /// Open the process `pid` with the right to terminate it.
    Open { pid: u32 },
    /// Read the start time of the opened process.
    ReadStartTime,
    /// Terminate the opened process with the exit code `code`.
    Terminate { code: u32 },
    /// Stop, with this result.
    Finish(Result<(), TerminateError>),
}

/// The next action of the termination of the process `pid`, whose start
/// time was recorded as `expected`, after `event`:
/// - at the start, a system process (pid 0 or 4) is refused with
///   `SystemProtected`; any other is opened;
/// - a failed open ends with its error; after an open, the start time is
///   read when one is expected, and the process is terminated otherwise;
/// - a failed read ends with its error; a start time other than the expected
///   one ends with `StalePid`; the same one leads to the termination;
/// - the termination, with exit code 1, ends with its own outcome.
pub open spec fn terminate_action(pid: u32, expected: Option<FileTime>, event: TerminateEvent) -> TerminateAction {
    match event {
        TerminateEvent::Begin => if is_protected_pid(pid) {
            TerminateAction::Finish(Err(TerminateError::SystemProtected))
        } else {
            TerminateAction::Open { pid }
        },
        TerminateEvent::Opened(Err(e)) => TerminateAction::Finish(Err(e)),
        TerminateEvent::Opened(Ok(_)) => match expected {
            Some(_) => TerminateAction::ReadStartTime,
            None => TerminateAction::Terminate { code: TERMINATE_EXIT_CODE },
        },
        TerminateEvent::StartTimeRead(Err(e)) => TerminateAction::Finish(Err(e)),
        TerminateEvent::StartTimeRead(Ok(actual)) => match expected {
            Some(x) => if actual == x {
                TerminateAction::Terminate { code: TERMINATE_EXIT_CODE }
            } else {
                TerminateAction::Finish(Err(TerminateError::StalePid))
            },
            None => TerminateAction::Terminate { code: TERMINATE_EXIT_CODE },
        },
        TerminateEvent::Terminated(r) => TerminateAction::Finish(r),
    }
}

/// The next action of the termination of the process `pid`, whose start
/// time was recorded as `expected`, after `event`.
pub fn terminate_step(pid: u32, expected: Option<FileTime>, event: TerminateEvent) -> (a: TerminateAction)
    ensures
        a == terminate_action(pid, expected, event),
{
    match event {
        TerminateEvent::Begin => if pid == 0 || pid == 4 {
            TerminateAction::Finish(Err(TerminateError::SystemProtected))
        } else {
            TerminateAction::Open { pid }
        },
        TerminateEvent::Opened(Err(e)) => TerminateAction::Finish(Err(e)),
        TerminateEvent::Opened(Ok(_)) => match expected {
            Some(_) => TerminateAction::ReadStartTime,
            None => TerminateAction::Terminate { code: TERMINATE_EXIT_CODE },
        },
        TerminateEvent::StartTimeRead(Err(e)) => TerminateAction::Finish(Err(e)),
        TerminateEvent::StartTimeRead(Ok(actual)) => match expected {
            Some(x) => match check_start_time(x, actual) {
                Ok(()) => TerminateAction::Terminate { code: TERMINATE_EXIT_CODE },
                Err(e) => TerminateAction::Finish(Err(e)),
            },
            None => TerminateAction::Terminate { code: TERMINATE_EXIT_CODE },
        },
        TerminateEvent::Terminated(r) => TerminateAction::Finish(r),
    }
}

/// After the open with outcome `o`, the calls `t` (the open first) and
/// the result `r` follow the steps of `terminate_action`.
pub open spec fn protocol_after_open(
    pid: u32,
    expected: Option<FileTime>,
    t: Seq<ControlCall>,
    o: Result<(), TerminateError>,
    r: Result<(), TerminateError>,
) -> bool {
    match terminate_action(pid, expected, TerminateEvent::Opened(o)) {
        TerminateAction::Finish(x) => t.len() == 1 && r == x,
        TerminateAction::ReadStartTime => {
            &&& t.len() >= 2
            &&& t[1] is StartTime
            &&& match terminate_action(pid, expected, TerminateEvent::StartTimeRead(t[1]->StartTime_read)) {
                TerminateAction::Finish(x) => t.len() == 2 && r == x,
                TerminateAction::Terminate { code } => {
                    &&& t.len() == 3
                    &&& t[2] matches ControlCall::Terminate { code: c, terminated: q }
                    &&& c == code
                    &&& terminate_action(pid, expected, TerminateEvent::Terminated(q)) == TerminateAction::Finish(r)
                },
                _ => false,
            }
        },
        TerminateAction::Terminate { code } => {
            &&& t.len() == 2
            &&& t[1] matches ControlCall::Terminate { code: c, terminated: q }
            &&& c == code
            &&& terminate_action(pid, expected, TerminateEvent::Terminated(q)) == TerminateAction::Finish(r)
        },
        _ => false,
    }
}

/// The calls `t` that terminating the process `pid`, whose start time was
/// recorded as `expected`, makes, and its result `r`: each call is the one
/// that `terminate_action` asks for after the outcome of the one before,
/// and `r` is the result of the `Finish` that it comes to. So a system
/// process is refused with no call; otherwise the process is opened and a
/// failed open is passed on; when a start time is expected it is read, a
/// failed read is passed on, and a start time other than the expected one
/// gives `StalePid` with no termination; then the process is terminated
/// with exit code 1, and that outcome is the result.
pub open spec fn terminate_protocol(pid: u32, expected: Option<FileTime>, t: Seq<ControlCall>, r: Result<(), TerminateError>) -> bool {
    match terminate_action(pid, expected, TerminateEvent::Begin) {
        TerminateAction::Finish(x) => t.len() == 0 && r == x,
        TerminateAction::Open { pid: p } => {
            &&& t.len() >= 1
            &&& t[0] matches ControlCall::Open { pid: q, opened: o }
            &&& q == p
            &&& protocol_after_open(pid, expected, t, t[0]->Open_opened, r)
        },
        _ => false,
    }
}

/// Terminates the process through `ctrl` and gives the outcome of the
/// termination: `code` is asked for, and the result passed on.
fn terminate_and_finish<C: ProcessControlApi>(
    pid: u32,
    expected: Option<FileTime>,
    ctrl: &mut RecordedControl<C>,
    handle: &C::Handle,
    code: u32,
) -> (r: Result<(), TerminateError>)
    ensures
        exists|q: Result<(), TerminateError>|
            final(ctrl).calls() == old(ctrl).calls().push(ControlCall::Terminate { code, terminated: q })
                && terminate_action(pid, expected, TerminateEvent::Terminated(q)) == TerminateAction::Finish(r),
{
    let q = ctrl.terminate(handle, code);
    let ghost qg = q;
    match terminate_step(pid, expected, TerminateEvent::Terminated(q)) {
        TerminateAction::Finish(r) => {
            assert(ctrl.calls() == old(ctrl).calls().push(ControlCall::Terminate { code, terminated: qg }));
            r
        },
        _ => {
            proof {
                assert(false);
            }
            Err(TerminateError::SystemProtected)
        },
    }
}

/// Terminates the process `pid` through `ctrl`, taking each step that
/// `terminate_step` gives.
///
/// The calls made through `ctrl` and the result follow
/// `terminate_protocol`: a system process is refused with
/// `SystemProtected` before anything is asked; otherwise the process is
/// opened, its start time is checked against `expected_start_time` when
/// there is one, and it is terminated with exit code 1 only when that
/// check passed. The first failure is returned, and otherwise the outcome
/// of the termination.
pub fn force_terminate<C: ProcessControlApi>(
    pid: u32,
    expected_start_time: Option<FileTime>,
    ctrl: &mut RecordedControl<C>,
) -> (r: Result<(), TerminateError>)
    ensures
        exists|t: Seq<ControlCall>|
            final(ctrl).calls() == old(ctrl).calls() + t && terminate_protocol(pid, expected_start_time, t, r),
{
    let ghost start = ctrl.calls();
    let ghost expected = expected_start_time;
    let open_pid = match terminate_step(pid, expected_start_time, TerminateEvent::Begin) {
        TerminateAction::Open { pid: p } => p,
        TerminateAction::Finish(r) => {
            proof {
                let t = Seq::<ControlCall>::empty();
                assert(ctrl.calls() =~= start + t);
                assert(terminate_protocol(pid, expected, t, r));
            }
            return r;
        },
        _ => {
            proof {
                assert(false);
            }
            return Err(TerminateError::SystemProtected);
        },
    };
    let opened_r = ctrl.open_terminate(open_pid);
    let ghost c0 = ControlCall::Open { pid: open_pid, opened: opened(opened_r) };
    assert(ctrl.calls() == start.push(c0));
    let handle = match opened_r {
        Ok(h) => h,
        Err(e) => {
            let ghost eg = e;
            return match terminate_step(pid, expected_start_time, TerminateEvent::Opened(Err(e))) {
                TerminateAction::Finish(r) => {
                    proof {
                        let t = seq![c0];
                        assert(ctrl.calls() =~= start + t);
                        assert(c0->Open_opened == Err::<(), TerminateError>(eg));
                        assert(terminate_protocol(pid, expected, t, r));
                    }
                    r
                },
                _ => {
                    proof {
                        assert(false);
                    }
                    Err(TerminateError::SystemProtected)
                },
            };
        },
    };
    assert(c0->Open_opened == Ok::<(), TerminateError>(()));
    match terminate_step(pid, expected_start_time, TerminateEvent::Opened(Ok(()))) {
        TerminateAction::ReadStartTime => {
            let actual = ctrl.get_start_time(&handle);
            let ghost c1 = ControlCall::StartTime { read: actual };
            assert(ctrl.calls() == start.push(c0).push(c1));
            match terminate_step(pid, expected_start_time, TerminateEvent::StartTimeRead(actual)) {
                TerminateAction::Finish(r) => {
                    proof {
                        let t = seq![c0, c1];
                        assert(ctrl.calls() =~= start + t);
                        assert(terminate_protocol(pid, expected, t, r));
                    }
                    r
                },
                TerminateAction::Terminate { code } => {
                    let ghost mid = ctrl.calls();
                    let r = terminate_and_finish(pid, expected_start_time, ctrl, &handle, code);
                    proof {
                        let q = choose|q: Result<(), TerminateError>|
                            ctrl.calls() == mid.push(ControlCall::Terminate { code, terminated: q })
                                && terminate_action(pid, expected, TerminateEvent::Terminated(q))
                                == TerminateAction::Finish(r);
                        let c2 = ControlCall::Terminate { code, terminated: q };
                        let t = seq![c0, c1, c2];
                        assert(ctrl.calls() =~= start + t);
                        assert(terminate_protocol(pid, expected, t, r));
                    }
                    r
                },
                _ => {
                    proof {
                        assert(false);
                    }
                    Err(TerminateError::SystemProtected)
                },
            }
        },
        TerminateAction::Terminate { code } => {
            let ghost mid = ctrl.calls();
            let r = terminate_and_finish(pid, expected_start_time, ctrl, &handle, code);
            proof {
                let q = choose|q: Result<(), TerminateError>|
                    ctrl.calls() == mid.push(ControlCall::Terminate { code, terminated: q })
                        && terminate_action(pid, expected, TerminateEvent::Terminated(q)) == TerminateAction::Finish(r);
                let c2 = ControlCall::Terminate { code, terminated: q };
                let t = seq![c0, c2];
                assert(ctrl.calls() =~= start + t);
                assert(terminate_protocol(pid, expected, t, r));
            }
            r
        },
        _ => {
            proof {
                assert(false);
            }
            Err(TerminateError::SystemProtected)
        },
    }
}

/// Whether `c` read the start time `x` of the process.
pub open spec fn read_start_time(c: ControlCall, x: FileTime) -> bool {
    match c {
        ControlCall::StartTime { read: Ok(a) } => a == x,
        _ => false,
    }
}

/// Whether `c` read a start time of the process other than `x`.
pub open spec fn read_other_start_time(c: ControlCall, x: FileTime) -> bool {
    match c {
        ControlCall::StartTime { read: Ok(a) } => a != x,
        _ => false,
    }
}

/// The protection against a reused process id: when a start time is
/// expected and the one read differs, the process is never terminated and
/// the result is `StalePid`; a process is only terminated after the expected
/// start time was read; and a system process is not even opened.
pub proof fn lemma_stale_pid_never_terminated(pid: u32, expected: Option<FileTime>, t: Seq<ControlCall>, r: Result<(), TerminateError>)
    requires
        terminate_protocol(pid, expected, t, r),
    ensures
        is_protected_pid(pid) ==> t.len() == 0 && r == Err::<(), TerminateError>(TerminateError::SystemProtected),
        forall|k: int|
            0 <= k < t.len() && expected is Some && read_other_start_time(#[trigger] t[k], expected->Some_0)
                ==> r == Err::<(), TerminateError>(TerminateError::StalePid) && forall|j: int|
                0 <= j < t.len() ==> !(#[trigger] t[j] is Terminate),
        forall|j: int|
            0 <= j < t.len() && expected is Some && #[trigger] t[j] is Terminate ==> t.len() == 3 && read_start_time(
                t[1],
                expected->Some_0,
            ),
{
}

/// The error of a failed start-time read in `c`, if `c` is one.
pub open spec fn failed_read(c: ControlCall) -> Option<TerminateError> {
    match c {
        ControlCall::StartTime { read: Err(e) } => Some(e),
        _ => None,
    }
}

/// A termination passes every failure on and succeeds only by terminating:
/// when the open fails, nothing more is asked and its error is the result,
/// whatever start time is expected; when the start-time read fails, nothing
/// more is asked and its error is the result; and the result is `Ok` only
/// when the process `pid` was opened and the last call terminated it with
/// exit code 1 and succeeded.
pub proof fn lemma_failures_passed_on(pid: u32, expected: Option<FileTime>, t: Seq<ControlCall>, r: Result<(), TerminateError>)
    requires
        terminate_protocol(pid, expected, t, r),
    ensures
        t.len() >= 1 && t[0] is Open && t[0]->Open_opened is Err ==> t.len() == 1 && r == t[0]->Open_opened,
        t.len() >= 2 && failed_read(t[1]) is Some ==> t.len() == 2 && r == Err::<(), TerminateError>(
            failed_read(t[1])->Some_0,
        ),
        r is Ok ==> {
            &&& !is_protected_pid(pid)
            &&& t.len() >= 2
            &&& t[0] == ControlCall::Open { pid, opened: Ok(()) }
            &&& t.last() == ControlCall::Terminate { code: TERMINATE_EXIT_CODE, terminated: Ok(()) }
        },
{
    if t.len() >= 1 && t[0] is Open && t[0]->Open_opened is Ok {
        let u: () = t[0]->Open_opened->Ok_0;
        assert(u == ());
        assert(t[0]->Open_opened == Ok::<(), TerminateError>(()));
    }
    if r is Ok {
        let u: () = r->Ok_0;
        assert(r == Ok::<(), TerminateError>(()));
    }
}

/// The outcome of a termination that ran on its own thread and was awaited
/// for a limited time: its result when it came (`Some`), and `Timeout` when
/// it did not come in time or its thread went away (`None`).
pub fn awaited_outcome(received: Option<Result<(), TerminateError>>) -> (r: Result<(), TerminateError>)
    ensures
        r == match received {
            Some(inner) => inner,
            None => Err::<(), TerminateError>(TerminateError::Timeout),
        },
{
    match received {
        Some(inner) => inner,
        None => Err(TerminateError::Timeout),
    }
}

} // verus!
