use std::sync::{Arc, Mutex};

use file_lock_inspector::error::TerminateError;
use file_lock_inspector::process_info::FileTime;
use file_lock_inspector::terminator::recorded::RecordedControl;
use file_lock_inspector::terminator::{
    awaited_outcome, check_start_time, force_terminate, open_error_from_code, terminate_step, ProcessControlApi,
    TerminateAction, TerminateEvent,
};

struct MockProcessControl {
    open_results: Arc<Mutex<Vec<Result<(), TerminateError>>>>,
    terminate_results: Arc<Mutex<Vec<Result<(), TerminateError>>>>,
    terminate_call_count: Arc<Mutex<usize>>,
    fake_start_time: FileTime,
    start_time_denied: bool,
    opened_pids: Mutex<Vec<u32>>,
    start_time_reads: Mutex<usize>,
    exit_codes: Mutex<Vec<u32>>,
}

impl MockProcessControl {
    fn new() -> Self {
        Self {
            open_results: Arc::new(Mutex::new(vec![])),
            terminate_results: Arc::new(Mutex::new(vec![])),
            terminate_call_count: Arc::new(Mutex::new(0)),
            fake_start_time: FileTime { low: 0, high: 0 },
            start_time_denied: false,
            opened_pids: Mutex::new(vec![]),
            start_time_reads: Mutex::new(0),
            exit_codes: Mutex::new(vec![]),
        }
    }

    fn with_open_result(self, r: Result<(), TerminateError>) -> Self {
        self.open_results.lock().unwrap().push(r);
        self
    }

    fn with_terminate_result(self, r: Result<(), TerminateError>) -> Self {
        self.terminate_results.lock().unwrap().push(r);
        self
    }

    fn with_start_time_denied(mut self) -> Self {
        self.start_time_denied = true;
        self
    }

    fn with_fake_start_time(mut self, ft: FileTime) -> Self {
        self.fake_start_time = ft;
        self
    }
}

impl ProcessControlApi for MockProcessControl {
    type Handle = ();

    fn open_terminate(&self, pid: u32) -> Result<(), TerminateError> {
        self.opened_pids.lock().unwrap().push(pid);
        let mut q = self.open_results.lock().unwrap();
        if q.is_empty() {
            return Ok(());
        }
        q.remove(0)
    }

    fn get_start_time(&self, _h: &()) -> Result<FileTime, TerminateError> {
        *self.start_time_reads.lock().unwrap() += 1;
        if self.start_time_denied {
            Err(TerminateError::AccessDenied)
        } else {
            Ok(self.fake_start_time)
        }
    }

    fn terminate(&self, _h: &(), code: u32) -> Result<(), TerminateError> {
        self.exit_codes.lock().unwrap().push(code);
        *self.terminate_call_count.lock().unwrap() += 1;
        let mut q = self.terminate_results.lock().unwrap();
        if q.is_empty() {
            return Ok(());
        }
        q.remove(0)
    }
}

impl<'a> ProcessControlApi for &'a MockProcessControl {
    type Handle = ();

    fn open_terminate(&self, pid: u32) -> Result<(), TerminateError> {
        (**self).open_terminate(pid)
    }

    fn get_start_time(&self, h: &()) -> Result<FileTime, TerminateError> {
        (**self).get_start_time(h)
    }

    fn terminate(&self, h: &(), code: u32) -> Result<(), TerminateError> {
        (**self).terminate(h, code)
    }
}

#[test]
fn force_terminate_blocks_pid_0() {
    let ctrl = MockProcessControl::new();
    assert!(matches!(force_terminate(0, None, &mut RecordedControl::new(&ctrl)), Err(TerminateError::SystemProtected)));
    assert_eq!(*ctrl.terminate_call_count.lock().unwrap(), 0);
}

#[test]
fn force_terminate_blocks_pid_4() {
    let ctrl = MockProcessControl::new();
    assert!(matches!(force_terminate(4, None, &mut RecordedControl::new(&ctrl)), Err(TerminateError::SystemProtected)));
    assert_eq!(*ctrl.terminate_call_count.lock().unwrap(), 0);
}

#[test]
fn force_terminate_stale_pid_rejected_low_differs() {
    let ctrl = MockProcessControl::new().with_fake_start_time(FileTime { low: 0, high: 0 });
    let expected = FileTime { low: 1, high: 0 };
    assert!(matches!(force_terminate(1234, Some(expected), &mut RecordedControl::new(&ctrl)), Err(TerminateError::StalePid)));
    assert_eq!(*ctrl.terminate_call_count.lock().unwrap(), 0);
}

#[test]
fn force_terminate_stale_pid_rejected_high_differs() {
    let ctrl = MockProcessControl::new().with_fake_start_time(FileTime { low: 100, high: 0 });
    let expected = FileTime { low: 100, high: 1 };
    assert!(matches!(force_terminate(1234, Some(expected), &mut RecordedControl::new(&ctrl)), Err(TerminateError::StalePid)));
}

#[test]
fn force_terminate_proceeds_when_start_time_matches() {
    let ft = FileTime { low: 42, high: 7 };
    let ctrl = MockProcessControl::new().with_fake_start_time(ft);
    assert!(force_terminate(1234, Some(ft), &mut RecordedControl::new(&ctrl)).is_ok());
    assert_eq!(*ctrl.terminate_call_count.lock().unwrap(), 1);
}

#[test]
fn force_terminate_proceeds_with_no_expected_time() {
    let ctrl = MockProcessControl::new();
    assert!(force_terminate(1234, None, &mut RecordedControl::new(&ctrl)).is_ok());
    assert_eq!(*ctrl.terminate_call_count.lock().unwrap(), 1);
}

#[test]
fn force_terminate_propagates_access_denied_from_open() {
    let ctrl = MockProcessControl::new().with_open_result(Err(TerminateError::AccessDenied));
    assert!(matches!(force_terminate(1234, None, &mut RecordedControl::new(&ctrl)), Err(TerminateError::AccessDenied)));
    assert_eq!(*ctrl.terminate_call_count.lock().unwrap(), 0);
}

#[test]
fn force_terminate_propagates_already_exited_from_open() {
    let ctrl = MockProcessControl::new().with_open_result(Err(TerminateError::AlreadyExited));
    assert!(matches!(force_terminate(999, None, &mut RecordedControl::new(&ctrl)), Err(TerminateError::AlreadyExited)));
}

#[test]
fn force_terminate_propagates_terminate_error() {
    let ctrl = MockProcessControl::new().with_terminate_result(Err(TerminateError::AccessDenied));
    assert!(matches!(force_terminate(1234, None, &mut RecordedControl::new(&ctrl)), Err(TerminateError::AccessDenied)));
    assert_eq!(*ctrl.terminate_call_count.lock().unwrap(), 1);
}

#[test]
fn mock_records_multiple_terminate_calls() {
    let ctrl = MockProcessControl::new();
    let _ = force_terminate(100, None, &mut RecordedControl::new(&ctrl));
    let _ = force_terminate(200, None, &mut RecordedControl::new(&ctrl));
    let _ = force_terminate(300, None, &mut RecordedControl::new(&ctrl));
    assert_eq!(*ctrl.terminate_call_count.lock().unwrap(), 3);
}

#[test]
fn mock_consumes_scripted_results_in_order() {
    let ctrl = MockProcessControl::new()
        .with_terminate_result(Err(TerminateError::AccessDenied))
        .with_terminate_result(Ok(()));
    let r1 = force_terminate(100, None, &mut RecordedControl::new(&ctrl));
    assert!(matches!(r1, Err(TerminateError::AccessDenied)));
    let r2 = force_terminate(200, None, &mut RecordedControl::new(&ctrl));
    assert!(r2.is_ok());
    let r3 = force_terminate(300, None, &mut RecordedControl::new(&ctrl));
    assert!(r3.is_ok());
}

#[test]
fn open_errors_and_start_time_checks() {
    assert!(matches!(open_error_from_code(5), TerminateError::AccessDenied));
    assert!(matches!(open_error_from_code(87), TerminateError::AlreadyExited));
    assert!(matches!(open_error_from_code(6), TerminateError::Win32 { code: 6, .. }));
    let a = FileTime { low: 1, high: 2 };
    assert!(check_start_time(a, a).is_ok());
    assert!(matches!(check_start_time(a, FileTime { low: 1, high: 3 }), Err(TerminateError::StalePid)));
    assert!(matches!(awaited_outcome(None), Err(TerminateError::Timeout)));
    assert!(awaited_outcome(Some(Ok(()))).is_ok());
    assert!(matches!(awaited_outcome(Some(Err(TerminateError::StalePid))), Err(TerminateError::StalePid)));
}

#[test]
fn force_terminate_makes_the_calls_in_order() {
    let ft = FileTime { low: 9, high: 3 };
    let ctrl = MockProcessControl::new().with_fake_start_time(ft);
    assert!(force_terminate(4321, Some(ft), &mut RecordedControl::new(&ctrl)).is_ok());
    assert_eq!(*ctrl.opened_pids.lock().unwrap(), vec![4321]);
    assert_eq!(*ctrl.start_time_reads.lock().unwrap(), 1);
    assert_eq!(*ctrl.exit_codes.lock().unwrap(), vec![1]);
}

#[test]
fn force_terminate_reads_no_start_time_when_none_is_expected() {
    let ctrl = MockProcessControl::new();
    assert!(force_terminate(77, None, &mut RecordedControl::new(&ctrl)).is_ok());
    assert_eq!(*ctrl.opened_pids.lock().unwrap(), vec![77]);
    assert_eq!(*ctrl.start_time_reads.lock().unwrap(), 0);
    assert_eq!(*ctrl.exit_codes.lock().unwrap(), vec![1]);
}

#[test]
fn force_terminate_asks_nothing_for_a_system_process() {
    let ctrl = MockProcessControl::new();
    assert!(matches!(force_terminate(4, Some(FileTime { low: 1, high: 1 }), &mut RecordedControl::new(&ctrl)), Err(TerminateError::SystemProtected)));
    assert!(ctrl.opened_pids.lock().unwrap().is_empty());
    assert_eq!(*ctrl.start_time_reads.lock().unwrap(), 0);
    assert!(ctrl.exit_codes.lock().unwrap().is_empty());
}

#[test]
fn force_terminate_passes_on_a_start_time_failure() {
    let ctrl = MockProcessControl::new().with_start_time_denied();
    let r = force_terminate(55, Some(FileTime { low: 0, high: 0 }), &mut RecordedControl::new(&ctrl));
    assert!(matches!(r, Err(TerminateError::AccessDenied)));
    assert!(ctrl.exit_codes.lock().unwrap().is_empty());
}

#[test]
fn force_terminate_returns_what_terminate_returns() {
    let ctrl = MockProcessControl::new().with_terminate_result(Err(TerminateError::AlreadyExited));
    assert!(matches!(force_terminate(55, None, &mut RecordedControl::new(&ctrl)), Err(TerminateError::AlreadyExited)));
    assert_eq!(*ctrl.exit_codes.lock().unwrap(), vec![1]);
}

#[test]
fn terminate_steps_follow_the_protocol() {
    let t = FileTime { low: 3, high: 4 };
    assert!(matches!(terminate_step(0, None, TerminateEvent::Begin), TerminateAction::Finish(Err(TerminateError::SystemProtected))));
    assert!(matches!(terminate_step(10, None, TerminateEvent::Begin), TerminateAction::Open { pid: 10 }));
    assert!(matches!(terminate_step(10, Some(t), TerminateEvent::Opened(Ok(()))), TerminateAction::ReadStartTime));
    assert!(matches!(terminate_step(10, None, TerminateEvent::Opened(Ok(()))), TerminateAction::Terminate { code: 1 }));
    assert!(matches!(
        terminate_step(10, None, TerminateEvent::Opened(Err(TerminateError::AccessDenied))),
        TerminateAction::Finish(Err(TerminateError::AccessDenied))
    ));
    assert!(matches!(
        terminate_step(10, Some(t), TerminateEvent::StartTimeRead(Ok(FileTime { low: 3, high: 5 }))),
        TerminateAction::Finish(Err(TerminateError::StalePid))
    ));
    assert!(matches!(terminate_step(10, Some(t), TerminateEvent::StartTimeRead(Ok(t))), TerminateAction::Terminate { code: 1 }));
    assert!(matches!(terminate_step(10, Some(t), TerminateEvent::Terminated(Ok(()))), TerminateAction::Finish(Ok(()))));
}
