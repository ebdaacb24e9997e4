//! What the interface does after the user acted: the messages that report
//! a termination, the commands that keep the monitor in step with the
//! state, and the small choices of the status bar and the toolbar.

use vstd::prelude::*;

use crate::error::{AppError, TerminateError, terminate_error_text, app_error_text};
use crate::i18n::{Key, Language, LanguageSetting, format_pid, t, text};
use crate::monitor::MonitorCmd;
use crate::state::app_state::{AppState, PrivilegeLevel, UiToast};
use crate::state::{AddError, FsProbe, UiCmd, add_outcome, batch_run, grown_from, same_settings, try_add_target};
use crate::state::target::TargetId;
use crate::text::{decimal, replace_all};
use crate::detector::ProcessRecord;
use super::{guide_summary, guide_summary_text};

verus! {

/// The text of `key` with `{NAME}` and `{PID}` filled in.
pub open spec fn pid_text(key: Key, lang: Language, name: Seq<char>, pid: u32) -> Seq<char> {
    replace_all(replace_all(text(key, lang), "{NAME}"@, name), "{PID}"@, decimal(pid as nat))
}

/// The message shown while a process is being terminated.
pub fn terminate_in_progress(name: &str, pid: u32, setting: &LanguageSetting) -> (toast: UiToast)
    ensures
        toast.message@ == pid_text(Key::ToastTermInProgressFmt, setting.language(), name@, pid),
        !toast.is_error,
{
    let s = format_pid(t(setting, Key::ToastTermInProgressFmt), name, pid);
    UiToast::info(s.as_str())
}

/// The message that reports the termination of the process `pid` named
/// `name`, and whether its target is to be scanned again at once (when the
/// process is gone: terminated, or already exited).
pub open spec fn terminate_feedback_spec(
    result: Result<(), TerminateError>,
    name: Seq<char>,
    pid: u32,
    lang: Language,
    toast: UiToast,
    rescan: bool,
) -> bool {
    match result {
        Ok(()) => !toast.is_error && rescan && toast.message@ == pid_text(Key::ToastTermSuccessFmt, lang, name, pid),
        Err(TerminateError::AlreadyExited) => !toast.is_error && rescan && toast.message@ == pid_text(
            Key::ToastTermAlreadyExitedFmt,
            lang,
            name,
            pid,
        ),
        Err(TerminateError::AccessDenied) => toast.is_error && !rescan && toast.message@ == text(
            Key::ToastTermAccessDenied,
            lang,
        ),
        Err(TerminateError::Timeout) => toast.is_error && !rescan && toast.message@ == text(Key::ToastTermTimeout, lang),
        Err(TerminateError::SystemProtected) => toast.is_error && !rescan && toast.message@ == text(
            Key::ToastTermSystemProtected,
            lang,
        ),
        Err(TerminateError::StalePid) => toast.is_error && !rescan && toast.message@ == pid_text(
            Key::ToastTermStalePidFmt,
            lang,
            name,
            pid,
        ),
        Err(TerminateError::Win32 { code, desc }) => toast.is_error && !rescan && toast.message@
            == terminate_error_text(TerminateError::Win32 { code, desc }),
        Err(TerminateError::Other(_)) => toast.is_error && !rescan,
    }
}

/// The message that reports a termination, and whether to scan its target
/// again at once.
pub fn terminate_feedback(result: &Result<(), TerminateError>, name: &str, pid: u32, setting: &LanguageSetting) -> (out: (UiToast, bool))
    ensures
        terminate_feedback_spec(*result, name@, pid, setting.language(), out.0, out.1),
{
    match result {
        Ok(()) => {
            let s = format_pid(t(setting, Key::ToastTermSuccessFmt), name, pid);
            (UiToast::info(s.as_str()), true)
        },
        Err(TerminateError::AlreadyExited) => {
            let s = format_pid(t(setting, Key::ToastTermAlreadyExitedFmt), name, pid);
            (UiToast::info(s.as_str()), true)
        },
        Err(TerminateError::AccessDenied) => (UiToast::error(t(setting, Key::ToastTermAccessDenied)), false),
        Err(TerminateError::Timeout) => (UiToast::error(t(setting, Key::ToastTermTimeout)), false),
        Err(TerminateError::SystemProtected) => (UiToast::error(t(setting, Key::ToastTermSystemProtected)), false),
        Err(TerminateError::StalePid) => {
            let s = format_pid(t(setting, Key::ToastTermStalePidFmt), name, pid);
            (UiToast::error(s.as_str()), false)
        },
        Err(other) => {
            let s = other.to_string();
            (UiToast::error(s.as_str()), false)
        },
    }
}

/// What follows the request to restart elevated.
#[derive(Debug)]
pub enum ElevationFeedback {
    /// The user declined: nothing happens.
    Nothing,
    /// The elevated copy started: this process exits.
    Exit,
    /// The request failed: this message is shown.
    Show(UiToast),
}

/// What follows the request to restart elevated, given its outcome.
pub fn elevation_feedback(r: &Result<(), AppError>) -> (f: ElevationFeedback)
    ensures
        match *r {
            Ok(()) => f is Nothing,
            Err(AppError::SelfExit) => f is Exit,
            Err(e) => f matches ElevationFeedback::Show(toast) && toast.is_error && toast.message@ == app_error_text(e),
        },
{
    match r {
        Ok(()) => ElevationFeedback::Nothing,
        Err(AppError::SelfExit) => ElevationFeedback::Exit,
        Err(e) => {
            let s = e.to_string();
            ElevationFeedback::Show(UiToast::error(s.as_str()))
        },
    }
}

/// The language the language button switches to.
pub fn next_language(lang: Language) -> (next: Language)
    ensures
        next == match lang {
            Language::En => Language::Zh,
            Language::Zh => Language::En,
        },
{
    match lang {
        Language::En => Language::Zh,
        Language::Zh => Language::En,
    }
}

/// The polling intervals the status bar offers, in milliseconds.
pub const INTERVAL_CHOICES_MS: [u32; 4] = [1000, 2000, 5000, 10000];

/// The labels of the polling intervals.
pub const INTERVAL_LABELS: [&'static str; 4] = ["1s", "2s", "5s", "10s"];

/// The command that choosing the interval `chosen` gives while `current` is
/// in effect: none when it is already in effect.
pub fn interval_choice(current: u32, chosen: u32) -> (cmd: Option<UiCmd>)
    ensures
        current == chosen ==> cmd is None,
        current != chosen ==> cmd == Some(UiCmd::SetInterval(chosen)),
{
    if current == chosen {
        None
    } else {
        Some(UiCmd::SetInterval(chosen))
    }
}

/// The state the application starts with: empty, with the rights it runs
/// with, the polling interval of its settings, and, on a Windows version
/// that is not supported, the message that says so.
pub fn initial_state(privilege: PrivilegeLevel, polling_interval_ms: u32, windows_supported: bool, setting: &LanguageSetting) -> (s: AppState)
    ensures
        s.wf(),
        s.targets@ == Map::<u64, crate::state::target::TargetItem>::empty(),
        s.next_id == 1,
        s.privilege == privilege,
        s.polling_interval_ms == polling_interval_ms,
        s.windows_supported == windows_supported,
        windows_supported ==> s.last_error is None,
        !windows_supported ==> (s.last_error matches Some(toast) && toast.is_error && toast.message@ == text(
            Key::MsgUnsupportedOs,
            setting.language(),
        )),
{
    let mut s = AppState::new_default();
    s.privilege = privilege;
    s.polling_interval_ms = polling_interval_ms;
    s.windows_supported = windows_supported;
    if !windows_supported {
        s.last_error = Some(UiToast::error(t(setting, Key::MsgUnsupportedOs)));
    }
    s
}

/// The monitor commands that keep the monitor in step with a command of the
/// interface, before the state applies it: removing a target stops watching
/// it, a confirmed clearing stops watching every target (in increasing order
/// of id), changing the interval changes the monitor's; nothing else is sent.
pub open spec fn monitor_commands_spec(cmd: UiCmd, state: AppState, out: Seq<MonitorCmd>) -> bool {
    match cmd {
        UiCmd::RemoveTarget(id) => out == seq![MonitorCmd::RemoveTarget(id)],
        UiCmd::ClearAll { confirmed } => if confirmed {
            &&& forall|i: int, j: int| 0 <= i < j < out.len() ==> (#[trigger] out[i])->RemoveTarget_0.0 < (#[trigger] out[j])->RemoveTarget_0.0
            &&& forall|i: int| 0 <= i < out.len() ==> (#[trigger] out[i]) is RemoveTarget && state.targets@.contains_key(out[i]->RemoveTarget_0.0)
            &&& forall|k: u64| #[trigger] state.targets@.contains_key(k) ==> exists|i: int| 0 <= i < out.len() && out[i] == MonitorCmd::RemoveTarget(TargetId(k))
        } else {
            out.len() == 0
        },
        UiCmd::SetInterval(ms) => out == seq![MonitorCmd::SetInterval(ms)],
        _ => out.len() == 0,
    }
}

/// The monitor commands that keep the monitor in step with a command of the
/// interface, before the state applies it.
pub fn monitor_commands(cmd: &UiCmd, state: &AppState) -> (out: Vec<MonitorCmd>)
    ensures
        monitor_commands_spec(*cmd, *state, out@),
{
    let mut out: Vec<MonitorCmd> = Vec::new();
    match cmd {
        UiCmd::RemoveTarget(id) => {
            out.push(MonitorCmd::RemoveTarget(*id));
            assert(out@ =~= seq![MonitorCmd::RemoveTarget(*id)]);
        },
        UiCmd::ClearAll { confirmed } => {
            if *confirmed {
                let keys = crate::monitor::scheduler::sorted_keys(&state.targets);
                let mut i: usize = 0;
                while i < keys.len()
                    invariant
                        i <= keys@.len(),
                        out@.len() == i,
                        forall|a: int, b: int| 0 <= a < b < keys@.len() ==> keys@[a] < keys@[b],
                        forall|k: u64| state.targets@.contains_key(k) <==> keys@.contains(k),
                        forall|a: int| 0 <= a < i ==> #[trigger] out@[a] == MonitorCmd::RemoveTarget(TargetId(keys@[a])),
                    decreases keys@.len() - i,
                {
                    out.push(MonitorCmd::RemoveTarget(TargetId(keys[i])));
                    i = i + 1;
                }
                proof {
                    assert forall|a: int| 0 <= a < out@.len() implies (#[trigger] out@[a]) is RemoveTarget
                        && state.targets@.contains_key(out@[a]->RemoveTarget_0.0) by {
                        assert(keys@.contains(keys@[a]));
                    }
                    assert forall|k: u64| #[trigger] state.targets@.contains_key(k) implies exists|a: int|
                        0 <= a < out@.len() && out@[a] == MonitorCmd::RemoveTarget(TargetId(k)) by {
                        assert(keys@.contains(k));
                        let a = choose|a: int| 0 <= a < keys@.len() && keys@[a] == k;
                        assert(out@[a] == MonitorCmd::RemoveTarget(TargetId(keys@[a])));
                    }
                }
            }
        },
        UiCmd::SetInterval(ms) => {
            out.push(MonitorCmd::SetInterval(*ms));
            assert(out@ =~= seq![MonitorCmd::SetInterval(*ms)]);
        },
        _ => {},
    }
    out
}

/// Adds dropped or picked paths one by one, as `try_add_target` does, and
/// gives, for each path that was added, the command that has the monitor
/// watch it, with the kind recorded for the new target (a folder when `fs`
/// answered that the path is one).
pub fn add_paths_and_announce<F: FsProbe>(state: &mut AppState, paths: Vec<String>, fs: &F) -> (cmds: Vec<MonitorCmd>)
    requires
        old(state).wf(),
        old(state).next_id + paths@.len() < u64::MAX,
    ensures
        final(state).wf(),
        same_settings(*old(state), *final(state)),
        grown_from(*old(state), *final(state), paths@),
        exists|states: Seq<AppState>, found: Seq<bool>, is_dir: Seq<bool>, rs: Seq<Result<TargetId, AddError>>|
            {
                &&& batch_run(states, paths@, found, is_dir, rs)
                &&& states[0] == *old(state)
                &&& states.last() == *final(state)
            },
        cmds@.len() == final(state).next_id - old(state).next_id,
        forall|i: int|
            0 <= i < cmds@.len() ==> (#[trigger] cmds@[i] matches MonitorCmd::AddTarget { id, path, kind }
                && id.0 == old(state).next_id + i && final(state).targets@.contains_key(id.0)
                && path@ == final(state).targets@[id.0].path@ && kind == final(state).targets@[id.0].kind),
{
    let ghost all = paths@;
    let mut cmds: Vec<MonitorCmd> = Vec::new();
    let mut rest = paths;
    let mut i: usize = 0;
    let n = rest.len();
    let ghost mut states: Seq<AppState> = seq![*state];
    let ghost mut founds: Seq<bool> = Seq::empty();
    let ghost mut dirs: Seq<bool> = Seq::empty();
    let ghost mut rs: Seq<Result<TargetId, AddError>> = Seq::empty();
    assert(all.skip(0) =~= all);
    while rest.len() > 0
        invariant
            n == all.len(),
            i <= n,
            rest@ == all.skip(i as int),
            state.wf(),
            old(state).next_id + n < u64::MAX,
            state.next_id <= old(state).next_id + i,
            batch_run(states, all.take(i as int), founds, dirs, rs),
            states[0] == *old(state),
            states.last() == *state,
            same_settings(*old(state), *state),
            grown_from(*old(state), *state, all),
            cmds@.len() == state.next_id - old(state).next_id,
            forall|a: int|
                0 <= a < cmds@.len() ==> (#[trigger] cmds@[a] matches MonitorCmd::AddTarget { id, path, kind }
                    && id.0 == old(state).next_id + a && state.targets@.contains_key(id.0)
                    && path@ == state.targets@[id.0].path@ && kind == state.targets@[id.0].kind),
        decreases rest@.len(),
    {
        let path = rest.remove(0);
        assert(path == all[i as int]);
        let ghost before = *state;
        let copy = path.clone();
        let r = try_add_target(state, path, fs);
        proof {
            let (found, is_dir) = choose|found: bool, is_dir: bool|
                add_outcome(before, *state, all[i as int]@, found, is_dir, r);
            assert forall|k: u64|
                #[trigger] state.targets@.contains_key(k) && !old(state).targets@.contains_key(k)
                    implies old(state).next_id <= k < state.next_id && (exists|j: int|
                    0 <= j < all.len() && state.targets@[k].path@ == all[j]@)
                    && state.targets@[k].status is Pending && state.targets@[k].processes@.len() == 0
                    && state.targets@[k].last_scanned_at is None by {
                if before.targets@.contains_key(k) {
                } else {
                    assert(k == before.next_id);
                    assert(state.targets@[k].path@ == all[i as int]@);
                }
            }
            let old_states = states;
            states = states.push(*state);
            founds = founds.push(found);
            dirs = dirs.push(is_dir);
            rs = rs.push(r);
            assert(all.take(i + 1) =~= all.take(i as int).push(all[i as int]));
            assert forall|k: int| 0 <= k < i + 1 implies add_outcome(
                #[trigger] states[k],
                states[k + 1],
                all.take(i + 1)[k]@,
                founds[k],
                dirs[k],
                rs[k],
            ) by {
                if k < i {
                    assert(states[k] == old_states[k] && states[k + 1] == old_states[k + 1]);
                    assert(add_outcome(old_states[k], old_states[k + 1], all.take(i as int)[k]@, founds[k], dirs[k], rs[k]));
                }
            }
        }
        if let Ok(id) = r {
            let kind = state.targets.get(&id.0).unwrap().kind;
            let ghost before_cmds = cmds@;
            cmds.push(MonitorCmd::AddTarget { id, path: copy, kind });
            proof {
                assert forall|a: int|
                    0 <= a < cmds@.len() implies (#[trigger] cmds@[a] matches MonitorCmd::AddTarget { id, path, kind }
                        && id.0 == old(state).next_id + a && state.targets@.contains_key(id.0)
                        && path@ == state.targets@[id.0].path@ && kind == state.targets@[id.0].kind) by {
                    if a < before_cmds.len() {
                        assert(cmds@[a] == before_cmds[a]);
                        let k = before_cmds[a]->AddTarget_id.0;
                        assert(before.targets@.contains_key(k));
                    }
                }
            }
        } else {
            proof {
                assert forall|a: int|
                    0 <= a < cmds@.len() implies (#[trigger] cmds@[a] matches MonitorCmd::AddTarget { id, path, kind }
                        && id.0 == old(state).next_id + a && state.targets@.contains_key(id.0)
                        && path@ == state.targets@[id.0].path@ && kind == state.targets@[id.0].kind) by {
                    let k = cmds@[a]->AddTarget_id.0;
                    assert(before.targets@.contains_key(k));
                }
            }
        }
        i = i + 1;
        assert(rest@ =~= all.skip(i as int));
    }
    assert(all.take(n as int) =~= all);
    cmds
}

/// What clicking the action button of a process row gives: for a system
/// process, which is never terminated, only the message with the advice on
/// system processes; for any other process, the request to confirm its
/// termination.
pub fn row_click_command(record: &ProcessRecord, target_id: TargetId, setting: &LanguageSetting) -> (cmd: UiCmd)
    ensures
        record.is_system ==> (cmd matches UiCmd::ShowToast(t) && !t.is_error && t.message@ == guide_summary_text(*setting)),
        !record.is_system ==> cmd == (UiCmd::OpenTerminateDialog {
            pid: record.pid,
            process_name: record.name,
            target_id,
            start_time: record.start_time,
        }),
{
    if record.is_system {
        let summary = guide_summary(setting);
        UiCmd::ShowToast(UiToast::info(summary.as_str()))
    } else {
        UiCmd::OpenTerminateDialog {
            pid: record.pid,
            process_name: record.name.clone(),
            target_id,
            start_time: record.start_time,
        }
    }
}

} // verus!
