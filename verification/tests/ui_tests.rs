use file_lock_inspector::detector::{AppType, ProcessRecord};
use file_lock_inspector::error::{AppError, TerminateError};
use file_lock_inspector::i18n::{set_language, Language, LanguageSetting};
use file_lock_inspector::monitor::MonitorCmd;
use file_lock_inspector::state::app_state::{AppState, PrivilegeLevel};
use file_lock_inspector::state::target::{TargetId, TargetKind, TargetStatus};
use file_lock_inspector::state::{try_add_target, FsProbe, UiCmd};
use file_lock_inspector::ui::actions::{
    add_paths_and_announce, elevation_feedback, initial_state, interval_choice, monitor_commands, next_language,
    row_click_command, terminate_feedback, terminate_in_progress, ElevationFeedback, INTERVAL_CHOICES_MS, INTERVAL_LABELS,
};
use file_lock_inspector::ui::dialogs::{ClearAllDialog, TerminateConfirmDialog};
use file_lock_inspector::ui::{
    guide_summary, pid_badge, process_title, status_label, subitem_label, target_count_label, terminate_tooltip,
    UiPlaceholder,
};

struct AllExist;

impl FsProbe for AllExist {
    fn path_exists(&self, path: &str) -> bool {
        !path.contains("missing")
    }
    fn is_dir(&self, path: &str) -> bool {
        path.ends_with('/')
    }
}

fn english() -> LanguageSetting {
    LanguageSetting::new()
}

fn chinese() -> LanguageSetting {
    let mut s = LanguageSetting::new();
    set_language(&mut s, Language::Zh);
    s
}

#[test]
fn status_labels_in_both_languages() {
    let zh = chinese();
    let en = english();
    assert_eq!(status_label(&TargetStatus::Locked { count: 2 }, &zh), "被占用 · 2 个进程");
    assert_eq!(status_label(&TargetStatus::Locked { count: 2 }, &en), "Locked · 2 processes");
    assert_eq!(status_label(&TargetStatus::Failed { reason: "x".into() }, &en), "Scan Failed");
    assert_eq!(status_label(&TargetStatus::Pending, &zh), file_lock_inspector::i18n::t(&zh, file_lock_inspector::i18n::Key::StatusPending));
}

#[test]
fn row_labels() {
    let en = english();
    assert_eq!(subitem_label(1, &en), None);
    assert_eq!(subitem_label(0, &en), None);
    assert_eq!(subitem_label(3, &en).unwrap(), "· locks 3 child item(s)");
    assert_eq!(pid_badge(77), "PID 77");
    assert_eq!(process_title("notepad.exe", 1234), "notepad.exe (PID 1234)");
    assert!(terminate_tooltip("notepad.exe", 1234, &en).ends_with(": notepad.exe (PID 1234)"));
    assert!(target_count_label(3, &en).starts_with("3 "));
}

#[test]
fn guide_summary_is_the_first_three_lines() {
    for setting in [chinese(), english()] {
        let full = file_lock_inspector::i18n::t(&setting, file_lock_inspector::i18n::Key::SystemGuideText);
        let expected = full.lines().take(3).collect::<Vec<_>>().join(" | ");
        assert_eq!(guide_summary(&setting), expected);
    }
}

#[test]
fn terminate_dialog_confirm_and_cancel() {
    let mut d = TerminateConfirmDialog::default();
    assert!(!d.open);
    assert!(d.confirm().is_none());
    d.open(42, "app.exe", TargetId(9), Some(77));
    assert!(d.open);
    match d.confirm() {
        Some(UiCmd::ConfirmTerminate { pid, process_name, target_id, start_time }) => {
            assert_eq!(pid, 42);
            assert_eq!(process_name, "app.exe");
            assert_eq!(target_id, TargetId(9));
            assert_eq!(start_time, Some(77));
        }
        _ => panic!("expected a confirmation"),
    }
    assert!(!d.open);
    d.open(1, "b", TargetId(1), None);
    d.cancel();
    assert!(!d.open);
}

#[test]
fn clear_dialog_requests_only_when_not_empty() {
    let mut d = ClearAllDialog::default();
    d.request(0);
    assert!(!d.open);
    d.request(4);
    assert!(d.open && d.count == 4);
    let en = english();
    assert!(d.message(&en).contains('4'));
    assert!(matches!(d.confirm(), UiCmd::ClearAll { confirmed: true }));
    assert!(!d.open);
    let _ = UiPlaceholder;
}

#[test]
fn terminate_feedback_messages() {
    let en = english();
    let (t, rescan) = terminate_feedback(&Ok(()), "n.exe", 5, &en);
    assert!(!t.is_error && rescan);
    assert_eq!(t.message, "Terminated n.exe (PID 5)");
    let (t, rescan) = terminate_feedback(&Err(TerminateError::AlreadyExited), "n.exe", 5, &en);
    assert!(!t.is_error && rescan);
    let (t, rescan) = terminate_feedback(&Err(TerminateError::Timeout), "n.exe", 5, &en);
    assert!(t.is_error && !rescan);
    let (t, rescan) = terminate_feedback(&Err(TerminateError::StalePid), "n.exe", 5, &en);
    assert!(t.is_error && !rescan);
    assert_eq!(t.message, "PID 5 has been reused; operation skipped");
    let (t, _) = terminate_feedback(&Err(TerminateError::Win32 { code: 6, desc: "bad".into() }), "n.exe", 5, &en);
    assert_eq!(t.message, "Windows 错误 0x00000006: bad");
    let t = terminate_in_progress("n.exe", 5, &en);
    assert!(!t.is_error && t.message.contains("n.exe"));
}

#[test]
fn elevation_feedback_cases() {
    assert!(matches!(elevation_feedback(&Ok(())), ElevationFeedback::Nothing));
    assert!(matches!(elevation_feedback(&Err(AppError::SelfExit)), ElevationFeedback::Exit));
    match elevation_feedback(&Err(AppError::AccessDenied)) {
        ElevationFeedback::Show(t) => assert!(t.is_error && t.message == "权限不足，需要管理员"),
        _ => panic!("expected a message"),
    }
}

#[test]
fn status_bar_and_toolbar_choices() {
    assert_eq!(next_language(Language::En), Language::Zh);
    assert_eq!(next_language(Language::Zh), Language::En);
    assert_eq!(INTERVAL_CHOICES_MS, [1000, 2000, 5000, 10000]);
    assert_eq!(INTERVAL_LABELS, ["1s", "2s", "5s", "10s"]);
    assert!(interval_choice(2000, 2000).is_none());
    assert!(matches!(interval_choice(2000, 5000), Some(UiCmd::SetInterval(5000))));
    let s = initial_state(PrivilegeLevel::Elevated, 5000, false, &chinese());
    assert!(s.targets.is_empty());
    assert_eq!(s.privilege, PrivilegeLevel::Elevated);
    assert_eq!(s.polling_interval_ms, 5000);
    assert!(s.last_error.as_ref().unwrap().is_error);
    let s = initial_state(PrivilegeLevel::Standard, 2000, true, &LanguageSetting::new());
    assert!(s.last_error.is_none());
}

#[test]
fn monitor_commands_follow_the_interface() {
    let fs = AllExist;
    let mut state = AppState::new_default();
    for p in ["C:/b", "C:/a", "C:/c"] {
        let _ = try_add_target(&mut state, p.to_string(), &fs);
    }
    let cmds = monitor_commands(&UiCmd::ClearAll { confirmed: true }, &state);
    let ids: Vec<u64> = cmds
        .iter()
        .map(|c| match c {
            MonitorCmd::RemoveTarget(id) => id.0,
            _ => panic!("expected a removal"),
        })
        .collect();
    assert_eq!(ids, vec![1, 2, 3]);
    assert!(monitor_commands(&UiCmd::ClearAll { confirmed: false }, &state).is_empty());
    assert!(matches!(monitor_commands(&UiCmd::SetInterval(1000), &state)[..], [MonitorCmd::SetInterval(1000)]));
    assert!(matches!(monitor_commands(&UiCmd::RemoveTarget(TargetId(2)), &state)[..], [MonitorCmd::RemoveTarget(TargetId(2))]));
    assert!(monitor_commands(&UiCmd::DismissToast, &state).is_empty());
}

#[test]
fn added_paths_are_announced_to_the_monitor() {
    let fs = AllExist;
    let mut state = AppState::new_default();
    let cmds = add_paths_and_announce(
        &mut state,
        vec!["C:/dir/".into(), "C:/missing".into(), "C:/f.txt".into(), "C:/dir/".into()],
        &fs,
    );
    assert_eq!(cmds.len(), 2);
    match &cmds[0] {
        MonitorCmd::AddTarget { id, path, kind } => {
            assert_eq!(*id, TargetId(1));
            assert_eq!(path, "C:/dir/");
            assert_eq!(*kind, TargetKind::Directory);
        }
        _ => panic!("expected an addition"),
    }
    match &cmds[1] {
        MonitorCmd::AddTarget { id, path, kind } => {
            assert_eq!(*id, TargetId(2));
            assert_eq!(path, "C:/f.txt");
            assert_eq!(*kind, TargetKind::File);
        }
        _ => panic!("expected an addition"),
    }
    assert_eq!(state.targets.len(), 2);
}

fn row(pid: u32, is_system: bool) -> ProcessRecord {
    ProcessRecord {
        pid,
        name: "tool.exe".into(),
        image_path: None,
        locked_subpath: None,
        locked_subitem_count: 1,
        start_time: Some(77),
        app_type: AppType::Application,
        is_system,
        user_sid: None,
        user_account: None,
    }
}

#[test]
fn a_system_row_only_shows_the_guide() {
    let en = english();
    match row_click_command(&row(4, true), TargetId(3), &en) {
        UiCmd::ShowToast(t) => {
            assert!(!t.is_error);
            assert_eq!(t.message, guide_summary(&en));
        }
        _ => panic!("a system process opens no termination dialog"),
    }
}

#[test]
fn an_ordinary_row_opens_the_termination_dialog() {
    match row_click_command(&row(1234, false), TargetId(3), &english()) {
        UiCmd::OpenTerminateDialog { pid, process_name, target_id, start_time } => {
            assert_eq!(pid, 1234);
            assert_eq!(process_name, "tool.exe");
            assert_eq!(target_id, TargetId(3));
            assert_eq!(start_time, Some(77));
        }
        _ => panic!("expected the termination dialog"),
    }
}
