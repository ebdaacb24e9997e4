use std::collections::HashSet;

use file_lock_inspector::detector::{AppType, ProcessRecord};
use file_lock_inspector::error::ScanFailure;
use file_lock_inspector::monitor::ScanEvent;
use file_lock_inspector::state::app_state::{AppState, PrivilegeLevel, UiToast};
use file_lock_inspector::state::target::{TargetId, TargetItem, TargetKind, TargetStatus};
use file_lock_inspector::state::{
    add_target_with, apply, apply_scan_event, try_add_target, try_add_targets, AddError, BatchAddSummary, FsProbe,
    RealFsProbe, UiCmd,
};

struct MockFs {
    existing: HashSet<String>,
    dirs: HashSet<String>,
}

impl MockFs {
    fn new(existing: &[&str], dirs: &[&str]) -> Self {
        Self {
            existing: existing.iter().map(|s| s.to_string()).collect(),
            dirs: dirs.iter().map(|s| s.to_string()).collect(),
        }
    }
}

impl FsProbe for MockFs {
    fn path_exists(&self, path: &str) -> bool {
        self.existing.contains(path)
    }
    fn is_dir(&self, path: &str) -> bool {
        self.dirs.contains(path)
    }
}

fn record(pid: u32) -> ProcessRecord {
    ProcessRecord {
        pid,
        name: "x.exe".into(),
        image_path: None,
        locked_subpath: None,
        locked_subitem_count: 1,
        start_time: None,
        app_type: AppType::Unknown,
        is_system: false,
        user_sid: None,
        user_account: None,
    }
}

#[test]
fn try_add_target_ok_file() {
    let mut state = AppState::new_default();
    let fs = MockFs::new(&["/tmp/foo.txt"], &[]);
    let result = try_add_target(&mut state, "/tmp/foo.txt".to_string(), &fs);
    assert!(result.is_ok());
    let id = result.unwrap();
    let item = state.targets.get(&id.0).unwrap();
    assert_eq!(item.kind, TargetKind::File);
    assert!(matches!(item.status, TargetStatus::Pending));
}

#[test]
fn try_add_target_ok_directory() {
    let mut state = AppState::new_default();
    let fs = MockFs::new(&["/tmp/mydir"], &["/tmp/mydir"]);
    let result = try_add_target(&mut state, "/tmp/mydir".to_string(), &fs);
    assert!(result.is_ok());
    let id = result.unwrap();
    let item = state.targets.get(&id.0).unwrap();
    assert_eq!(item.kind, TargetKind::Directory);
}

#[test]
fn try_add_target_err_path_not_found() {
    let mut state = AppState::new_default();
    let fs = MockFs::new(&[], &[]);
    let result = try_add_target(&mut state, "/nonexistent/path.txt".to_string(), &fs);
    assert!(matches!(result, Err(AddError::PathNotFound)));
    assert!(state.targets.is_empty());
}

#[test]
fn try_add_target_err_duplicate() {
    let mut state = AppState::new_default();
    let fs = MockFs::new(&["/tmp/foo.txt"], &[]);
    let _ = try_add_target(&mut state, "/tmp/foo.txt".to_string(), &fs);
    let result = try_add_target(&mut state, "/tmp/foo.txt".to_string(), &fs);
    assert!(matches!(result, Err(AddError::Duplicate)));
    assert_eq!(state.targets.len(), 1);
}

#[test]
fn try_add_targets_batch_summary() {
    let mut state = AppState::new_default();
    let fs = MockFs::new(&["/a.txt", "/b.txt"], &[]);
    let _ = try_add_target(&mut state, "/a.txt".to_string(), &fs);
    let paths = vec!["/a.txt".to_string(), "/b.txt".to_string(), "/missing.txt".to_string()];
    let summary = try_add_targets(&mut state, paths, &fs);
    assert_eq!(summary.added, 1);
    assert_eq!(summary.skipped_existing, 1);
    assert_eq!(summary.rejected_missing, 1);
}

#[test]
fn batch_add_summary_toast_message_format() {
    let summary = BatchAddSummary { added: 3, skipped_existing: 2, rejected_missing: 1 };
    let msg = summary.to_toast_message();
    assert!(msg.contains("3"), "should contain added count");
    assert!(msg.contains("2"), "should contain skipped count");
    assert!(msg.contains("1"), "should contain rejected count");
    assert_eq!(msg, "成功添加 3 项 / 跳过 2 项已存在 / 拒绝 1 项不存在");
}

#[test]
fn batch_add_summary_all_zeros_message() {
    let summary = BatchAddSummary { added: 0, skipped_existing: 0, rejected_missing: 0 };
    let msg = summary.to_toast_message();
    assert_eq!(msg, "成功添加 0 项 / 跳过 0 项已存在 / 拒绝 0 项不存在");
}

#[test]
fn added_paths_are_the_existing_inputs_once_each() {
    let inputs = ["C:/data/p1.txt", "C:/data/p2.txt", "C:/data/p1.txt", "C:/data/p3.txt", "C:/data/p2.txt", "C:/data/p9.txt"];
    let fs = MockFs::new(&["C:/data/p1.txt", "C:/data/p2.txt", "C:/data/p9.txt", "C:/data/p7.txt"], &[]);
    let mut state = AppState::new_default();
    for p in inputs {
        let _ = try_add_target(&mut state, p.to_string(), &fs);
    }
    let expected: HashSet<String> = ["C:/data/p1.txt", "C:/data/p2.txt", "C:/data/p9.txt"].iter().map(|s| s.to_string()).collect();
    let actual: HashSet<String> = state.targets.values().map(|t| t.path.clone()).collect();
    assert_eq!(expected, actual);
    assert_eq!(state.targets.len(), 3);
    assert_eq!(state.next_id, 4);
}

#[test]
fn batch_counts_add_up_to_the_inputs() {
    let inputs: Vec<String> = (0..12).map(|i| format!("C:/data/p{}.txt", i % 7)).collect();
    let fs = MockFs::new(&["C:/data/p0.txt", "C:/data/p3.txt", "C:/data/p5.txt"], &[]);
    let mut state = AppState::new_default();
    let total = inputs.len();
    let summary = try_add_targets(&mut state, inputs, &fs);
    assert_eq!(summary.added + summary.skipped_existing + summary.rejected_missing, total);
    assert_eq!(summary.added, 3);
    assert_eq!(summary.skipped_existing, 2);
    let expected = format!(
        "成功添加 {} 项 / 跳过 {} 项已存在 / 拒绝 {} 项不存在",
        summary.added, summary.skipped_existing, summary.rejected_missing
    );
    assert_eq!(summary.to_toast_message(), expected);
}

#[test]
fn add_target_with_follows_the_answers() {
    let mut state = AppState::new_default();
    assert!(matches!(add_target_with(&mut state, "a".into(), false, true), Err(AddError::PathNotFound)));
    let id = add_target_with(&mut state, "a".into(), true, true).unwrap();
    assert_eq!(id, TargetId(1));
    assert_eq!(state.targets.get(&1).unwrap().kind, TargetKind::Directory);
    assert!(matches!(add_target_with(&mut state, "a".into(), true, false), Err(AddError::Duplicate)));
    assert_eq!(state.next_id, 2);
}

#[test]
fn scan_events_reflect_the_latest_scan() {
    let fs = MockFs::new(&["C:/x"], &[]);
    for counts in [vec![0usize], vec![3, 0], vec![1, 4, 2], vec![0, 0, 5]] {
        let mut state = AppState::new_default();
        let id = try_add_target(&mut state, "C:/x".to_string(), &fs).unwrap();
        let mut last = 0;
        for c in &counts {
            let recs: Vec<ProcessRecord> = (0..*c).map(|i| record(i as u32 + 1)).collect();
            apply_scan_event(&mut state, ScanEvent::Completed(id, recs));
            last = *c;
        }
        let t = state.targets.get(&id.0).unwrap();
        assert_eq!(t.processes.len(), last);
        assert!(t.last_scanned_at.is_some());
        if last == 0 {
            assert!(matches!(t.status, TargetStatus::Idle));
        } else {
            assert!(matches!(&t.status, TargetStatus::Locked { count } if *count == last));
        }
    }
}

#[test]
fn started_and_failed_events_set_the_status() {
    let fs = MockFs::new(&["C:/x"], &[]);
    let mut state = AppState::new_default();
    let id = try_add_target(&mut state, "C:/x".to_string(), &fs).unwrap();
    apply_scan_event(&mut state, ScanEvent::Started(id));
    assert!(matches!(state.targets.get(&id.0).unwrap().status, TargetStatus::Scanning));
    apply_scan_event(&mut state, ScanEvent::Failed(id, ScanFailure::AccessDenied));
    assert!(matches!(state.targets.get(&id.0).unwrap().status, TargetStatus::AccessDenied));
    apply_scan_event(&mut state, ScanEvent::Failed(id, ScanFailure::Other("boom".into())));
    match &state.targets.get(&id.0).unwrap().status {
        TargetStatus::Failed { reason } => assert_eq!(reason, "扫描失败: boom"),
        other => panic!("unexpected {other:?}"),
    }
    apply_scan_event(&mut state, ScanEvent::Started(TargetId(99)));
    assert_eq!(state.targets.len(), 1);
}

fn state_clone(s: &AppState) -> AppState {
    let mut copy = AppState::new_default();
    copy.next_id = s.next_id;
    copy.polling_interval_ms = s.polling_interval_ms;
    copy.privilege = s.privilege;
    copy.windows_supported = s.windows_supported;
    for (id, t) in &s.targets {
        copy.targets.insert(
            *id,
            TargetItem {
                id: t.id,
                path: t.path.clone(),
                kind: t.kind,
                status: t.status.clone(),
                processes: t.processes.clone(),
                last_scanned_at: t.last_scanned_at,
            },
        );
    }
    copy
}

#[test]
fn remove_and_clear_are_idempotent() {
    let paths = ["C:/data/p1.txt", "C:/data/p4.txt", "C:/data/p2.txt"];
    let fs = MockFs::new(&paths, &[]);
    let mut state = AppState::new_default();
    for p in paths {
        let _ = try_add_target(&mut state, p.to_string(), &fs);
    }
    let id = *state.targets.keys().next().unwrap();
    let mut s1 = state_clone(&state);
    apply(&mut s1, UiCmd::RemoveTarget(TargetId(id)), &fs);
    let k1: Vec<u64> = s1.targets.keys().copied().collect();
    let mut s2 = state_clone(&s1);
    apply(&mut s2, UiCmd::RemoveTarget(TargetId(id)), &fs);
    let k2: Vec<u64> = s2.targets.keys().copied().collect();
    assert_eq!(k1, k2);
    assert!(!s2.targets.contains_key(&id));

    let mut s3 = state_clone(&state);
    apply(&mut s3, UiCmd::ClearAll { confirmed: true }, &fs);
    assert!(s3.targets.is_empty());
    apply(&mut s3, UiCmd::ClearAll { confirmed: true }, &fs);
    assert!(s3.targets.is_empty());
}

#[test]
fn cancel_keeps_state_unchanged() {
    let paths = ["C:/a", "C:/b"];
    let fs = MockFs::new(&paths, &[]);
    let mut state = AppState::new_default();
    for p in paths {
        let _ = try_add_target(&mut state, p.to_string(), &fs);
    }
    let before = (state.targets.len(), state.polling_interval_ms, state.next_id);
    apply(&mut state, UiCmd::ClearAll { confirmed: false }, &fs);
    assert_eq!(before, (state.targets.len(), state.polling_interval_ms, state.next_id));
}

#[test]
fn settings_commands_set_their_field() {
    let fs = MockFs::new(&["C:/a"], &[]);
    let mut state = AppState::new_default();
    apply(&mut state, UiCmd::SetInterval(5000), &fs);
    assert_eq!(state.polling_interval_ms, 5000);
    apply(&mut state, UiCmd::SetPrivilege(PrivilegeLevel::Elevated), &fs);
    assert_eq!(state.privilege, PrivilegeLevel::Elevated);
    apply(&mut state, UiCmd::ShowToast(UiToast::error("oops")), &fs);
    assert_eq!(state.last_error.as_ref().unwrap().message, "oops");
    apply(&mut state, UiCmd::DismissToast, &fs);
    assert!(state.last_error.is_none());
    apply(&mut state, UiCmd::AddPaths(vec!["C:/a".into(), "C:/zz".into()]), &fs);
    assert_eq!(state.targets.len(), 1);
    apply(
        &mut state,
        UiCmd::OpenTerminateDialog { pid: 5, process_name: "n".into(), target_id: TargetId(1), start_time: None },
        &fs,
    );
    assert_eq!(state.targets.len(), 1);
}

#[test]
fn batch_watches_each_existing_path_once() {
    let fs = MockFs::new(&["C:/a", "C:/b", "C:/c"], &["C:/b"]);
    let mut state = AppState::new_default();
    let _ = try_add_target(&mut state, "C:/c".to_string(), &fs);
    let summary = try_add_targets(
        &mut state,
        vec!["C:/b".into(), "C:/x".into(), "C:/a".into(), "C:/b".into(), "C:/c".into()],
        &fs,
    );
    assert_eq!((summary.added, summary.skipped_existing, summary.rejected_missing), (2, 2, 1));
    let mut paths: Vec<String> = state.targets.values().map(|t| t.path.clone()).collect();
    paths.sort();
    assert_eq!(paths, vec!["C:/a", "C:/b", "C:/c"]);
    assert_eq!(state.targets.get(&2).unwrap().kind, TargetKind::Directory);
    assert_eq!(state.targets.get(&3).unwrap().path, "C:/a");
}

#[test]
fn real_file_system_probe_answers() {
    let fs = RealFsProbe;
    assert!(fs.path_exists("."));
    assert!(fs.is_dir("."));
    assert!(fs.path_exists("tests/state_tests.rs") || !fs.is_dir("tests/state_tests.rs"));
    assert!(!fs.path_exists("./no-such-entry-for-the-probe-4711"));
    assert!(!fs.is_dir("./no-such-entry-for-the-probe-4711"));
}

#[test]
fn batch_grows_the_targets_by_the_number_added() {
    let fs = MockFs::new(&["C:/a", "C:/b", "C:/c"], &[]);
    let mut state = AppState::new_default();
    try_add_target(&mut state, "C:/a".to_string(), &fs).unwrap();
    let before = state.targets.len();
    let summary = try_add_targets(
        &mut state,
        vec!["C:/a".into(), "C:/b".into(), "C:/missing".into(), "C:/c".into(), "C:/b".into()],
        &fs,
    );
    assert_eq!(summary.added, 2);
    assert_eq!(state.targets.len(), before + summary.added);
    let mut paths: Vec<String> = state.targets.values().map(|t| t.path.clone()).collect();
    paths.sort();
    assert_eq!(paths, vec!["C:/a".to_string(), "C:/b".to_string(), "C:/c".to_string()]);
}

#[test]
fn clear_all_clears_a_state_whatever_its_ids() {
    let mut s = AppState::new_default();
    for (k, p) in [(1u64, "/a"), (2u64, "/b")] {
        s.targets.insert(
            k,
            TargetItem {
                id: TargetId(k),
                path: p.into(),
                kind: TargetKind::File,
                status: TargetStatus::Pending,
                processes: vec![],
                last_scanned_at: None,
            },
        );
    }
    apply(&mut s, UiCmd::ClearAll { confirmed: true }, &MockFs::new(&[], &[]));
    assert!(s.targets.is_empty());
    assert_eq!(s.next_id, 1);
    assert_eq!(s.polling_interval_ms, 2000);
}
