use file_lock_inspector::detector::asked::RecordedRm;
use file_lock_inspector::detector::enumerate::{registered_paths, registered_with_children};
use file_lock_inspector::detector::restart_manager::{
    after_fetch, after_size_query, app_name_from_units, register_batches, rm_error_from_code, rm_start_time,
    rm_step, FetchStep, RestartManagerApi, RmAction, RmEvent, RmOutcome, RmProcessInfo, RmStage, SizeStep,
};
use file_lock_inspector::detector::{
    collect_answers, map_app_type, merge_process_records, records_from_scan, scan_each_path, scan_failure_from, AppType, RawRecord,
};
use file_lock_inspector::error::{RmError, ScanFailure};
use file_lock_inspector::process_info::{FileTime, ProcessSnapshot};
use file_lock_inspector::state::target::TargetKind;

fn raw(pid: u32, name: &str, matched: Option<&str>) -> RawRecord {
    RawRecord {
        pid,
        name: name.into(),
        image_path: None,
        start_time: None,
        app_type: AppType::Unknown,
        is_system: false,
        user_sid: None,
        user_account: None,
        matched_path: matched.map(str::to_string),
    }
}

#[test]
fn merge_deduplicates_by_pid() {
    let raw = vec![
        RawRecord {
            pid: 100,
            name: "foo.exe".into(),
            image_path: None,
            start_time: None,
            app_type: AppType::Application,
            is_system: false,
            user_sid: None,
            user_account: None,
            matched_path: None,
        },
        RawRecord {
            pid: 100,
            name: "foo.exe".into(),
            image_path: None,
            start_time: None,
            app_type: AppType::Application,
            is_system: false,
            user_sid: None,
            user_account: None,
            matched_path: None,
        },
        RawRecord {
            pid: 200,
            name: "bar.exe".into(),
            image_path: None,
            start_time: None,
            app_type: AppType::Service,
            is_system: false,
            user_sid: None,
            user_account: None,
            matched_path: None,
        },
    ];
    let result = merge_process_records(raw, &[], false);
    assert_eq!(result.len(), 2);
    let pid100 = result.iter().find(|r| r.pid == 100).unwrap();
    assert_eq!(pid100.locked_subitem_count, 2);
    let pid200 = result.iter().find(|r| r.pid == 200).unwrap();
    assert_eq!(pid200.locked_subitem_count, 1);
    assert_eq!(result[0].pid, 100);
    assert_eq!(result[1].pid, 200);
}

#[test]
fn merge_subitem_count_sums_correctly() {
    let raw: Vec<RawRecord> = (0..5)
        .map(|_| RawRecord {
            pid: 42,
            name: "multi.exe".into(),
            image_path: None,
            start_time: None,
            app_type: AppType::Unknown,
            is_system: false,
            user_sid: None,
            user_account: None,
            matched_path: None,
        })
        .collect();
    let result = merge_process_records(raw, &[], false);
    assert_eq!(result.len(), 1);
    assert_eq!(result[0].locked_subitem_count, 5);
}

#[test]
fn merge_invariants_on_mixed_input() {
    let inputs = vec![
        raw(7, "a.exe", Some("C:/p/1.txt")),
        raw(3, "b.exe", None),
        raw(7, "a2.exe", Some("C:/p/2.txt")),
        raw(9, "c.exe", Some("C:/p/9.txt")),
        raw(3, "b2.exe", Some("C:/p/3.txt")),
        raw(7, "a3.exe", None),
    ];
    let registered: Vec<String> = vec!["C:/p/2.txt".into(), "C:/p/3.txt".into()];
    let total = inputs.len() as u32;
    for is_dir in [false, true] {
        let merged = merge_process_records(
            inputs.iter().map(|r| raw(r.pid, &r.name, r.matched_path.as_deref())).collect(),
            &registered,
            is_dir,
        );
        let pids: Vec<u32> = merged.iter().map(|r| r.pid).collect();
        assert_eq!(pids, vec![3, 7, 9]);
        let sum: u32 = merged.iter().map(|r| r.locked_subitem_count).sum();
        assert_eq!(sum, total);
        assert_eq!(merged[1].name, "a.exe");
        if is_dir {
            assert_eq!(merged[0].locked_subpath.as_deref(), Some("C:/p/3.txt"));
            assert_eq!(merged[1].locked_subpath.as_deref(), Some("C:/p/2.txt"));
            assert_eq!(merged[2].locked_subpath, None);
        } else {
            assert!(merged.iter().all(|r| r.locked_subpath.is_none()));
        }
    }
}

#[test]
fn merge_of_nothing_is_empty() {
    assert!(merge_process_records(Vec::new(), &[], true).is_empty());
}

#[test]
fn app_types_map_as_the_restart_manager_defines_them() {
    assert_eq!(map_app_type(0), AppType::Unknown);
    assert_eq!(map_app_type(1), AppType::Application);
    assert_eq!(map_app_type(2), AppType::Application);
    assert_eq!(map_app_type(3), AppType::Service);
    assert_eq!(map_app_type(4), AppType::Application);
    assert_eq!(map_app_type(5), AppType::Console);
    assert_eq!(map_app_type(1000), AppType::Critical);
    assert_eq!(map_app_type(6), AppType::Unknown);
}

#[test]
fn restart_manager_codes_map_to_errors() {
    assert!(matches!(rm_error_from_code(5), RmError::AccessDenied));
    assert!(matches!(rm_error_from_code(2), RmError::PathNotFound));
    match rm_error_from_code(87) {
        RmError::Win32 { code, desc } => {
            assert_eq!(code, 87);
            assert!(!desc.is_empty());
        }
        other => panic!("unexpected {other:?}"),
    }
}

#[test]
fn size_query_and_fetch_decisions() {
    assert!(matches!(after_size_query(0, 0), SizeStep::NoProcess));
    assert!(matches!(after_size_query(234, 3), SizeStep::Fetch(3)));
    assert!(matches!(after_size_query(0, 2), SizeStep::Fetch(2)));
    assert!(matches!(after_size_query(5, 2), SizeStep::Fail(RmError::AccessDenied)));
    assert!(matches!(after_fetch(0, 0), FetchStep::Done));
    assert!(matches!(after_fetch(234, 0), FetchStep::Retry));
    assert!(matches!(after_fetch(234, 1), FetchStep::Retry));
    match after_fetch(234, 2) {
        FetchStep::Fail(RmError::Other(msg)) => assert_eq!(msg, "RmGetList 持续返回 ERROR_MORE_DATA，重试耗尽"),
        _ => panic!("expected to give up"),
    }
    assert!(matches!(after_fetch(2, 0), FetchStep::Fail(RmError::PathNotFound)));
}

#[test]
fn start_times_and_names_of_the_answers() {
    assert_eq!(rm_start_time(0, 0), None);
    assert_eq!(rm_start_time(1, 0), Some(FileTime { low: 1, high: 0 }));
    assert_eq!(rm_start_time(0, 7), Some(FileTime { low: 0, high: 7 }));
    let units: Vec<u16> = "notepad.exe".encode_utf16().chain([0u16, 65, 66]).collect();
    assert_eq!(app_name_from_units(&units), "notepad.exe");
    let no_nul: Vec<u16> = "abc".encode_utf16().collect();
    assert_eq!(app_name_from_units(&no_nul), "abc");
    assert_eq!(app_name_from_units(&[0u16, 65]), "");
    let chinese: Vec<u16> = "记事本.exe".encode_utf16().chain([0u16]).collect();
    assert_eq!(app_name_from_units(&chinese), "记事本.exe");
}

#[test]
fn registration_batches_cover_every_path() {
    assert!(register_batches(0).is_empty());
    assert_eq!(register_batches(1), vec![(0, 1)]);
    assert_eq!(register_batches(1000), vec![(0, 1000)]);
    assert_eq!(register_batches(2500), vec![(0, 1000), (1000, 2000), (2000, 2500)]);
}

#[test]
fn folder_paths_come_first_then_sorted_children() {
    let paths = registered_with_children(
        "C:\\d".to_string(),
        vec!["C:\\d\\b.log".into(), "C:\\d\\subdir".into(), "C:\\d\\a.txt".into()],
    );
    assert_eq!(paths, vec!["C:\\d", "C:\\d\\a.txt", "C:\\d\\b.log", "C:\\d\\subdir"]);
    let alone = registered_with_children("C:\\only.txt".to_string(), Vec::new());
    assert_eq!(alone, vec!["C:\\only.txt"]);
    let dup = registered_with_children("r".to_string(), vec!["z".into(), "a".into(), "z".into(), "ab".into()]);
    assert_eq!(dup, vec!["r", "a", "ab", "z", "z"]);
}

#[test]
fn scan_failures_keep_their_kind() {
    assert!(matches!(scan_failure_from(RmError::AccessDenied), ScanFailure::AccessDenied));
    assert!(matches!(scan_failure_from(RmError::PathNotFound), ScanFailure::PathNotFound));
    match scan_failure_from(RmError::Other("x".into())) {
        ScanFailure::Other(s) => assert_eq!(s, "Restart Manager 错误: x"),
        _ => panic!("expected Other"),
    }
}

#[test]
fn records_from_scan_assemble_and_merge() {
    let infos = vec![
        RmProcessInfo { pid: 300, start_time: Some(FileTime { low: 5, high: 1 }), app_name: "svchost.exe".into(), app_type: 3 },
        RmProcessInfo { pid: 120, start_time: None, app_name: "notepad.exe".into(), app_type: 1 },
        RmProcessInfo { pid: 120, start_time: None, app_name: "notepad.exe".into(), app_type: 1 },
    ];
    let snaps = vec![
        None,
        Some(ProcessSnapshot {
            image_path: Some("C:\\Windows\\notepad.exe".into()),
            user_sid: Some("S-1-5-21-1".into()),
            user_account: Some("PC\\me".into()),
        }),
        Some(ProcessSnapshot {
            image_path: Some("C:\\Windows\\notepad.exe".into()),
            user_sid: Some("S-1-5-21-1".into()),
            user_account: Some("PC\\me".into()),
        }),
    ];
    let paths = vec!["C:\\d".to_string(), "C:\\d\\a.txt".to_string()];
    let out = records_from_scan(infos, snaps, vec![0, 1, 1], &paths, true, "C:\\Windows");
    assert_eq!(out.len(), 2);
    assert_eq!(out[0].pid, 120);
    assert_eq!(out[0].locked_subitem_count, 2);
    assert_eq!(out[0].locked_subpath.as_deref(), Some("C:\\d\\a.txt"));
    assert_eq!(out[0].app_type, AppType::Application);
    assert!(!out[0].is_system);
    assert_eq!(out[0].user_account.as_deref(), Some("PC\\me"));
    assert_eq!(out[1].pid, 300);
    assert_eq!(out[1].start_time, Some((1i64 << 32) | 5));
    assert_eq!(out[1].app_type, AppType::Service);
    assert!(out[1].is_system);
    assert_eq!(out[1].image_path, None);
    assert_eq!(out[1].locked_subpath.as_deref(), Some("C:\\d"));
}

#[test]
fn a_file_scan_records_no_sub_path() {
    let infos = vec![RmProcessInfo { pid: 7, start_time: None, app_name: "a.exe".into(), app_type: 1 }];
    let paths = vec!["C:\\f.txt".to_string()];
    let out = records_from_scan(infos, vec![None], vec![0], &paths, false, "C:\\Windows");
    assert_eq!(out.len(), 1);
    assert_eq!(out[0].locked_subpath, None);
    assert_eq!(out[0].locked_subitem_count, 1);
}

#[test]
fn registered_paths_of_a_file_and_of_a_folder() {
    let file = registered_paths(&"C:\\f.txt".to_string(), TargetKind::File, vec!["ignored".into()]);
    assert_eq!(file, vec!["C:\\f.txt".to_string()]);
    let dir = registered_paths(&"C:\\d".to_string(), TargetKind::Directory, vec!["C:\\d\\b".into(), "C:\\d\\a".into()]);
    assert_eq!(dir, vec!["C:\\d".to_string(), "C:\\d\\a".to_string(), "C:\\d\\b".to_string()]);
}

struct PerPathRm;

impl RestartManagerApi for PerPathRm {
    fn scan(&self, paths: &[String]) -> Result<Vec<RmProcessInfo>, RmError> {
        assert_eq!(paths.len(), 1);
        match paths[0].as_str() {
            "C:\\d" => Ok(vec![RmProcessInfo { pid: 10, start_time: None, app_name: "x.exe".into(), app_type: 1 }]),
            "C:\\d\\a" => Ok(vec![
                RmProcessInfo { pid: 20, start_time: None, app_name: "y.exe".into(), app_type: 1 },
                RmProcessInfo { pid: 10, start_time: None, app_name: "x.exe".into(), app_type: 1 },
            ]),
            "C:\\d\\gone" => Err(RmError::PathNotFound),
            _ => Ok(vec![]),
        }
    }
}

#[test]
fn each_path_is_scanned_on_its_own_and_records_its_sub_path() {
    let paths = vec!["C:\\d".to_string(), "C:\\d\\a".to_string(), "C:\\d\\b".to_string()];
    let (infos, index) = scan_each_path(&mut RecordedRm::new(&PerPathRm), &paths).ok().unwrap();
    assert_eq!(index, vec![0, 1, 1]);
    assert_eq!(infos.iter().map(|i| i.pid).collect::<Vec<_>>(), vec![10, 20, 10]);
    let n = infos.len();
    let out = records_from_scan(infos, vec![None; n], index, &paths, true, "C:\\Windows");
    assert_eq!(out.len(), 2);
    assert_eq!(out[0].pid, 10);
    assert_eq!(out[0].locked_subitem_count, 2);
    assert_eq!(out[0].locked_subpath.as_deref(), Some("C:\\d"));
    assert_eq!(out[1].pid, 20);
    assert_eq!(out[1].locked_subitem_count, 1);
    assert_eq!(out[1].locked_subpath.as_deref(), Some("C:\\d\\a"));
}

#[test]
fn a_failing_path_fails_the_scan() {
    let paths = vec!["C:\\d".to_string(), "C:\\d\\gone".to_string()];
    assert!(matches!(scan_each_path(&mut RecordedRm::new(&PerPathRm), &paths), Err(RmError::PathNotFound)));
}

#[test]
fn unpaired_surrogates_decode_to_the_replacement_character() {
    let units = [0x0041u16, 0xD800, 0x0042, 0];
    assert_eq!(app_name_from_units(&units), "A\u{FFFD}B");
}

/// Runs a scan of `nb` batches through `rm_step`, answering each action from
/// `answers` in turn; gives the actions taken.
fn run_scan(nb: usize, mut answers: Vec<RmEvent>) -> Vec<RmAction> {
    let mut actions = Vec::new();
    let mut stage = RmStage::Idle;
    let mut event = RmEvent::Begin;
    loop {
        let (next, action) = rm_step(stage, event, nb);
        stage = next;
        let finished = matches!(action, RmAction::Finish(_));
        actions.push(action);
        if finished {
            return actions;
        }
        event = if matches!(actions.last(), Some(RmAction::EndSession)) { RmEvent::Ended } else { answers.remove(0) };
    }
}

#[test]
fn a_scan_registers_each_batch_then_retries_a_growing_list() {
    let actions = run_scan(
        2,
        vec![
            RmEvent::Started(0),
            RmEvent::Registered(0),
            RmEvent::Registered(0),
            RmEvent::Sized(234, 2),
            RmEvent::Fetched(234),
            RmEvent::Sized(234, 3),
            RmEvent::Fetched(0),
        ],
    );
    assert!(matches!(actions[0], RmAction::StartSession));
    assert!(matches!(actions[1], RmAction::Register(0)));
    assert!(matches!(actions[2], RmAction::Register(1)));
    assert!(matches!(actions[3], RmAction::QuerySize));
    assert!(matches!(actions[4], RmAction::Fetch(2)));
    assert!(matches!(actions[5], RmAction::QuerySize));
    assert!(matches!(actions[6], RmAction::Fetch(3)));
    assert!(matches!(actions[7], RmAction::EndSession));
    assert!(matches!(actions[8], RmAction::Finish(RmOutcome::Listed)));
    assert_eq!(actions.len(), 9);
}

#[test]
fn a_failed_registration_still_ends_the_session() {
    let actions = run_scan(3, vec![RmEvent::Started(0), RmEvent::Registered(0), RmEvent::Registered(5)]);
    assert!(matches!(actions[3], RmAction::EndSession));
    assert!(matches!(actions[4], RmAction::Finish(RmOutcome::Failed(RmError::AccessDenied))));
    assert_eq!(actions.len(), 5);
}

#[test]
fn a_scan_without_paths_or_session_asks_nothing_to_end() {
    let actions = run_scan(0, vec![]);
    assert!(matches!(actions[0], RmAction::Finish(RmOutcome::Empty)));
    let actions = run_scan(1, vec![RmEvent::Started(2)]);
    assert!(matches!(actions[1], RmAction::Finish(RmOutcome::Failed(RmError::PathNotFound))));
    assert_eq!(actions.len(), 2);
}

#[test]
fn a_list_that_keeps_growing_gives_up_after_three_attempts() {
    let actions = run_scan(
        1,
        vec![
            RmEvent::Started(0),
            RmEvent::Registered(0),
            RmEvent::Sized(234, 1),
            RmEvent::Fetched(234),
            RmEvent::Sized(234, 1),
            RmEvent::Fetched(234),
            RmEvent::Sized(234, 1),
            RmEvent::Fetched(234),
        ],
    );
    let n = actions.len();
    assert!(matches!(actions[n - 2], RmAction::EndSession));
    match &actions[n - 1] {
        RmAction::Finish(RmOutcome::Failed(RmError::Other(msg))) => {
            assert_eq!(msg, "RmGetList 持续返回 ERROR_MORE_DATA，重试耗尽")
        }
        other => panic!("unexpected {other:?}"),
    }
    assert_eq!(actions.iter().filter(|a| matches!(a, RmAction::Fetch(_))).count(), 3);
}

#[test]
fn an_empty_list_ends_the_session_with_no_process() {
    let actions = run_scan(1, vec![RmEvent::Started(0), RmEvent::Registered(0), RmEvent::Sized(0, 0)]);
    assert!(matches!(actions[3], RmAction::EndSession));
    assert!(matches!(actions[4], RmAction::Finish(RmOutcome::Empty)));
}

#[test]
fn answers_are_put_together_with_the_position_of_their_path() {
    let info = |pid: u32| RmProcessInfo { pid, start_time: None, app_name: "p.exe".into(), app_type: 1 };
    let (infos, index) = collect_answers(vec![vec![info(5), info(6)], vec![], vec![info(7)]]);
    assert_eq!(infos.iter().map(|i| i.pid).collect::<Vec<_>>(), vec![5, 6, 7]);
    assert_eq!(index, vec![0, 0, 2]);
    let (infos, index) = collect_answers(vec![]);
    assert!(infos.is_empty() && index.is_empty());
}

#[test]
fn no_path_asks_nothing() {
    let (infos, index) = scan_each_path(&mut RecordedRm::new(&PerPathRm), &[]).ok().unwrap();
    assert!(infos.is_empty() && index.is_empty());
}
