use file_lock_inspector::sys_classifier::{is_system_process, PartialRecord};

const WINDIR: &str = "C:\\Windows";

fn make_record(pid: u32, name: &str, image_path: Option<&str>, user_sid: Option<&str>) -> PartialRecord {
    PartialRecord {
        pid,
        name: name.to_string(),
        image_path: image_path.map(str::to_string),
        user_sid: user_sid.map(str::to_string),
    }
}

#[test]
fn layer1_pid_zero_is_system() {
    let rec = make_record(0, "Idle", Some("C:\\Windows\\System32\\ntoskrnl.exe"), Some("S-1-5-32-544"));
    assert!(is_system_process(&rec, WINDIR));
}

#[test]
fn layer1_pid_four_is_system() {
    let rec = make_record(4, "System", Some("C:\\Windows\\System32\\ntoskrnl.exe"), Some("S-1-5-32-544"));
    assert!(is_system_process(&rec, WINDIR));
}

#[test]
fn layer1_blacklisted_name_is_system() {
    let rec = make_record(1234, "svchost.exe", Some("C:\\Users\\user\\svchost.exe"), Some("S-1-5-21-999"));
    assert!(is_system_process(&rec, WINDIR));
}

#[test]
fn layer1_blacklisted_name_case_insensitive() {
    let rec = make_record(1234, "LSASS.EXE", Some("C:\\Users\\user\\lsass.exe"), Some("S-1-5-21-999"));
    assert!(is_system_process(&rec, WINDIR));
}

#[test]
fn layer1_registry_pseudo_process_is_system() {
    let rec = make_record(88, "Registry", None, None);
    assert!(is_system_process(&rec, WINDIR));
}

#[test]
fn layer2_system32_with_system_sid_is_system() {
    let path = format!("{}\\System32\\somesys.exe", WINDIR);
    let rec = make_record(9999, "somesys.exe", Some(&path), Some("S-1-5-18"));
    assert!(is_system_process(&rec, WINDIR));
}

#[test]
fn layer2_syswow64_with_local_service_sid_is_system() {
    let path = format!("{}\\SysWOW64\\wow64.exe", WINDIR);
    let rec = make_record(9999, "wow64.exe", Some(&path), Some("S-1-5-19"));
    assert!(is_system_process(&rec, WINDIR));
}

#[test]
fn layer2_system32_path_but_user_sid_not_system() {
    let path = format!("{}\\System32\\notepad.exe", WINDIR);
    let rec = make_record(9999, "notepad.exe", Some(&path), Some("S-1-5-21-1234"));
    assert!(!is_system_process(&rec, WINDIR));
}

#[test]
fn layer2_system_sid_but_non_system_path_not_system() {
    let rec = make_record(9999, "mytool.exe", Some("C:\\Users\\user\\mytool.exe"), Some("S-1-5-18"));
    assert!(!is_system_process(&rec, WINDIR));
}

#[test]
fn layer3_both_none_is_system() {
    let rec = make_record(5000, "unknown.exe", None, None);
    assert!(is_system_process(&rec, WINDIR));
}

#[test]
fn layer3_only_image_path_none_not_system_if_has_user_sid() {
    let rec = make_record(5000, "unknown.exe", None, Some("S-1-5-21-1234"));
    assert!(!is_system_process(&rec, WINDIR));
}

#[test]
fn layer3_only_user_sid_none_not_system_if_has_image_path() {
    let rec = make_record(5000, "unknown.exe", Some("C:\\Program Files\\app.exe"), None);
    assert!(!is_system_process(&rec, WINDIR));
}

#[test]
fn normal_user_process_not_system() {
    let rec = make_record(1234, "notepad.exe", Some("C:\\Windows\\notepad.exe"), Some("S-1-5-21-1234-5678"));
    assert!(!is_system_process(&rec, WINDIR));
}

#[test]
fn browser_process_not_system() {
    let rec = make_record(
        8888,
        "chrome.exe",
        Some("C:\\Program Files\\Google\\Chrome\\Application\\chrome.exe"),
        Some("S-1-5-21-987654321"),
    );
    assert!(!is_system_process(&rec, WINDIR));
}

#[test]
fn pid_zero_and_four_are_always_system() {
    for name in ["abc.exe", "zzz.exe", "x.exe"] {
        for pid in [0u32, 4] {
            let rec = make_record(pid, name, None, None);
            assert!(is_system_process(&rec, WINDIR));
            let rec = make_record(pid, name, Some("C:\\a.exe"), Some("S-1-5-21-1"));
            assert!(is_system_process(&rec, WINDIR));
        }
    }
}

#[test]
fn blacklisted_names_are_system_for_any_pid() {
    for pid in [100u32, 4321, 59999] {
        for name in ["svchost.exe", "csrss.exe", "lsass.exe", "wininit.exe"] {
            let rec = make_record(pid, name, Some("C:\\foo\\bar.exe"), Some("S-1-5-21-123"));
            assert!(is_system_process(&rec, WINDIR), "expected system for pid={} name={}", pid, name);
        }
    }
}

#[test]
fn system_directory_is_matched_by_whole_components() {
    let rec = make_record(9999, "x.exe", Some("C:\\Windows\\System32x\\x.exe"), Some("S-1-5-18"));
    assert!(!is_system_process(&rec, WINDIR));
    let rec = make_record(9999, "x.exe", Some("C:\\Windows\\System32/x.exe"), Some("S-1-5-20"));
    assert!(is_system_process(&rec, WINDIR));
    let rec = make_record(9999, "x.exe", Some("D:\\Win\\SysWOW64\\x.exe"), Some("S-1-5-18"));
    assert!(is_system_process(&rec, "D:\\Win\\"));
    let rec = make_record(9999, "x.exe", Some("C:\\Windows\\System32\\x.exe"), Some("S-1-5-180"));
    assert!(!is_system_process(&rec, WINDIR));
}

#[test]
fn repeated_and_mixed_separators_name_the_same_directory() {
    let rec = make_record(9999, "x.exe", Some("C:\\Windows\\\\System32\\x.exe"), Some("S-1-5-18"));
    assert!(is_system_process(&rec, WINDIR));
    let rec = make_record(9999, "x.exe", Some("C:/Windows/System32/x.exe"), Some("S-1-5-18"));
    assert!(is_system_process(&rec, WINDIR));
    let rec = make_record(9999, "x.exe", Some("C:\\Windows\\.\\SysWOW64\\x.exe"), Some("S-1-5-19"));
    assert!(is_system_process(&rec, WINDIR));
    let rec = make_record(9999, "x.exe", Some("\\Windows\\System32\\x.exe"), Some("S-1-5-18"));
    assert!(!is_system_process(&rec, "Windows"));
}
