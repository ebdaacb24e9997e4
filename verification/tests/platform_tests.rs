use file_lock_inspector::elevation::{build_supported, parse_build_number, restart_outcome};
use file_lock_inspector::error::AppError;
use file_lock_inspector::logging::{log_file_action, LogFileAction};
use file_lock_inspector::process_info::{account_name, filetime_from_ticks, filetime_value, FileTime};

fn wide(s: &str) -> Vec<u16> {
    s.encode_utf16().chain([0u16, 57, 57]).collect()
}

#[test]
fn build_numbers_parse_as_u32() {
    assert_eq!(parse_build_number(&wide("19041")), Some(19041));
    assert_eq!(parse_build_number(&wide("+17763")), Some(17763));
    assert_eq!(parse_build_number(&wide("")), None);
    assert_eq!(parse_build_number(&wide("+")), None);
    assert_eq!(parse_build_number(&wide("12a")), None);
    assert_eq!(parse_build_number(&wide("-1")), None);
    assert_eq!(parse_build_number(&wide("4294967295")), Some(4294967295));
    assert_eq!(parse_build_number(&wide("4294967296")), None);
    assert_eq!(parse_build_number(&wide("0007")), Some(7));
    let no_nul: Vec<u16> = "22631".encode_utf16().collect();
    assert_eq!(parse_build_number(&no_nul), Some(22631));
    for s in ["19041", "+5", "", "+", "1x", "99999999999", "00"] {
        let expected = s.parse::<u32>().ok();
        assert_eq!(parse_build_number(&wide(s)), expected, "for {:?}", s);
    }
}

#[test]
fn supported_builds() {
    assert!(build_supported(Some(17763)));
    assert!(build_supported(Some(22631)));
    assert!(!build_supported(Some(17762)));
    assert!(build_supported(None));
}

#[test]
fn restart_outcomes() {
    assert!(matches!(restart_outcome(Ok(())), Err(AppError::SelfExit)));
    assert!(restart_outcome(Err(1223)).is_ok());
    assert!(matches!(restart_outcome(Err(2)), Err(AppError::Win32(2, _))));
}

#[test]
fn log_file_actions() {
    assert_eq!(log_file_action(Some(true), 0), LogFileAction::Delete);
    assert_eq!(log_file_action(Some(true), 20 * 1024 * 1024), LogFileAction::Delete);
    assert_eq!(log_file_action(Some(false), 10 * 1024 * 1024), LogFileAction::Keep);
    assert_eq!(log_file_action(Some(false), 10 * 1024 * 1024 + 1), LogFileAction::Truncate);
    assert_eq!(log_file_action(None, 11 * 1024 * 1024), LogFileAction::Truncate);
    assert_eq!(log_file_action(None, 5), LogFileAction::Keep);
}

#[test]
fn filetime_round_trips() {
    let ft = FileTime { low: 42, high: 7 };
    let v = filetime_value(ft);
    assert_eq!(v, (7i64 << 32) | 42);
    assert_eq!(filetime_from_ticks(v), ft);
    for t in [0i64, 1, 133_500_000_000_000_000, -1, i64::MAX, i64::MIN] {
        assert_eq!(filetime_value(filetime_from_ticks(t)), t);
    }
    let high = FileTime { low: 1, high: 0x8000_0000 };
    assert_eq!(filetime_from_ticks(filetime_value(high)), high);
}

#[test]
fn account_names() {
    assert_eq!(account_name("NT AUTHORITY", "SYSTEM"), "NT AUTHORITY\\SYSTEM");
    assert_eq!(account_name("", "alice"), "alice");
}
