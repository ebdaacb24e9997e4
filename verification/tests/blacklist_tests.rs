use file_lock_inspector::sys_classifier::blacklist::{is_blacklisted, BLACKLIST};

#[test]
fn blacklist_has_exactly_ten_entries() {
    assert_eq!(BLACKLIST.len(), 10);
}

#[test]
fn svchost_exact_case_is_blacklisted() {
    assert!(is_blacklisted("svchost.exe"));
}

#[test]
fn svchost_upper_case_is_blacklisted() {
    assert!(is_blacklisted("SVCHOST.EXE"));
}

#[test]
fn notepad_is_not_blacklisted() {
    assert!(!is_blacklisted("notepad.exe"));
}

#[test]
fn registry_pseudo_process_is_blacklisted() {
    assert!(is_blacklisted("Registry"));
    assert!(is_blacklisted("registry"));
    assert!(is_blacklisted("MemCompression"));
}

#[test]
fn empty_name_is_not_blacklisted() {
    assert!(!is_blacklisted(""));
}

#[test]
fn every_blacklist_entry_matches_in_any_ascii_case() {
    for name in BLACKLIST.iter() {
        assert!(is_blacklisted(name));
        assert!(is_blacklisted(&name.to_ascii_uppercase()));
        assert!(is_blacklisted(&name.to_ascii_lowercase()));
    }
    assert!(!is_blacklisted("svchost.exe "));
    assert!(!is_blacklisted("svchost"));
    assert!(!is_blacklisted("lsass.exe.bak"));
}
