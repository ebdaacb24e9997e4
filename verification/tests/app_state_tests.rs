use file_lock_inspector::state::app_state::{AppState, PrivilegeLevel, UiToast};

#[test]
fn new_default_has_expected_defaults() {
    let state = AppState::new_default();
    assert_eq!(state.next_id, 1);
    assert_eq!(state.polling_interval_ms, 2000);
    assert_eq!(state.privilege, PrivilegeLevel::Standard);
    assert!(state.windows_supported);
    assert!(state.last_error.is_none());
    assert!(state.targets.is_empty());
}

#[test]
fn next_target_id_increments_monotonically() {
    let mut state = AppState::new_default();
    let id1 = state.next_target_id();
    let id2 = state.next_target_id();
    let id3 = state.next_target_id();
    assert_eq!(id1.0, 1);
    assert_eq!(id2.0, 2);
    assert_eq!(id3.0, 3);
}

#[test]
fn ui_toast_info_not_error() {
    let t = UiToast::info("hello");
    assert_eq!(t.message, "hello");
    assert!(!t.is_error);
}

#[test]
fn ui_toast_error_is_error() {
    let t = UiToast::error("bad thing");
    assert_eq!(t.message, "bad thing");
    assert!(t.is_error);
}
