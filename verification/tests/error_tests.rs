use file_lock_inspector::error::{format_message_w, win32_code, AppError, RmError, ScanFailure, TerminateError};

#[test]
fn app_error_win32_display_contains_hex_code() {
    let err = AppError::Win32(5, "Access is denied.".into());
    let s = err.to_string();
    assert!(
        s.contains("0x00000005"),
        "期望包含大写零填充的错误码，实际: {s}"
    );
}

#[test]
fn terminate_error_win32_display_contains_hex_code() {
    let err = TerminateError::Win32 {
        code: 0xB7,
        desc: "Cannot create a file when that file already exists.".into(),
    };
    let s = err.to_string();
    assert!(
        s.contains("0x000000B7"),
        "期望包含大写零填充的错误码，实际: {s}"
    );
}

#[test]
fn app_error_from_win32_constructs_with_localized_desc() {
    let err = AppError::from_win32(5);
    let s = err.to_string();
    assert!(s.contains("0x00000005"));
    assert!(
        s.len() > "Win32 错误 0x00000005: ".len(),
        "期望含本地化描述，实际: {s}"
    );
}

#[test]
fn rm_error_propagates_into_app_error_via_from() {
    let rm = RmError::AccessDenied;
    let app: AppError = rm.into();
    match app {
        AppError::RestartManager(RmError::AccessDenied) => {}
        other => panic!("期望 RestartManager(AccessDenied)，实际: {other:?}"),
    }
}

#[test]
fn format_message_w_unknown_code_falls_back() {
    let s = format_message_w(0xDEAD_BEEF);
    assert!(!s.is_empty(), "format_message_w 必须返回非空字符串");
}

#[test]
fn error_texts_are_exact() {
    assert_eq!(AppError::AccessDenied.to_string(), "权限不足，需要管理员");
    assert_eq!(AppError::UnsupportedOs.to_string(), "当前 Windows 版本不受支持");
    assert_eq!(AppError::SelfExit.to_string(), "自重启请求");
    assert_eq!(AppError::PathNotFound("C:\\x".into()).to_string(), "路径不存在: C:\\x");
    assert_eq!(AppError::Internal("boom".into()).to_string(), "内部错误: boom");
    assert_eq!(
        AppError::Win32(0xB7, "exists".into()).to_string(),
        "Win32 错误 0x000000B7: exists"
    );
    assert_eq!(
        AppError::RestartManager(RmError::PathNotFound).to_string(),
        "Restart Manager 调用失败: 路径不存在"
    );
    assert_eq!(
        RmError::Win32 { code: 234, desc: "more".into() }.to_string(),
        "Windows 错误 0x000000EA: more"
    );
    assert_eq!(RmError::Other("x".into()).to_string(), "Restart Manager 错误: x");
    assert_eq!(ScanFailure::AccessDenied.to_string(), "权限不足，需要管理员");
    assert_eq!(ScanFailure::PathNotFound.to_string(), "路径不存在");
    assert_eq!(ScanFailure::Other("y".into()).to_string(), "扫描失败: y");
    assert_eq!(TerminateError::AccessDenied.to_string(), "权限不足，请以管理员身份重启程序");
    assert_eq!(TerminateError::AlreadyExited.to_string(), "进程已不存在");
    assert_eq!(TerminateError::StalePid.to_string(), "PID 已复用，已忽略本次操作");
    assert_eq!(TerminateError::SystemProtected.to_string(), "系统进程禁止结束");
    assert_eq!(TerminateError::Timeout.to_string(), "操作超时，请重试");
}

#[test]
fn terminate_error_from_win32_keeps_code() {
    match TerminateError::from_win32(0x20) {
        TerminateError::Win32 { code, desc } => {
            assert_eq!(code, 0x20);
            assert!(!desc.is_empty());
        }
        other => panic!("unexpected {other:?}"),
    }
}

#[test]
fn hresults_of_win32_errors_give_back_the_code() {
    assert_eq!(win32_code(0x8007_0005), 5);
    assert_eq!(win32_code(0x8007_04C7), 1223);
    assert_eq!(win32_code(0x8007_0057), 87);
    assert_eq!(win32_code(5), 5);
    assert_eq!(win32_code(0x8000_4005), 0x8000_4005);
}
