//! The error types of the inspector and the texts shown for them.
//!
//! - `AppError`: failures at application level, including the marker that
//!   asks the process to exit after an elevated copy was started.
//! - `TerminateError`: failures of a forced termination.
//! - `ScanFailure`: the form in which a failed scan reaches the interface.
//! - `RmError`: failures reported by the Restart Manager.
//!
//! Error codes are shown as `0x` followed by eight upper-case hexadecimal
//! digits, so that they can be copied into a search engine.

use vstd::prelude::*;
use crate::text::{hex_fixed, hex_string, trim_end_blanks, trim_trailing_blanks};

verus! {

/// The error type of the `windows` crate (`windows_core::Error`), carried
/// through `TerminateError::Other` without looking inside.
#[verifier::external_type_specification]
#[verifier::external_body]
pub struct ExWindowsError(windows_core::Error);

/// Failures at application level.
#[derive(Debug)]
pub enum AppError {
    /// A Win32 call failed: the code and its description.
    Win32(u32, String),
    /// A Restart Manager call failed.
    RestartManager(RmError),
    /// The path does not exist.
    PathNotFound(String),
    /// Windows refused the operation; administrator rights are needed.
    AccessDenied,
    /// The Windows version is older than 10.0.17763.
    UnsupportedOs,
    /// Any other internal failure.
    Internal(String),
    /// An elevated copy was started; the current process should exit.
    SelfExit,
}

/// Failures of a forced termination.
#[derive(Debug)]
pub enum TerminateError {
    /// Opening or terminating the process was refused.
    AccessDenied,
    /// The process has already exited.
    AlreadyExited,
    /// The process id now belongs to another process (its start time differs
    /// from the one recorded when it was found).
    StalePid,
    /// System processes (pid 0 and 4) are never terminated.
    SystemProtected,
    /// No answer within the time limit.
    Timeout,
    /// Any other Win32 failure: the code and its description.
    Win32 { code: u32, desc: String },
    /// An error passed on from the `windows` crate.
    Other(windows_core::Error),
}

/// The form in which a failed scan reaches the interface.
#[derive(Debug, Clone)]
pub enum ScanFailure {
    AccessDenied,
    PathNotFound,
    Other(String),
}

/// Failures reported by the Restart Manager.
#[derive(Debug, Clone)]
pub enum RmError {
    AccessDenied,
    PathNotFound,
    Win32 { code: u32, desc: String },
    Other(String),
}

/// `0x` followed by the eight upper-case hexadecimal digits of `code`.
pub open spec fn hex_code(code: u32) -> Seq<char> {
    "0x"@ + hex_fixed(code as nat, 8)
}

/// The text used for a code that the system cannot describe.
pub open spec fn fallback_message(code: u32) -> Seq<char> {
    "Win32 error "@ + hex_code(code)
}

/// The description of `code` made from the system's text `raw`: `raw`
/// without trailing carriage returns, line feeds and spaces, or the fallback
/// text when nothing is left.
pub open spec fn message_or_fallback(raw: Seq<char>, code: u32) -> Seq<char> {
    if trim_trailing_blanks(raw).len() == 0 {
        fallback_message(code)
    } else {
        trim_trailing_blanks(raw)
    }
}

/// The system's text for the message `code`, as the `windows` crate's
/// `HRESULT::message` gives it for the value `code` (on Windows it asks
/// `FormatMessageW` for the system's message in the default language and
/// returns an empty string when there is none).
///
/// Nothing is stated of the text: it depends on the installed system and its
/// language.
#[verifier::external_body]
fn system_message(code: u32) -> String {
    windows_core::HRESULT(code as i32).message()
}

/// `0x` followed by the eight upper-case hexadecimal digits of `code`.
pub fn hex_code_string(code: u32) -> (s: String)
    ensures
        s@ == hex_code(code),
{
    let mut s = String::from_str("0x");
    let digits = hex_string(code as u64, 8);
    s.append(digits.as_str());
    proof {
        reveal_strlit("0x");
    }
    s
}

/// The description of `code` made from the system's text `raw`.
pub fn describe_system_message(raw: String, code: u32) -> (s: String)
    ensures
        s@ == message_or_fallback(raw@, code),
        s@.len() > 0,
{
    let trimmed = trim_end_blanks(raw);
    if trimmed.unicode_len() == 0 {
        let mut s = String::from_str("Win32 error ");
        let hex = hex_code_string(code);
        s.append(hex.as_str());
        proof {
            reveal_strlit("Win32 error ");
        }
        s
    } else {
        trimmed
    }
}

/// The system's description of `code`, never empty.
pub fn format_message_w(code: u32) -> (s: String)
    ensures
        s@.len() > 0,
        exists|raw: Seq<char>| s@ == message_or_fallback(raw, code),
{
    let raw = system_message(code);
    let ghost raw_text = raw@;
    let s = describe_system_message(raw, code);
    assert(s@ == message_or_fallback(raw_text, code));
    s
}

/// The text of a `RmError`.
pub open spec fn rm_error_text(e: RmError) -> Seq<char> {
    match e {
        RmError::AccessDenied => "权限不足，需要管理员"@,
        RmError::PathNotFound => "路径不存在"@,
        RmError::Win32 { code, desc } => "Windows 错误 "@ + hex_code(code) + ": "@ + desc@,
        RmError::Other(s) => "Restart Manager 错误: "@ + s@,
    }
}

/// The text of a `ScanFailure`.
pub open spec fn scan_failure_text(e: ScanFailure) -> Seq<char> {
    match e {
        ScanFailure::AccessDenied => "权限不足，需要管理员"@,
        ScanFailure::PathNotFound => "路径不存在"@,
        ScanFailure::Other(s) => "扫描失败: "@ + s@,
    }
}

/// The text of an `AppError`.
pub open spec fn app_error_text(e: AppError) -> Seq<char> {
    match e {
        AppError::Win32(code, desc) => "Win32 错误 "@ + hex_code(code) + ": "@ + desc@,
        AppError::RestartManager(rm) => "Restart Manager 调用失败: "@ + rm_error_text(rm),
        AppError::PathNotFound(p) => "路径不存在: "@ + p@,
        AppError::AccessDenied => "权限不足，需要管理员"@,
        AppError::UnsupportedOs => "当前 Windows 版本不受支持"@,
        AppError::Internal(s) => "内部错误: "@ + s@,
        AppError::SelfExit => "自重启请求"@,
    }
}

/// The concatenation of `a`, `b`, `c` and `d` as a new `String`.
fn join4(a: &str, b: &str, c: &str, d: &str) -> (s: String)
    ensures
        s@ == a@ + b@ + c@ + d@,
{
    let mut s = String::from_str(a);
    s.append(b);
    s.append(c);
    s.append(d);
    s
}

/// The concatenation of `a` and `b` as a new `String`.
fn join2(a: &str, b: &str) -> (s: String)
    ensures
        s@ == a@ + b@,
{
    let mut s = String::from_str(a);
    s.append(b);
    s
}

impl RmError {
    /// The text shown for the error.
    pub fn to_string(&self) -> (s: String)
        ensures
            s@ == rm_error_text(*self),
    {
        match self {
            RmError::AccessDenied => String::from_str("权限不足，需要管理员"),
            RmError::PathNotFound => String::from_str("路径不存在"),
            RmError::Win32 { code, desc } => {
                let hex = hex_code_string(*code);
                join4("Windows 错误 ", hex.as_str(), ": ", desc.as_str())
            },
            RmError::Other(s) => join2("Restart Manager 错误: ", s.as_str()),
        }
    }
}

impl ScanFailure {
    /// The text shown for the failure.
    pub fn to_string(&self) -> (s: String)
        ensures
            s@ == scan_failure_text(*self),
    {
        match self {
            ScanFailure::AccessDenied => String::from_str("权限不足，需要管理员"),
            ScanFailure::PathNotFound => String::from_str("路径不存在"),
            ScanFailure::Other(s) => join2("扫描失败: ", s.as_str()),
        }
    }
}

impl AppError {
    /// `AppError::Win32` for `code`, with the system's description of it.
    pub fn from_win32(code: u32) -> (e: AppError)
        ensures
            e matches AppError::Win32(c, desc) && c == code && desc@.len() > 0 && exists|
                raw: Seq<char>,
            | desc@ == message_or_fallback(raw, code),
    {
        AppError::Win32(code, format_message_w(code))
    }

    /// The text shown for the error.
    pub fn to_string(&self) -> (s: String)
        ensures
            s@ == app_error_text(*self),
    {
        match self {
            AppError::Win32(code, desc) => {
                let hex = hex_code_string(*code);
                join4("Win32 错误 ", hex.as_str(), ": ", desc.as_str())
            },
            AppError::RestartManager(rm) => {
                let inner = rm.to_string();
                join2("Restart Manager 调用失败: ", inner.as_str())
            },
            AppError::PathNotFound(p) => join2("路径不存在: ", p.as_str()),
            AppError::AccessDenied => String::from_str("权限不足，需要管理员"),
            AppError::UnsupportedOs => String::from_str("当前 Windows 版本不受支持"),
            AppError::Internal(s) => join2("内部错误: ", s.as_str()),
            AppError::SelfExit => String::from_str("自重启请求"),
        }
    }
}

impl From<RmError> for AppError {
    fn from(e: RmError) -> (r: AppError) {
        AppError::RestartManager(e)
    }
}

impl vstd::std_specs::convert::FromSpecImpl<RmError> for AppError {
    open spec fn obeys_from_spec() -> bool {
        true
    }

    open spec fn from_spec(e: RmError) -> AppError {
        AppError::RestartManager(e)
    }
}

/// The text of a `windows_core::Error`, as its `Display` implementation
/// writes it (the system's description followed by the code).
///
/// Nothing is stated of the text: it comes from the installed system.
#[verifier::external_body]
fn windows_error_text(e: &windows_core::Error) -> String {
    e.to_string()
}

/// The text of a `TerminateError` other than `Other`.
pub open spec fn terminate_error_text(e: TerminateError) -> Seq<char> {
    match e {
        TerminateError::AccessDenied => "权限不足，请以管理员身份重启程序"@,
        TerminateError::AlreadyExited => "进程已不存在"@,
        TerminateError::StalePid => "PID 已复用，已忽略本次操作"@,
        TerminateError::SystemProtected => "系统进程禁止结束"@,
        TerminateError::Timeout => "操作超时，请重试"@,
        TerminateError::Win32 { code, desc } => "Windows 错误 "@ + hex_code(code) + ": "@ + desc@,
        TerminateError::Other(_) => Seq::empty(),
    }
}

impl TerminateError {
    /// `TerminateError::Win32` for `code`, with the system's description of it.
    pub fn from_win32(code: u32) -> (e: TerminateError)
        ensures
            e matches TerminateError::Win32 { code: c, desc } && c == code && desc@.len() > 0
                && exists|raw: Seq<char>| desc@ == message_or_fallback(raw, code),
    {
        TerminateError::Win32 { code, desc: format_message_w(code) }
    }

    /// The text shown for the error; for `Other`, the text of the wrapped
    /// `windows` error.
    pub fn to_string(&self) -> (s: String)
        ensures
            !(self is Other) ==> s@ == terminate_error_text(*self),
    {
        match self {
            TerminateError::AccessDenied => String::from_str("权限不足，请以管理员身份重启程序"),
            TerminateError::AlreadyExited => String::from_str("进程已不存在"),
            TerminateError::StalePid => String::from_str("PID 已复用，已忽略本次操作"),
            TerminateError::SystemProtected => String::from_str("系统进程禁止结束"),
            TerminateError::Timeout => String::from_str("操作超时，请重试"),
            TerminateError::Win32 { code, desc } => {
                let hex = hex_code_string(*code);
                join4("Windows 错误 ", hex.as_str(), ": ", desc.as_str())
            },
            TerminateError::Other(e) => windows_error_text(e),
        }
    }
}

/// The Win32 error code that an `HRESULT` carries: an `HRESULT` made from a
/// Win32 code (facility 7 with the failure bit, `0x8007xxxx`) gives back its
/// low 16 bits; any other value is taken as a Win32 code already.
pub open spec fn win32_code_of(hresult: u32) -> u32 {
    if hresult / 0x10000 == 0x8007 {
        (hresult % 0x10000) as u32
    } else {
        hresult
    }
}

/// The Win32 error code that an `HRESULT` carries, so that errors reported
/// by the `windows` crate map as the Win32 codes they stand for.
pub fn win32_code(hresult: u32) -> (code: u32)
    ensures
        code == win32_code_of(hresult),
{
    if hresult / 0x10000 == 0x8007 {
        hresult % 0x10000
    } else {
        hresult
    }
}

} // verus!
