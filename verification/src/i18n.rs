//! Interface texts in English and Simplified Chinese, looked up by key, and
//! the placeholder substitution used to fill them in.

use vstd::prelude::*;
use crate::text::{decimal, decimal_string, replace_all, replace_str};

verus! {

/// The interface languages.
#[derive(Debug, Clone, Copy, PartialEq, Eq, Structural)]
pub enum Language {
    /// English, the language of the interface until another is selected.
    En,
    /// Simplified Chinese, the value of `Language::default()`.
    Zh,
}

/// The one-byte code under which a language is stored: 0 for English,
/// 1 for Simplified Chinese.
pub open spec fn language_code(lang: Language) -> u8 {
    match lang {
        Language::En => 0,
        Language::Zh => 1,
    }
}

/// The language that a stored code stands for: 1 is Simplified Chinese,
/// every other code English.
pub open spec fn language_of_code(v: u8) -> Language {
    if v == 1 {
        Language::Zh
    } else {
        Language::En
    }
}

/// The name of a language, written in that language.
pub open spec fn language_name(lang: Language) -> Seq<char> {
    match lang {
        Language::En => "English"@,
        Language::Zh => "简体中文"@,
    }
}

impl Language {
    /// The name of the language, written in that language.
    pub fn as_str(self) -> (s: &'static str)
        ensures
            s@ == language_name(self),
    {
        match self {
            Language::En => "English",
            Language::Zh => "简体中文",
        }
    }

    /// The language stored under the code `v`.
    pub fn from_u8(v: u8) -> (lang: Language)
        ensures
            lang == language_of_code(v),
    {
        match v {
            1 => Language::Zh,
            _ => Language::En,
        }
    }
}

impl Default for Language {
    fn default() -> (lang: Language)
        ensures
            lang == Language::Zh,
    {
        Language::Zh
    }
}

/// The language setting that every lookup reads: the stored code of the
/// language in effect. A new setting selects English, the default
/// language of the interface.
pub struct LanguageSetting {
    code: u8,
}

impl LanguageSetting {
    /// The language in effect.
    pub closed spec fn language(&self) -> Language {
        language_of_code(self.code)
    }

    /// A setting that selects English.
    pub fn new() -> (s: LanguageSetting)
        ensures
            s.language() == Language::En,
    {
        LanguageSetting { code: 0 }
    }
}

/// Selects `lang` as the language in effect.
pub fn set_language(setting: &mut LanguageSetting, lang: Language)
    ensures
        final(setting).language() == lang,
{
    setting.code = match lang {
        Language::En => 0,
        Language::Zh => 1,
    };
}

/// The language in effect.
pub fn current_language(setting: &LanguageSetting) -> (lang: Language)
    ensures
        lang == setting.language(),
{
    Language::from_u8(setting.code)
}

/// The keys of the interface texts.
#[derive(Debug, Clone, Copy, PartialEq, Eq, Structural)]
pub enum Key {
    // Window title and target counter.
    AppTitle,
    TargetCountSuffix,
    // Toolbar buttons.
    BtnAddFile,
    BtnAddFolder,
    BtnClearList,
    BtnOpenLogDir,
    BtnLanguage,
    // Hints shown while the target list is empty.
    EmptyDropHint,
    EmptySubHint,
    // Status badges of a target.
    StatusPending,
    StatusScanning,
    StatusIdle,
    StatusLockedPrefix,
    StatusFailed,
    StatusAccessDenied,
    ProcessUnit,
    // One row of a locking process.
    BtnViewGuide,
    BtnTerminate,
    LabelSystemProcess,
    SubitemPrefix,
    SubitemSuffix,
    TooltipTerminate,
    TooltipRemove,
    // Status bar.
    PrivStandard,
    PrivAdmin,
    BtnRestartAdmin,
    LabelRefresh,
    ToastClosing,
    // Confirmation dialogs.
    DlgTermTitle,
    DlgTermMessage,
    DlgTermWarning,
    DlgTermConfirm,
    DlgClearTitle,
    DlgClearMessageFmt,
    DlgClearConfirm,
    BtnCancel,
    // Notices about elevation and termination.
    ToastElevating,
    ToastTermInProgressFmt,
    ToastTermSuccessFmt,
    ToastTermAlreadyExitedFmt,
    ToastTermAccessDenied,
    ToastTermTimeout,
    ToastTermSystemProtected,
    ToastTermStalePidFmt,
    // Start-up messages.
    MsgUnsupportedOs,
    // Advice shown for system processes.
    SystemGuideText,
}

/// The text of `key` in `lang`.
pub open spec fn text(key: Key, lang: Language) -> Seq<char> {
    match (key, lang) {
        (Key::AppTitle, Language::En) => "🔍 File Lock Inspector"@,
        (Key::AppTitle, Language::Zh) => "🔍 文件占用查询"@,
        (Key::TargetCountSuffix, Language::En) => "target(s) monitored"@,
        (Key::TargetCountSuffix, Language::Zh) => "个目标监控中"@,
        (Key::BtnAddFile, Language::En) => "+ Add File"@,
        (Key::BtnAddFile, Language::Zh) => "+ 添加文件"@,
        (Key::BtnAddFolder, Language::En) => "+ Add Folder"@,
        (Key::BtnAddFolder, Language::Zh) => "+ 添加文件夹"@,
        (Key::BtnClearList, Language::En) => "Clear List"@,
        (Key::BtnClearList, Language::Zh) => "清空列表"@,
        (Key::BtnOpenLogDir, Language::En) => "Open Log Folder"@,
        (Key::BtnOpenLogDir, Language::Zh) => "打开日志目录"@,
        (Key::BtnLanguage, Language::En) => "中文"@,
        (Key::BtnLanguage, Language::Zh) => "English"@,
        (Key::EmptyDropHint, Language::En) => "Drop files or folders here"@,
        (Key::EmptyDropHint, Language::Zh) => "拖放文件或文件夹到此处"@,
        (Key::EmptySubHint, Language::En) => "Or use the buttons above to add targets"@,
        (Key::EmptySubHint, Language::Zh) => "或使用上方按钮添加监控目标"@,
        (Key::StatusPending, Language::En) => "Pending"@,
        (Key::StatusPending, Language::Zh) => "等待检测"@,
        (Key::StatusScanning, Language::En) => "Scanning"@,
        (Key::StatusScanning, Language::Zh) => "检测中"@,
        (Key::StatusIdle, Language::En) => "Not Locked"@,
        (Key::StatusIdle, Language::Zh) => "未被占用"@,
        (Key::StatusLockedPrefix, Language::En) => "Locked"@,
        (Key::StatusLockedPrefix, Language::Zh) => "被占用"@,
        (Key::StatusFailed, Language::En) => "Scan Failed"@,
        (Key::StatusFailed, Language::Zh) => "检测失败"@,
        (Key::StatusAccessDenied, Language::En) => "Access Denied"@,
        (Key::StatusAccessDenied, Language::Zh) => "权限不足"@,
        (Key::ProcessUnit, Language::En) => "processes"@,
        (Key::ProcessUnit, Language::Zh) => "个进程"@,
        (Key::BtnViewGuide, Language::En) => "View Tips"@,
        (Key::BtnViewGuide, Language::Zh) => "查看建议"@,
        (Key::BtnTerminate, Language::En) => "Terminate"@,
        (Key::BtnTerminate, Language::Zh) => "强制结束"@,
        (Key::LabelSystemProcess, Language::En) => "System process — handle manually"@,
        (Key::LabelSystemProcess, Language::Zh) => "系统进程，请手动处理"@,
        (Key::SubitemPrefix, Language::En) => "· locks"@,
        (Key::SubitemPrefix, Language::Zh) => "· 占用"@,
        (Key::SubitemSuffix, Language::En) => "child item(s)"@,
        (Key::SubitemSuffix, Language::Zh) => "个子项"@,
        (Key::TooltipTerminate, Language::En) => "Terminate process"@,
        (Key::TooltipTerminate, Language::Zh) => "结束进程"@,
        (Key::TooltipRemove, Language::En) => "Remove from list"@,
        (Key::TooltipRemove, Language::Zh) => "从列表移除"@,
        (Key::PrivStandard, Language::En) => "● Standard User"@,
        (Key::PrivStandard, Language::Zh) => "● 标准用户"@,
        (Key::PrivAdmin, Language::En) => "● Administrator"@,
        (Key::PrivAdmin, Language::Zh) => "● 管理员"@,
        (Key::BtnRestartAdmin, Language::En) => "Restart as Administrator"@,
        (Key::BtnRestartAdmin, Language::Zh) => "以管理员身份重启"@,
        (Key::LabelRefresh, Language::En) => "Refresh"@,
        (Key::LabelRefresh, Language::Zh) => "刷新"@,
        (Key::ToastClosing, Language::En) => "Close"@,
        (Key::ToastClosing, Language::Zh) => "关闭"@,
        (Key::DlgTermTitle, Language::En) => "Confirm: Terminate Process"@,
        (Key::DlgTermTitle, Language::Zh) => "确认强制结束进程"@,
        (Key::DlgTermMessage, Language::En) => "Are you sure you want to force-terminate this process?"@,
        (Key::DlgTermMessage, Language::Zh) => "确定要强制结束以下进程吗？"@,
        (Key::DlgTermWarning, Language::En) => "⚠ Force-terminating may cause data loss!"@,
        (Key::DlgTermWarning, Language::Zh) => "⚠ 强制结束进程可能导致数据丢失！"@,
        (Key::DlgTermConfirm, Language::En) => "Terminate"@,
        (Key::DlgTermConfirm, Language::Zh) => "强制结束"@,
        (Key::DlgClearTitle, Language::En) => "Confirm: Clear List"@,
        (Key::DlgClearTitle, Language::Zh) => "确认清空列表"@,
        (Key::DlgClearMessageFmt, Language::En) => "Will remove all {N} target(s). Continue?"@,
        (Key::DlgClearMessageFmt, Language::Zh) => "将清空全部 {N} 项监控目标，确定吗？"@,
        (Key::DlgClearConfirm, Language::En) => "Clear"@,
        (Key::DlgClearConfirm, Language::Zh) => "确认清空"@,
        (Key::BtnCancel, Language::En) => "Cancel"@,
        (Key::BtnCancel, Language::Zh) => "取消"@,
        (Key::ToastElevating, Language::En) => "Requesting elevation..."@,
        (Key::ToastElevating, Language::Zh) => "正在请求提权..."@,
        (Key::ToastTermInProgressFmt, Language::En) => "Terminating {NAME} (PID {PID})..."@,
        (Key::ToastTermInProgressFmt, Language::Zh) => "正在结束 {NAME} (PID {PID})..."@,
        (Key::ToastTermSuccessFmt, Language::En) => "Terminated {NAME} (PID {PID})"@,
        (Key::ToastTermSuccessFmt, Language::Zh) => "已结束 {NAME} (PID {PID})"@,
        (Key::ToastTermAlreadyExitedFmt, Language::En) => "{NAME} (PID {PID}) already exited"@,
        (Key::ToastTermAlreadyExitedFmt, Language::Zh) => "{NAME} (PID {PID}) 已退出"@,
        (Key::ToastTermAccessDenied, Language::En) => "Access denied. Restart as Administrator."@,
        (Key::ToastTermAccessDenied, Language::Zh) => "权限不足，请以管理员身份重启程序"@,
        (Key::ToastTermTimeout, Language::En) => "Operation timed out. Please retry."@,
        (Key::ToastTermTimeout, Language::Zh) => "操作超时，请重试"@,
        (Key::ToastTermSystemProtected, Language::En) => "System process cannot be terminated"@,
        (Key::ToastTermSystemProtected, Language::Zh) => "系统进程不可结束"@,
        (Key::ToastTermStalePidFmt, Language::En) => "PID {PID} has been reused; operation skipped"@,
        (Key::ToastTermStalePidFmt, Language::Zh) => "PID {PID} 已复用，已忽略本次操作"@,
        (Key::MsgUnsupportedOs, Language::En) => "Unsupported Windows version (Windows 10 1809+ required). Some features may not work."@,
        (Key::MsgUnsupportedOs, Language::Zh) => "当前系统版本不受支持（需要 Windows 10 1809 或更高版本），部分功能可能无法正常工作"@,
        (Key::SystemGuideText, Language::En) => "\
System Process — Recommended Actions:\n\
\n\
1. Verify the process via Task Manager → Services tab\n\
2. For svchost.exe, inspect the hosted services\n\
3. Run sfc /scannow to check system file integrity\n\
4. If held by Windows Update, wait for it to finish\n\
5. A reboot usually releases system process locks\n\
\n\
⚠ Do NOT force-terminate system processes — system instability or BSOD may occur!"@,
        (Key::SystemGuideText, Language::Zh) => "\
系统进程处置建议：\n\
\n\
1. 通过任务管理器 → 服务页面确认该进程的功能\n\
2. 若是 svchost.exe，可查看其托管的具体服务\n\
3. 使用 sfc /scannow 检查系统文件完整性\n\
4. 若文件被 Windows Update 占用，等待更新完成后重试\n\
5. 重启计算机通常可以解除系统进程的占用\n\
\n\
⚠ 切勿强制结束系统进程，否则可能导致系统不稳定或蓝屏！"@,
    }
}

/// Whether `c` is a CJK unified ideograph, as Chinese texts are written in.
pub open spec fn is_han(c: char) -> bool {
    0x4E00 <= (c as u32) <= 0x9FFF
}

/// Whether the text `s` holds a Chinese character.
pub open spec fn has_han(s: Seq<char>) -> bool {
    exists|i: int| 0 <= i < s.len() && #[trigger] is_han(s[i])
}

/// The interface is really translated: for every key the Chinese text is
/// not the English one, and it is written in Chinese, but for the language
/// button, which names the other language (`中文` in English, `English` in
/// Chinese).
pub proof fn lemma_texts_translated(k: Key)
    ensures
        text(k, Language::Zh) != text(k, Language::En),
        k != Key::BtnLanguage ==> has_han(text(k, Language::Zh)),
        k == Key::BtnLanguage ==> has_han(text(k, Language::En)) && !has_han(text(k, Language::Zh)),
{
    match k {
        Key::AppTitle => {
            reveal_strlit("🔍 文件占用查询");
            reveal_strlit("🔍 File Lock Inspector");
            assert(is_han(text(k, Language::Zh)[2]));
            assert(text(k, Language::En)[2] != text(k, Language::Zh)[2]);
        },
        Key::TargetCountSuffix => {
            reveal_strlit("个目标监控中");
            reveal_strlit("target(s) monitored");
            assert(is_han(text(k, Language::Zh)[0]));
            assert(text(k, Language::En)[0] != text(k, Language::Zh)[0]);
        },
        Key::BtnAddFile => {
            reveal_strlit("+ 添加文件");
            reveal_strlit("+ Add File");
            assert(is_han(text(k, Language::Zh)[2]));
            assert(text(k, Language::En)[2] != text(k, Language::Zh)[2]);
        },
        Key::BtnAddFolder => {
            reveal_strlit("+ 添加文件夹");
            reveal_strlit("+ Add Folder");
            assert(is_han(text(k, Language::Zh)[2]));
            assert(text(k, Language::En)[2] != text(k, Language::Zh)[2]);
        },
        Key::BtnClearList => {
            reveal_strlit("清空列表");
            reveal_strlit("Clear List");
            assert(is_han(text(k, Language::Zh)[0]));
            assert(text(k, Language::En)[0] != text(k, Language::Zh)[0]);
        },
        Key::BtnOpenLogDir => {
            reveal_strlit("打开日志目录");
            reveal_strlit("Open Log Folder");
            assert(is_han(text(k, Language::Zh)[0]));
            assert(text(k, Language::En)[0] != text(k, Language::Zh)[0]);
        },
        Key::BtnLanguage => {
            reveal_strlit("English");
            reveal_strlit("中文");
            assert(is_han(text(k, Language::En)[0]));
            assert(!has_han(text(k, Language::Zh))) by {
                assert forall|i: int| 0 <= i < text(k, Language::Zh).len() implies !is_han(#[trigger] text(k, Language::Zh)[i]) by {
                }
            }
            assert(text(k, Language::Zh)[0] != text(k, Language::En)[0]);
        },
        Key::EmptyDropHint => {
            reveal_strlit("拖放文件或文件夹到此处");
            reveal_strlit("Drop files or folders here");
            assert(is_han(text(k, Language::Zh)[0]));
            assert(text(k, Language::En)[0] != text(k, Language::Zh)[0]);
        },
        Key::EmptySubHint => {
            reveal_strlit("或使用上方按钮添加监控目标");
            reveal_strlit("Or use the buttons above to add targets");
            assert(is_han(text(k, Language::Zh)[0]));
            assert(text(k, Language::En)[0] != text(k, Language::Zh)[0]);
        },
        Key::StatusPending => {
            reveal_strlit("等待检测");
            reveal_strlit("Pending");
            assert(is_han(text(k, Language::Zh)[0]));
            assert(text(k, Language::En)[0] != text(k, Language::Zh)[0]);
        },
        Key::StatusScanning => {
            reveal_strlit("检测中");
            reveal_strlit("Scanning");
            assert(is_han(text(k, Language::Zh)[0]));
            assert(text(k, Language::En)[0] != text(k, Language::Zh)[0]);
        },
        Key::StatusIdle => {
            reveal_strlit("未被占用");
            reveal_strlit("Not Locked");
            assert(is_han(text(k, Language::Zh)[0]));
            assert(text(k, Language::En)[0] != text(k, Language::Zh)[0]);
        },
        Key::StatusLockedPrefix => {
            reveal_strlit("被占用");
            reveal_strlit("Locked");
            assert(is_han(text(k, Language::Zh)[0]));
            assert(text(k, Language::En)[0] != text(k, Language::Zh)[0]);
        },
        Key::StatusFailed => {
            reveal_strlit("检测失败");
            reveal_strlit("Scan Failed");
            assert(is_han(text(k, Language::Zh)[0]));
            assert(text(k, Language::En)[0] != text(k, Language::Zh)[0]);
        },
        Key::StatusAccessDenied => {
            reveal_strlit("权限不足");
            reveal_strlit("Access Denied");
            assert(is_han(text(k, Language::Zh)[0]));
            assert(text(k, Language::En)[0] != text(k, Language::Zh)[0]);
        },
        Key::ProcessUnit => {
            reveal_strlit("个进程");
            reveal_strlit("processes");
            assert(is_han(text(k, Language::Zh)[0]));
            assert(text(k, Language::En)[0] != text(k, Language::Zh)[0]);
        },
        Key::BtnViewGuide => {
            reveal_strlit("查看建议");
            reveal_strlit("View Tips");
            assert(is_han(text(k, Language::Zh)[0]));
            assert(text(k, Language::En)[0] != text(k, Language::Zh)[0]);
        },
        Key::BtnTerminate => {
            reveal_strlit("强制结束");
            reveal_strlit("Terminate");
            assert(is_han(text(k, Language::Zh)[0]));
            assert(text(k, Language::En)[0] != text(k, Language::Zh)[0]);
        },
        Key::LabelSystemProcess => {
            reveal_strlit("系统进程，请手动处理");
            reveal_strlit("System process — handle manually");
            assert(is_han(text(k, Language::Zh)[0]));
            assert(text(k, Language::En)[0] != text(k, Language::Zh)[0]);
        },
        Key::SubitemPrefix => {
            reveal_strlit("· 占用");
            reveal_strlit("· locks");
            assert(is_han(text(k, Language::Zh)[2]));
            assert(text(k, Language::En)[2] != text(k, Language::Zh)[2]);
        },
        Key::SubitemSuffix => {
            reveal_strlit("个子项");
            reveal_strlit("child item(s)");
            assert(is_han(text(k, Language::Zh)[0]));
            assert(text(k, Language::En)[0] != text(k, Language::Zh)[0]);
        },
        Key::TooltipTerminate => {
            reveal_strlit("结束进程");
            reveal_strlit("Terminate process");
            assert(is_han(text(k, Language::Zh)[0]));
            assert(text(k, Language::En)[0] != text(k, Language::Zh)[0]);
        },
        Key::TooltipRemove => {
            reveal_strlit("从列表移除");
            reveal_strlit("Remove from list");
            assert(is_han(text(k, Language::Zh)[0]));
            assert(text(k, Language::En)[0] != text(k, Language::Zh)[0]);
        },
        Key::PrivStandard => {
            reveal_strlit("● 标准用户");
            reveal_strlit("● Standard User");
            assert(is_han(text(k, Language::Zh)[2]));
            assert(text(k, Language::En)[2] != text(k, Language::Zh)[2]);
        },
        Key::PrivAdmin => {
            reveal_strlit("● 管理员");
            reveal_strlit("● Administrator");
            assert(is_han(text(k, Language::Zh)[2]));
            assert(text(k, Language::En)[2] != text(k, Language::Zh)[2]);
        },
        Key::BtnRestartAdmin => {
            reveal_strlit("以管理员身份重启");
            reveal_strlit("Restart as Administrator");
            assert(is_han(text(k, Language::Zh)[0]));
            assert(text(k, Language::En)[0] != text(k, Language::Zh)[0]);
        },
        Key::LabelRefresh => {
            reveal_strlit("刷新");
            reveal_strlit("Refresh");
            assert(is_han(text(k, Language::Zh)[0]));
            assert(text(k, Language::En)[0] != text(k, Language::Zh)[0]);
        },
        Key::ToastClosing => {
            reveal_strlit("关闭");
            reveal_strlit("Close");
            assert(is_han(text(k, Language::Zh)[0]));
            assert(text(k, Language::En)[0] != text(k, Language::Zh)[0]);
        },
        Key::DlgTermTitle => {
            reveal_strlit("确认强制结束进程");
            reveal_strlit("Confirm: Terminate Process");
            assert(is_han(text(k, Language::Zh)[0]));
            assert(text(k, Language::En)[0] != text(k, Language::Zh)[0]);
        },
        Key::DlgTermMessage => {
            reveal_strlit("确定要强制结束以下进程吗？");
            reveal_strlit("Are you sure you want to force-terminate this process?");
            assert(is_han(text(k, Language::Zh)[0]));
            assert(text(k, Language::En)[0] != text(k, Language::Zh)[0]);
        },
        Key::DlgTermWarning => {
            reveal_strlit("⚠ 强制结束进程可能导致数据丢失！");
            reveal_strlit("⚠ Force-terminating may cause data loss!");
            assert(is_han(text(k, Language::Zh)[2]));
            assert(text(k, Language::En)[2] != text(k, Language::Zh)[2]);
        },
        Key::DlgTermConfirm => {
            reveal_strlit("强制结束");
            reveal_strlit("Terminate");
            assert(is_han(text(k, Language::Zh)[0]));
            assert(text(k, Language::En)[0] != text(k, Language::Zh)[0]);
        },
        Key::DlgClearTitle => {
            reveal_strlit("确认清空列表");
            reveal_strlit("Confirm: Clear List");
            assert(is_han(text(k, Language::Zh)[0]));
            assert(text(k, Language::En)[0] != text(k, Language::Zh)[0]);
        },
        Key::DlgClearMessageFmt => {
            reveal_strlit("将清空全部 {N} 项监控目标，确定吗？");
            reveal_strlit("Will remove all {N} target(s). Continue?");
            assert(is_han(text(k, Language::Zh)[0]));
            assert(text(k, Language::En)[0] != text(k, Language::Zh)[0]);
        },
        Key::DlgClearConfirm => {
            reveal_strlit("确认清空");
            reveal_strlit("Clear");
            assert(is_han(text(k, Language::Zh)[0]));
            assert(text(k, Language::En)[0] != text(k, Language::Zh)[0]);
        },
        Key::BtnCancel => {
            reveal_strlit("取消");
            reveal_strlit("Cancel");
            assert(is_han(text(k, Language::Zh)[0]));
            assert(text(k, Language::En)[0] != text(k, Language::Zh)[0]);
        },
        Key::ToastElevating => {
            reveal_strlit("正在请求提权...");
            reveal_strlit("Requesting elevation...");
            assert(is_han(text(k, Language::Zh)[0]));
            assert(text(k, Language::En)[0] != text(k, Language::Zh)[0]);
        },
        Key::ToastTermInProgressFmt => {
            reveal_strlit("正在结束 {NAME} (PID {PID})...");
            reveal_strlit("Terminating {NAME} (PID {PID})...");
            assert(is_han(text(k, Language::Zh)[0]));
            assert(text(k, Language::En)[0] != text(k, Language::Zh)[0]);
        },
        Key::ToastTermSuccessFmt => {
            reveal_strlit("已结束 {NAME} (PID {PID})");
            reveal_strlit("Terminated {NAME} (PID {PID})");
            assert(is_han(text(k, Language::Zh)[0]));
            assert(text(k, Language::En)[0] != text(k, Language::Zh)[0]);
        },
        Key::ToastTermAlreadyExitedFmt => {
            reveal_strlit("{NAME} (PID {PID}) 已退出");
            reveal_strlit("{NAME} (PID {PID}) already exited");
            assert(is_han(text(k, Language::Zh)[19]));
            assert(text(k, Language::En)[19] != text(k, Language::Zh)[19]);
        },
        Key::ToastTermAccessDenied => {
            reveal_strlit("权限不足，请以管理员身份重启程序");
            reveal_strlit("Access denied. Restart as Administrator.");
            assert(is_han(text(k, Language::Zh)[0]));
            assert(text(k, Language::En)[0] != text(k, Language::Zh)[0]);
        },
        Key::ToastTermTimeout => {
            reveal_strlit("操作超时，请重试");
            reveal_strlit("Operation timed out. Please retry.");
            assert(is_han(text(k, Language::Zh)[0]));
            assert(text(k, Language::En)[0] != text(k, Language::Zh)[0]);
        },
        Key::ToastTermSystemProtected => {
            reveal_strlit("系统进程不可结束");
            reveal_strlit("System process cannot be terminated");
            assert(is_han(text(k, Language::Zh)[0]));
            assert(text(k, Language::En)[0] != text(k, Language::Zh)[0]);
        },
        Key::ToastTermStalePidFmt => {
            reveal_strlit("PID {PID} 已复用，已忽略本次操作");
            reveal_strlit("PID {PID} has been reused; operation skipped");
            assert(is_han(text(k, Language::Zh)[10]));
            assert(text(k, Language::En)[10] != text(k, Language::Zh)[10]);
        },
        Key::MsgUnsupportedOs => {
            reveal_strlit("当前系统版本不受支持（需要 Windows 10 1809 或更高版本），部分功能可能无法正常工作");
            reveal_strlit("Unsupported Windows version (Windows 10 1809+ required). Some features may not work.");
            assert(is_han(text(k, Language::Zh)[0]));
            assert(text(k, Language::En)[0] != text(k, Language::Zh)[0]);
        },
        Key::SystemGuideText => {
            reveal_strlit("\
系统进程处置建议：\n\
\n\
1. 通过任务管理器 → 服务页面确认该进程的功能\n\
2. 若是 svchost.exe，可查看其托管的具体服务\n\
3. 使用 sfc /scannow 检查系统文件完整性\n\
4. 若文件被 Windows Update 占用，等待更新完成后重试\n\
5. 重启计算机通常可以解除系统进程的占用\n\
\n\
⚠ 切勿强制结束系统进程，否则可能导致系统不稳定或蓝屏！");
            reveal_strlit("\
System Process — Recommended Actions:\n\
\n\
1. Verify the process via Task Manager → Services tab\n\
2. For svchost.exe, inspect the hosted services\n\
3. Run sfc /scannow to check system file integrity\n\
4. If held by Windows Update, wait for it to finish\n\
5. A reboot usually releases system process locks\n\
\n\
⚠ Do NOT force-terminate system processes — system instability or BSOD may occur!");
            assert(is_han(text(k, Language::Zh)[0]));
            assert(text(k, Language::En)[0] != text(k, Language::Zh)[0]);
        },
    }
}

/// The text of `key` in the language in effect.
pub fn t(setting: &LanguageSetting, key: Key) -> (s: &'static str)
    ensures
        s@ == text(key, setting.language()),
{
    match (key, current_language(setting)) {
        (Key::AppTitle, Language::En) => "🔍 File Lock Inspector",
        (Key::AppTitle, Language::Zh) => "🔍 文件占用查询",
        (Key::TargetCountSuffix, Language::En) => "target(s) monitored",
        (Key::TargetCountSuffix, Language::Zh) => "个目标监控中",
        (Key::BtnAddFile, Language::En) => "+ Add File",
        (Key::BtnAddFile, Language::Zh) => "+ 添加文件",
        (Key::BtnAddFolder, Language::En) => "+ Add Folder",
        (Key::BtnAddFolder, Language::Zh) => "+ 添加文件夹",
        (Key::BtnClearList, Language::En) => "Clear List",
        (Key::BtnClearList, Language::Zh) => "清空列表",
        (Key::BtnOpenLogDir, Language::En) => "Open Log Folder",
        (Key::BtnOpenLogDir, Language::Zh) => "打开日志目录",
        (Key::BtnLanguage, Language::En) => "中文",
        (Key::BtnLanguage, Language::Zh) => "English",
        (Key::EmptyDropHint, Language::En) => "Drop files or folders here",
        (Key::EmptyDropHint, Language::Zh) => "拖放文件或文件夹到此处",
        (Key::EmptySubHint, Language::En) => "Or use the buttons above to add targets",
        (Key::EmptySubHint, Language::Zh) => "或使用上方按钮添加监控目标",
        (Key::StatusPending, Language::En) => "Pending",
        (Key::StatusPending, Language::Zh) => "等待检测",
        (Key::StatusScanning, Language::En) => "Scanning",
        (Key::StatusScanning, Language::Zh) => "检测中",
        (Key::StatusIdle, Language::En) => "Not Locked",
        (Key::StatusIdle, Language::Zh) => "未被占用",
        (Key::StatusLockedPrefix, Language::En) => "Locked",
        (Key::StatusLockedPrefix, Language::Zh) => "被占用",
        (Key::StatusFailed, Language::En) => "Scan Failed",
        (Key::StatusFailed, Language::Zh) => "检测失败",
        (Key::StatusAccessDenied, Language::En) => "Access Denied",
        (Key::StatusAccessDenied, Language::Zh) => "权限不足",
        (Key::ProcessUnit, Language::En) => "processes",
        (Key::ProcessUnit, Language::Zh) => "个进程",
        (Key::BtnViewGuide, Language::En) => "View Tips",
        (Key::BtnViewGuide, Language::Zh) => "查看建议",
        (Key::BtnTerminate, Language::En) => "Terminate",
        (Key::BtnTerminate, Language::Zh) => "强制结束",
        (Key::LabelSystemProcess, Language::En) => "System process — handle manually",
        (Key::LabelSystemProcess, Language::Zh) => "系统进程，请手动处理",
        (Key::SubitemPrefix, Language::En) => "· locks",
        (Key::SubitemPrefix, Language::Zh) => "· 占用",
        (Key::SubitemSuffix, Language::En) => "child item(s)",
        (Key::SubitemSuffix, Language::Zh) => "个子项",
        (Key::TooltipTerminate, Language::En) => "Terminate process",
        (Key::TooltipTerminate, Language::Zh) => "结束进程",
        (Key::TooltipRemove, Language::En) => "Remove from list",
        (Key::TooltipRemove, Language::Zh) => "从列表移除",
        (Key::PrivStandard, Language::En) => "● Standard User",
        (Key::PrivStandard, Language::Zh) => "● 标准用户",
        (Key::PrivAdmin, Language::En) => "● Administrator",
        (Key::PrivAdmin, Language::Zh) => "● 管理员",
        (Key::BtnRestartAdmin, Language::En) => "Restart as Administrator",
        (Key::BtnRestartAdmin, Language::Zh) => "以管理员身份重启",
        (Key::LabelRefresh, Language::En) => "Refresh",
        (Key::LabelRefresh, Language::Zh) => "刷新",
        (Key::ToastClosing, Language::En) => "Close",
        (Key::ToastClosing, Language::Zh) => "关闭",
        (Key::DlgTermTitle, Language::En) => "Confirm: Terminate Process",
        (Key::DlgTermTitle, Language::Zh) => "确认强制结束进程",
        (Key::DlgTermMessage, Language::En) => "Are you sure you want to force-terminate this process?",
        (Key::DlgTermMessage, Language::Zh) => "确定要强制结束以下进程吗？",
        (Key::DlgTermWarning, Language::En) => "⚠ Force-terminating may cause data loss!",
        (Key::DlgTermWarning, Language::Zh) => "⚠ 强制结束进程可能导致数据丢失！",
        (Key::DlgTermConfirm, Language::En) => "Terminate",
        (Key::DlgTermConfirm, Language::Zh) => "强制结束",
        (Key::DlgClearTitle, Language::En) => "Confirm: Clear List",
        (Key::DlgClearTitle, Language::Zh) => "确认清空列表",
        (Key::DlgClearMessageFmt, Language::En) => "Will remove all {N} target(s). Continue?",
        (Key::DlgClearMessageFmt, Language::Zh) => "将清空全部 {N} 项监控目标，确定吗？",
        (Key::DlgClearConfirm, Language::En) => "Clear",
        (Key::DlgClearConfirm, Language::Zh) => "确认清空",
        (Key::BtnCancel, Language::En) => "Cancel",
        (Key::BtnCancel, Language::Zh) => "取消",
        (Key::ToastElevating, Language::En) => "Requesting elevation...",
        (Key::ToastElevating, Language::Zh) => "正在请求提权...",
        (Key::ToastTermInProgressFmt, Language::En) => "Terminating {NAME} (PID {PID})...",
        (Key::ToastTermInProgressFmt, Language::Zh) => "正在结束 {NAME} (PID {PID})...",
        (Key::ToastTermSuccessFmt, Language::En) => "Terminated {NAME} (PID {PID})",
        (Key::ToastTermSuccessFmt, Language::Zh) => "已结束 {NAME} (PID {PID})",
        (Key::ToastTermAlreadyExitedFmt, Language::En) => "{NAME} (PID {PID}) already exited",
        (Key::ToastTermAlreadyExitedFmt, Language::Zh) => "{NAME} (PID {PID}) 已退出",
        (Key::ToastTermAccessDenied, Language::En) => "Access denied. Restart as Administrator.",
        (Key::ToastTermAccessDenied, Language::Zh) => "权限不足，请以管理员身份重启程序",
        (Key::ToastTermTimeout, Language::En) => "Operation timed out. Please retry.",
        (Key::ToastTermTimeout, Language::Zh) => "操作超时，请重试",
        (Key::ToastTermSystemProtected, Language::En) => "System process cannot be terminated",
        (Key::ToastTermSystemProtected, Language::Zh) => "系统进程不可结束",
        (Key::ToastTermStalePidFmt, Language::En) => "PID {PID} has been reused; operation skipped",
        (Key::ToastTermStalePidFmt, Language::Zh) => "PID {PID} 已复用，已忽略本次操作",
        (Key::MsgUnsupportedOs, Language::En) => "Unsupported Windows version (Windows 10 1809+ required). Some features may not work.",
        (Key::MsgUnsupportedOs, Language::Zh) => "当前系统版本不受支持（需要 Windows 10 1809 或更高版本），部分功能可能无法正常工作",
        (Key::SystemGuideText, Language::En) => "\
System Process — Recommended Actions:\n\
\n\
1. Verify the process via Task Manager → Services tab\n\
2. For svchost.exe, inspect the hosted services\n\
3. Run sfc /scannow to check system file integrity\n\
4. If held by Windows Update, wait for it to finish\n\
5. A reboot usually releases system process locks\n\
\n\
⚠ Do NOT force-terminate system processes — system instability or BSOD may occur!",
        (Key::SystemGuideText, Language::Zh) => "\
系统进程处置建议：\n\
\n\
1. 通过任务管理器 → 服务页面确认该进程的功能\n\
2. 若是 svchost.exe，可查看其托管的具体服务\n\
3. 使用 sfc /scannow 检查系统文件完整性\n\
4. 若文件被 Windows Update 占用，等待更新完成后重试\n\
5. 重启计算机通常可以解除系统进程的占用\n\
\n\
⚠ 切勿强制结束系统进程，否则可能导致系统不稳定或蓝屏！",
    }
}

/// `template` with `{NAME}` replaced by `name`, then `{PID}` replaced by the
/// decimal form of `pid`; other placeholders are left as they are.
pub fn format_pid(template: &str, name: &str, pid: u32) -> (s: String)
    ensures
        s@ == replace_all(replace_all(template@, "{NAME}"@, name@), "{PID}"@, decimal(pid as nat)),
{
    proof {
        reveal_strlit("{NAME}");
        reveal_strlit("{PID}");
    }
    let named = replace_str(template, "{NAME}", name);
    let pid_text = decimal_string(pid as u64);
    replace_str(named.as_str(), "{PID}", pid_text.as_str())
}

/// `template` with `{N}` replaced by the decimal form of `n`.
pub fn format_n(template: &str, n: usize) -> (s: String)
    ensures
        s@ == replace_all(template@, "{N}"@, decimal(n as nat)),
{
    proof {
        reveal_strlit("{N}");
    }
    let n_text = decimal_string(n as u64);
    replace_str(template, "{N}", n_text.as_str())
}

/// A language survives being stored as its code and read back, so that
/// selecting a language and then reading the setting gives it back.
pub proof fn lemma_language_code_round_trip(lang: Language)
    ensures
        language_of_code(language_code(lang)) == lang,
{
}

} // verus!
