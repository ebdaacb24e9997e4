//! What the interface shows and does, apart from drawing: the texts of its
//! labels, its dialogs and the commands its actions give.
//!
//! - `dialogs`: the two confirmation dialogs.
//! - `actions`: what the interface does after the user acted.

use vstd::prelude::*;

pub mod actions;
pub mod dialogs;

use crate::i18n::{Key, Language, LanguageSetting, t, text};
use crate::state::target::TargetStatus;
use crate::text::{chars_of, decimal, decimal_string, digits_value, is_digits, lemma_decimal_reads_back, push_char};

verus! {

/// A stand-in for the interface components, of no size.
#[derive(Debug, Default, Clone, Copy)]
pub struct UiPlaceholder;

/// The key of the badge text of a status other than `Locked`.
pub open spec fn status_key(status: TargetStatus) -> Key {
    match status {
        TargetStatus::Pending => Key::StatusPending,
        TargetStatus::Scanning => Key::StatusScanning,
        TargetStatus::Idle => Key::StatusIdle,
        TargetStatus::Locked { .. } => Key::StatusLockedPrefix,
        TargetStatus::Failed { .. } => Key::StatusFailed,
        TargetStatus::AccessDenied => Key::StatusAccessDenied,
    }
}

/// The badge text of a target's status: `Locked · 2 processes` (in the
/// language in effect) for a locked target, the status's name otherwise.
pub open spec fn status_text(status: TargetStatus, setting: LanguageSetting) -> Seq<char> {
    match status {
        TargetStatus::Locked { count } => text(Key::StatusLockedPrefix, setting.language()) + " · "@
            + decimal(count as nat) + " "@ + text(Key::ProcessUnit, setting.language()),
        _ => text(status_key(status), setting.language()),
    }
}

/// Whether `a` and `b` are the same kind of status.
pub open spec fn same_status_kind(a: TargetStatus, b: TargetStatus) -> bool {
    ||| a is Pending && b is Pending
    ||| a is Scanning && b is Scanning
    ||| a is Idle && b is Idle
    ||| a is Locked && b is Locked
    ||| a is Failed && b is Failed
    ||| a is AccessDenied && b is AccessDenied
}

/// The badge of a target locked by `count` processes is the locked prefix,
/// ` · `, decimal digits that read back as `count`, a space and the unit.
pub open spec fn locked_badge_reads(setting: LanguageSetting, count: usize) -> bool {
    exists|d: Seq<char>|
        {
            &&& status_text(TargetStatus::Locked { count }, setting) == text(Key::StatusLockedPrefix, setting.language())
                + " · "@ + d + " "@ + text(Key::ProcessUnit, setting.language())
            &&& is_digits(d)
            &&& #[trigger] digits_value(d) == count
        }
}

/// The badges tell the statuses apart: a locked target reads the locked
/// prefix followed by its count, and every other status reads its own name
/// (a target that no process holds reads `Not Locked`); no badge of another
/// status starts with the locked prefix, and two statuses of different
/// kinds other than `Locked` never read the same; and the number on a
/// locked badge reads back as the count of processes.
pub proof fn lemma_status_badges(setting: LanguageSetting)
    ensures
        status_text(TargetStatus::Pending, setting) == text(Key::StatusPending, setting.language()),
        status_text(TargetStatus::Scanning, setting) == text(Key::StatusScanning, setting.language()),
        status_text(TargetStatus::Idle, setting) == text(Key::StatusIdle, setting.language()),
        status_text(TargetStatus::AccessDenied, setting) == text(Key::StatusAccessDenied, setting.language()),
        forall|reason: String|
            #[trigger] status_text(TargetStatus::Failed { reason }, setting) == text(Key::StatusFailed, setting.language()),
        forall|count: usize|
            text(Key::StatusLockedPrefix, setting.language()).is_prefix_of(
                #[trigger] status_text(TargetStatus::Locked { count }, setting),
            ),
        forall|count: usize| #[trigger] locked_badge_reads(setting, count),
        forall|s: TargetStatus|
            !(s is Locked) ==> !text(Key::StatusLockedPrefix, setting.language()).is_prefix_of(
                #[trigger] status_text(s, setting),
            ),
        forall|a: TargetStatus, b: TargetStatus|
            !(a is Locked) && !(b is Locked) && !same_status_kind(a, b) ==> #[trigger] status_text(a, setting)
                != #[trigger] status_text(b, setting),
{
    let lang = setting.language();
    match lang {
        Language::En => {
            reveal_strlit("Pending");
            reveal_strlit("Scanning");
            reveal_strlit("Not Locked");
            reveal_strlit("Scan Failed");
            reveal_strlit("Access Denied");
            reveal_strlit("Locked");
            reveal_strlit("processes");
            assert(text(Key::StatusPending, Language::En).subrange(0, text(Key::StatusLockedPrefix, Language::En).len() as int)[0] != text(Key::StatusLockedPrefix, Language::En)[0]);
            assert(text(Key::StatusScanning, Language::En).subrange(0, text(Key::StatusLockedPrefix, Language::En).len() as int)[0] != text(Key::StatusLockedPrefix, Language::En)[0]);
            assert(text(Key::StatusIdle, Language::En).subrange(0, text(Key::StatusLockedPrefix, Language::En).len() as int)[0] != text(Key::StatusLockedPrefix, Language::En)[0]);
            assert(text(Key::StatusFailed, Language::En).subrange(0, text(Key::StatusLockedPrefix, Language::En).len() as int)[0] != text(Key::StatusLockedPrefix, Language::En)[0]);
            assert(text(Key::StatusAccessDenied, Language::En).subrange(0, text(Key::StatusLockedPrefix, Language::En).len() as int)[0] != text(Key::StatusLockedPrefix, Language::En)[0]);
            assert(text(Key::StatusPending, Language::En).len() != text(Key::StatusScanning, Language::En).len());
            assert(text(Key::StatusPending, Language::En).len() != text(Key::StatusIdle, Language::En).len());
            assert(text(Key::StatusPending, Language::En).len() != text(Key::StatusFailed, Language::En).len());
            assert(text(Key::StatusPending, Language::En).len() != text(Key::StatusAccessDenied, Language::En).len());
            assert(text(Key::StatusScanning, Language::En).len() != text(Key::StatusIdle, Language::En).len());
            assert(text(Key::StatusScanning, Language::En).len() != text(Key::StatusFailed, Language::En).len());
            assert(text(Key::StatusScanning, Language::En).len() != text(Key::StatusAccessDenied, Language::En).len());
            assert(text(Key::StatusIdle, Language::En).len() != text(Key::StatusFailed, Language::En).len());
            assert(text(Key::StatusIdle, Language::En).len() != text(Key::StatusAccessDenied, Language::En).len());
            assert(text(Key::StatusFailed, Language::En).len() != text(Key::StatusAccessDenied, Language::En).len());
        },
        Language::Zh => {
            reveal_strlit("等待检测");
            reveal_strlit("检测中");
            reveal_strlit("未被占用");
            reveal_strlit("检测失败");
            reveal_strlit("权限不足");
            reveal_strlit("被占用");
            reveal_strlit("个进程");
            assert(text(Key::StatusPending, Language::Zh).subrange(0, text(Key::StatusLockedPrefix, Language::Zh).len() as int)[0] != text(Key::StatusLockedPrefix, Language::Zh)[0]);
            assert(text(Key::StatusScanning, Language::Zh).subrange(0, text(Key::StatusLockedPrefix, Language::Zh).len() as int)[0] != text(Key::StatusLockedPrefix, Language::Zh)[0]);
            assert(text(Key::StatusIdle, Language::Zh).subrange(0, text(Key::StatusLockedPrefix, Language::Zh).len() as int)[0] != text(Key::StatusLockedPrefix, Language::Zh)[0]);
            assert(text(Key::StatusFailed, Language::Zh).subrange(0, text(Key::StatusLockedPrefix, Language::Zh).len() as int)[0] != text(Key::StatusLockedPrefix, Language::Zh)[0]);
            assert(text(Key::StatusAccessDenied, Language::Zh).subrange(0, text(Key::StatusLockedPrefix, Language::Zh).len() as int)[0] != text(Key::StatusLockedPrefix, Language::Zh)[0]);
            assert(text(Key::StatusPending, Language::Zh).len() != text(Key::StatusScanning, Language::Zh).len());
            assert(text(Key::StatusPending, Language::Zh)[0] != text(Key::StatusIdle, Language::Zh)[0]);
            assert(text(Key::StatusPending, Language::Zh)[0] != text(Key::StatusFailed, Language::Zh)[0]);
            assert(text(Key::StatusPending, Language::Zh)[0] != text(Key::StatusAccessDenied, Language::Zh)[0]);
            assert(text(Key::StatusScanning, Language::Zh).len() != text(Key::StatusIdle, Language::Zh).len());
            assert(text(Key::StatusScanning, Language::Zh).len() != text(Key::StatusFailed, Language::Zh).len());
            assert(text(Key::StatusScanning, Language::Zh).len() != text(Key::StatusAccessDenied, Language::Zh).len());
            assert(text(Key::StatusIdle, Language::Zh)[0] != text(Key::StatusFailed, Language::Zh)[0]);
            assert(text(Key::StatusIdle, Language::Zh)[0] != text(Key::StatusAccessDenied, Language::Zh)[0]);
            assert(text(Key::StatusFailed, Language::Zh)[0] != text(Key::StatusAccessDenied, Language::Zh)[0]);
        },
    }
    assert forall|count: usize|
        text(Key::StatusLockedPrefix, lang).is_prefix_of(#[trigger] status_text(TargetStatus::Locked { count }, setting)) by {
        let p = text(Key::StatusLockedPrefix, lang);
        let whole = status_text(TargetStatus::Locked { count }, setting);
        assert(whole.subrange(0, p.len() as int) =~= p);
    }
    assert forall|count: usize| #[trigger] locked_badge_reads(setting, count) by {
        lemma_decimal_reads_back(count as nat);
        let d = decimal(count as nat);
        assert(status_text(TargetStatus::Locked { count }, setting) == text(Key::StatusLockedPrefix, setting.language())
            + " · "@ + d + " "@ + text(Key::ProcessUnit, setting.language()));
        assert(digits_value(d) == count);
    }
}

/// The badge text of a target's status.
pub fn status_label(status: &TargetStatus, setting: &LanguageSetting) -> (s: String)
    ensures
        s@ == status_text(*status, *setting),
{
    match status {
        TargetStatus::Locked { count } => {
            let mut s = String::from_str(t(setting, Key::StatusLockedPrefix));
            s.append(" · ");
            let n = decimal_string(*count as u64);
            s.append(n.as_str());
            s.append(" ");
            s.append(t(setting, Key::ProcessUnit));
            s
        },
        TargetStatus::Pending => String::from_str(t(setting, Key::StatusPending)),
        TargetStatus::Scanning => String::from_str(t(setting, Key::StatusScanning)),
        TargetStatus::Idle => String::from_str(t(setting, Key::StatusIdle)),
        TargetStatus::Failed { .. } => String::from_str(t(setting, Key::StatusFailed)),
        TargetStatus::AccessDenied => String::from_str(t(setting, Key::StatusAccessDenied)),
    }
}

/// The label of a process that holds several children of a folder, such as
/// `· locks 3 child item(s)`; none when it holds one item or none.
pub fn subitem_label(count: u32, setting: &LanguageSetting) -> (s: Option<String>)
    ensures
        count <= 1 ==> s is None,
        count > 1 ==> (s matches Some(l) && l@ == text(Key::SubitemPrefix, setting.language()) + " "@
            + decimal(count as nat) + " "@ + text(Key::SubitemSuffix, setting.language())),
{
    if count <= 1 {
        return None;
    }
    let mut s = String::from_str(t(setting, Key::SubitemPrefix));
    s.append(" ");
    let n = decimal_string(count as u64);
    s.append(n.as_str());
    s.append(" ");
    s.append(t(setting, Key::SubitemSuffix));
    Some(s)
}

/// `PID 1234`.
pub fn pid_badge(pid: u32) -> (s: String)
    ensures
        s@ == "PID "@ + decimal(pid as nat),
{
    let mut s = String::from_str("PID ");
    let n = decimal_string(pid as u64);
    s.append(n.as_str());
    s
}

/// `notepad.exe (PID 1234)`.
pub open spec fn process_title_text(name: Seq<char>, pid: u32) -> Seq<char> {
    name + " (PID "@ + decimal(pid as nat) + ")"@
}

/// The name and pid of a process, as the dialog shows them:
/// `notepad.exe (PID 1234)`.
pub fn process_title(name: &str, pid: u32) -> (s: String)
    ensures
        s@ == process_title_text(name@, pid),
{
    let mut s = String::from_str(name);
    s.append(" (PID ");
    let n = decimal_string(pid as u64);
    s.append(n.as_str());
    s.append(")");
    s
}

/// The tooltip of the terminate button: `Force terminate: notepad.exe
/// (PID 1234)` in the language in effect.
pub fn terminate_tooltip(name: &str, pid: u32, setting: &LanguageSetting) -> (s: String)
    ensures
        s@ == text(Key::TooltipTerminate, setting.language()) + ": "@ + process_title_text(name@, pid),
{
    let mut s = String::from_str(t(setting, Key::TooltipTerminate));
    s.append(": ");
    let title = process_title(name, pid);
    s.append(title.as_str());
    s
}

/// The counter of targets: `3 targets` in the language in effect.
pub fn target_count_label(count: usize, setting: &LanguageSetting) -> (s: String)
    ensures
        s@ == decimal(count as nat) + " "@ + text(Key::TargetCountSuffix, setting.language()),
{
    let mut s = decimal_string(count as u64);
    s.append(" ");
    s.append(t(setting, Key::TargetCountSuffix));
    s
}

/// The position of the first line feed in `s`, or its length.
pub open spec fn line_end(s: Seq<char>) -> int
    decreases s.len(),
{
    if s.len() == 0 {
        0
    } else if s[0] == '\n' {
        0
    } else {
        1 + line_end(s.skip(1))
    }
}

/// The lines of `s`, as `str::lines` splits them: at each line feed, with a
/// carriage return just before it removed; a final line feed ends the last
/// line and starts none.
pub open spec fn lines_of(s: Seq<char>) -> Seq<Seq<char>>
    decreases s.len(),
{
    if s.len() == 0 {
        Seq::empty()
    } else {
        let e = line_end(s);
        if e >= s.len() {
            seq![s]
        } else {
            let line = s.take(e);
            let line = if line.len() > 0 && line.last() == '\r' {
                line.drop_last()
            } else {
                line
            };
            proof {
                lemma_line_end(s);
            }
            seq![line] + lines_of(s.skip(e + 1))
        }
    }
}

/// `parts` joined with `sep` between them.
pub open spec fn joined(parts: Seq<Seq<char>>, sep: Seq<char>) -> Seq<char>
    decreases parts.len(),
{
    if parts.len() == 0 {
        Seq::empty()
    } else if parts.len() == 1 {
        parts[0]
    } else {
        joined(parts.drop_last(), sep) + sep + parts.last()
    }
}

/// The first three lines of the advice on system processes, joined with
/// ` | `: the short form shown in a message.
pub open spec fn guide_summary_text(setting: LanguageSetting) -> Seq<char> {
    let lines = lines_of(text(Key::SystemGuideText, setting.language()));
    joined(lines.take(if lines.len() < 3 { lines.len() as int } else { 3 }), " | "@)
}

/// Where the first line ends: no line feed before, a line feed at it.
pub proof fn lemma_line_end(s: Seq<char>)
    ensures
        0 <= line_end(s) <= s.len(),
        forall|i: int| 0 <= i < line_end(s) ==> s[i] != '\n',
        line_end(s) < s.len() ==> s[line_end(s)] == '\n',
    decreases s.len(),
{
    if s.len() > 0 && s[0] != '\n' {
        lemma_line_end(s.skip(1));
        assert forall|i: int| 0 <= i < line_end(s) implies s[i] != '\n' by {
            if i > 0 {
                assert(s.skip(1)[i - 1] == s[i]);
            }
        }
    }
}

proof fn lemma_line_end_at(s: Seq<char>, e: int)
    requires
        0 <= e <= s.len(),
        forall|i: int| 0 <= i < e ==> s[i] != '\n',
        e < s.len() ==> s[e] == '\n',
    ensures
        line_end(s) == e,
    decreases s.len(),
{
    if s.len() > 0 && s[0] != '\n' {
        lemma_line_end_at(s.skip(1), e - 1);
    }
}

/// The first `k` lines of `s` (all of them when there are fewer), joined
/// with `sep`.
fn first_lines_joined(s: &str, k: usize, sep: &str) -> (r: String)
    ensures
        r@ == joined(lines_of(s@).take(if lines_of(s@).len() < k { lines_of(s@).len() as int } else { k as int }), sep@),
{
    let cs = chars_of(s);
    let mut out = String::new();
    let mut pos: usize = 0;
    let mut taken: usize = 0;
    let ghost mut lines: Seq<Seq<char>> = Seq::empty();
    assert(cs@.skip(0) =~= s@);
    while pos < cs.len() && taken < k
        invariant
            cs@ == s@,
            pos <= cs@.len(),
            taken <= k,
            taken == lines.len(),
            lines_of(s@) == lines + lines_of(cs@.skip(pos as int)),
            out@ == joined(lines, sep@),
        decreases cs@.len() - pos,
    {
        let ghost rest = cs@.skip(pos as int);
        let mut end: usize = pos;
        while end < cs.len() && cs[end] != '\n'
            invariant
                pos <= end <= cs@.len(),
                forall|i: int| pos <= i < end ==> cs@[i] != '\n',
            decreases cs@.len() - end,
        {
            end = end + 1;
        }
        proof {
            lemma_line_end_at(rest, end - pos);
        }
        let mut stop: usize = end;
        if end < cs.len() && stop > pos && cs[stop - 1] == '\r' {
            stop = stop - 1;
        }
        let ghost line = if end < cs@.len() {
            let l = rest.take(end - pos);
            if l.len() > 0 && l.last() == '\r' {
                l.drop_last()
            } else {
                l
            }
        } else {
            rest
        };
        assert(line =~= cs@.subrange(pos as int, stop as int));
        if taken > 0 {
            out.append(sep);
        }
        let mut i: usize = pos;
        let ghost before = out@;
        while i < stop
            invariant
                pos <= i <= stop <= cs@.len(),
                out@ == before + cs@.subrange(pos as int, i as int),
            decreases stop - i,
        {
            push_char(&mut out, cs[i]);
            i = i + 1;
            assert(out@ =~= before + cs@.subrange(pos as int, i as int));
        }
        proof {
            let new_lines = lines.push(line);
            assert(new_lines.drop_last() =~= lines);
            if taken > 0 {
                assert(out@ =~= joined(lines, sep@) + sep@ + line);
            } else {
                assert(lines.len() == 0);
                assert(out@ =~= line);
            }
            if end < cs@.len() {
                assert(rest.skip(end - pos + 1) =~= cs@.skip(end + 1));
                assert(lines_of(rest) == seq![line] + lines_of(cs@.skip(end + 1)));
                assert(lines + lines_of(rest) =~= new_lines + lines_of(cs@.skip(end + 1)));
            } else {
                assert(cs@.skip(cs@.len() as int) =~= Seq::<char>::empty());
                assert(lines_of(rest) == seq![line]);
                assert(lines + lines_of(rest) =~= new_lines + lines_of(cs@.skip(cs@.len() as int)));
            }
            lines = new_lines;
        }
        pos = if end < cs.len() {
            end + 1
        } else {
            end
        };
        taken = taken + 1;
    }
    proof {
        let all = lines_of(s@);
        let n = if all.len() < k { all.len() as int } else { k as int };
        if taken < k {
            assert(pos >= cs@.len());
            assert(cs@.skip(pos as int) =~= Seq::<char>::empty());
            assert(all =~= lines);
        } else {
            assert(all.take(k as int) =~= lines);
        }
        assert(all.take(n) =~= lines);
    }
    out
}

/// The first three lines of the advice on system processes, joined with
/// ` | `.
pub fn guide_summary(setting: &LanguageSetting) -> (s: String)
    ensures
        s@ == guide_summary_text(*setting),
{
    first_lines_joined(t(setting, Key::SystemGuideText), 3, " | ")
}

} // verus!
