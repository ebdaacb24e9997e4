//! Lock detection: the records of the processes that hold a target, and how
//! the Restart Manager's answers, with what can be read of each process, are
//! turned into them.
//!
//! - `enumerate`: the paths registered for a target.
//! - `restart_manager`: the Restart Manager interface and its raw results.

use vstd::prelude::*;

pub mod asked;
pub mod enumerate;
pub mod restart_manager;

use crate::error::{RmError, ScanFailure, rm_error_text};
use crate::process_info::{ProcessSnapshot, filetime_ticks, filetime_value};
use crate::sys_classifier::{PartialRecord, in_system_dir, is_service_sid, is_system_process, is_system_spec};
use asked::RecordedRm;
use restart_manager::{RestartManagerApi, RmProcessInfo};

verus! {

/// The kind of application that holds a file, after the Restart Manager's
/// `RM_APP_TYPE`.
#[derive(Clone, Copy, Debug, PartialEq, Eq, Structural)]
pub enum AppType {
    /// A desktop application with a window.
    Application,
    /// A Windows service.
    Service,
    /// A console program.
    Console,
    /// A critical system process.
    Critical,
    /// Anything else.
    Unknown,
}

/// One process that holds a target.
#[derive(Clone, Debug)]
pub struct ProcessRecord {
    pub pid: u32,
    /// The process name, without directory (such as `explorer.exe`).
    pub name: String,
    /// The full path of the executable, when it could be read.
    pub image_path: Option<String>,
    /// For a folder, the first registered path (the folder itself, then its
    /// children in order) that this process holds.
    pub locked_subpath: Option<String>,
    /// How many of the registered paths this process holds.
    pub locked_subitem_count: u32,
    /// The process start time (100 ns units since 1601-01-01), when known;
    /// it tells a reused process id apart.
    pub start_time: Option<i64>,
    pub app_type: AppType,
    /// Whether the process is a system process, which is never terminated.
    pub is_system: bool,
    /// The owner's SID (such as `S-1-5-18`), when it could be read.
    pub user_sid: Option<String>,
    /// The owner's account (such as `NT AUTHORITY\SYSTEM`), when it could be read.
    pub user_account: Option<String>,
}

/// One answer of the Restart Manager before answers for the same process are
/// merged.
#[derive(Debug)]
pub struct RawRecord {
    pub pid: u32,
    pub name: String,
    pub image_path: Option<String>,
    pub start_time: Option<i64>,
    pub app_type: AppType,
    pub is_system: bool,
    pub user_sid: Option<String>,
    pub user_account: Option<String>,
    /// The registered path that the answer is about (each path is scanned
    /// in a session of its own, so every answer is about one path).
    pub matched_path: Option<String>,
}

/// Whether some registered path has the characters `p`.
pub open spec fn is_registered(registered: Seq<String>, p: Seq<char>) -> bool {
    exists|j: int| 0 <= j < registered.len() && registered[j]@ == p
}

/// The path that a raw answer contributes as the locked sub-path: its matched
/// path, for a folder and when that path is registered; nothing otherwise.
pub open spec fn contributed_path(r: RawRecord, registered: Seq<String>, is_dir: bool) -> Option<
    String,
> {
    match r.matched_path {
        Some(p) => if is_dir && is_registered(registered, p@) {
            Some(p)
        } else {
            None
        },
        None => None,
    }
}

/// How many answers in `s` are about the process `pid`.
pub open spec fn pid_count(s: Seq<RawRecord>, pid: u32) -> nat
    decreases s.len(),
{
    if s.len() == 0 {
        0
    } else {
        pid_count(s.drop_last(), pid) + if s.last().pid == pid {
            1nat
        } else {
            0nat
        }
    }
}

/// The position of the first answer in `s` about `pid`, or -1.
pub open spec fn first_with_pid(s: Seq<RawRecord>, pid: u32) -> int
    decreases s.len(),
{
    if s.len() == 0 {
        -1
    } else if first_with_pid(s.drop_last(), pid) >= 0 {
        first_with_pid(s.drop_last(), pid)
    } else if s.last().pid == pid {
        s.len() - 1
    } else {
        -1
    }
}

/// The first sub-path contributed by an answer in `s` about `pid`.
pub open spec fn first_subpath(s: Seq<RawRecord>, pid: u32, registered: Seq<String>, is_dir: bool) -> Option<String>
    decreases s.len(),
{
    if s.len() == 0 {
        None
    } else if first_subpath(s.drop_last(), pid, registered, is_dir) is Some {
        first_subpath(s.drop_last(), pid, registered, is_dir)
    } else if s.last().pid == pid {
        contributed_path(s.last(), registered, is_dir)
    } else {
        None
    }
}

/// The merged record of the process `pid`: the fields of its first answer,
/// the number of its answers, and its first contributed sub-path.
pub open spec fn merged_record(s: Seq<RawRecord>, pid: u32, registered: Seq<String>, is_dir: bool) -> ProcessRecord {
    let r = s[first_with_pid(s, pid)];
    ProcessRecord {
        pid: pid,
        name: r.name,
        image_path: r.image_path,
        locked_subpath: first_subpath(s, pid, registered, is_dir),
        locked_subitem_count: pid_count(s, pid) as u32,
        start_time: r.start_time,
        app_type: r.app_type,
        is_system: r.is_system,
        user_sid: r.user_sid,
        user_account: r.user_account,
    }
}

/// `out` is the merge of `raw`: one record per process id that occurs in
/// `raw`, in increasing order of process id, each the merged record of its id.
pub open spec fn is_merge_of(out: Seq<ProcessRecord>, raw: Seq<RawRecord>, registered: Seq<String>, is_dir: bool) -> bool {
    &&& forall|i: int, j: int| 0 <= i < j < out.len() ==> out[i].pid < out[j].pid
    &&& forall|i: int|
        0 <= i < out.len() ==> first_with_pid(raw, #[trigger] out[i].pid) >= 0 && out[i]
            == merged_record(raw, out[i].pid, registered, is_dir)
    &&& forall|k: int|
        0 <= k < raw.len() ==> exists|i: int| 0 <= i < out.len() && out[i].pid == #[trigger] raw[k].pid
}

proof fn lemma_pid_count_bound(s: Seq<RawRecord>, pid: u32)
    ensures
        pid_count(s, pid) <= s.len(),
    decreases s.len(),
{
    if s.len() > 0 {
        lemma_pid_count_bound(s.drop_last(), pid);
    }
}

proof fn lemma_first_with_pid(s: Seq<RawRecord>, pid: u32)
    ensures
        first_with_pid(s, pid) >= 0 ==> first_with_pid(s, pid) < s.len() && s[first_with_pid(s, pid)].pid == pid,
        first_with_pid(s, pid) < 0 ==> first_with_pid(s, pid) == -1 && forall|k: int| 0 <= k < s.len() ==> s[k].pid != pid,
        first_with_pid(s, pid) < 0 <==> pid_count(s, pid) == 0,
        first_subpath(s, pid, Seq::empty(), false) is None,
    decreases s.len(),
{
    if s.len() > 0 {
        lemma_first_with_pid(s.drop_last(), pid);
        assert forall|k: int| 0 <= k < s.len() - 1 implies s[k] == s.drop_last()[k] by {}
    }
}

/// Whether `p` is one of `registered`.
fn registered_contains(registered: &[String], p: &String) -> (b: bool)
    ensures
        b == is_registered(registered@, p@),
{
    let mut j: usize = 0;
    while j < registered.len()
        invariant
            j <= registered@.len(),
            forall|k: int| 0 <= k < j ==> registered@[k]@ != p@,
        decreases registered@.len() - j,
    {
        if registered[j] == *p {
            return true;
        }
        j = j + 1;
    }
    false
}

/// The position of the first record in `out` whose process id is not below
/// `pid` (`out.len()` when there is none).
fn position_for(out: &Vec<ProcessRecord>, pid: u32) -> (idx: usize)
    requires
        forall|i: int, j: int| 0 <= i < j < out@.len() ==> out@[i].pid < out@[j].pid,
    ensures
        idx <= out@.len(),
        forall|i: int| 0 <= i < idx ==> out@[i].pid < pid,
        idx < out@.len() ==> out@[idx as int].pid >= pid,
{
    let mut idx: usize = 0;
    while idx < out.len()
        invariant
            idx <= out@.len(),
            forall|i: int| 0 <= i < idx ==> out@[i].pid < pid,
        decreases out@.len() - idx,
    {
        if out[idx].pid >= pid {
            return idx;
        }
        idx = idx + 1;
    }
    idx
}

/// Adds one answer to the records merged so far.
fn merge_one(out: &mut Vec<ProcessRecord>, rec: RawRecord, registered_paths: &[String], is_dir: bool, Ghost(before): Ghost<Seq<RawRecord>>)
    requires
        is_merge_of(old(out)@, before, registered_paths@, is_dir),
        before.len() < u32::MAX,
    ensures
        is_merge_of(final(out)@, before.push(rec), registered_paths@, is_dir),
{
    let ghost reg = registered_paths@;
    let ghost after = before.push(rec);
    let ghost old_out = out@;
    assert(after.drop_last() =~= before);
    assert(after.last() == rec);
    let RawRecord {
        pid,
        name,
        image_path,
        start_time,
        app_type,
        is_system,
        user_sid,
        user_account,
        matched_path,
    } = rec;
    let matched: Option<String> = if is_dir {
        match matched_path {
            Some(p) => if registered_contains(registered_paths, &p) {
                Some(p)
            } else {
                None
            },
            None => None,
        }
    } else {
        None
    };
    assert(matched == contributed_path(rec, reg, is_dir));
    proof {
        lemma_pid_count_bound(before, pid);
        lemma_first_with_pid(before, pid);
    }
    let idx = position_for(out, pid);
    if idx < out.len() && out[idx].pid == pid {
        let mut r = out.remove(idx);
        proof {
            lemma_pid_count_bound(after, pid);
        }
        r.locked_subitem_count = r.locked_subitem_count + 1;
        if r.locked_subpath.is_none() {
            r.locked_subpath = matched;
        }
        assert(r == merged_record(after, pid, reg, is_dir));
        out.insert(idx, r);
        proof {
            assert(out@ =~= old_out.update(idx as int, r));
            lemma_merge_update(old_out, before, rec, idx as int, r, reg, is_dir);
        }
    } else {
        let r = ProcessRecord {
            pid,
            name,
            image_path,
            locked_subpath: matched,
            locked_subitem_count: 1,
            start_time,
            app_type,
            is_system,
            user_sid,
            user_account,
        };
        proof {
            if first_with_pid(before, pid) >= 0 {
                let k = first_with_pid(before, pid);
                let a = choose|a: int| 0 <= a < old_out.len() && old_out[a].pid == #[trigger] before[k].pid;
                if a < idx {
                } else if a > idx {
                    assert(old_out[idx as int].pid < old_out[a].pid);
                }
            }
            assert(first_with_pid(before, pid) < 0);
            lemma_no_pid_no_subpath(before, pid, reg, is_dir);
        }
        assert(r == merged_record(after, pid, reg, is_dir));
        out.insert(idx, r);
        proof {
            assert(out@ =~= old_out.insert(idx as int, r));
            lemma_merge_insert(old_out, before, rec, idx as int, r, reg, is_dir);
        }
    }
}

proof fn lemma_merge_update(old_out: Seq<ProcessRecord>, before: Seq<RawRecord>, rec: RawRecord, idx: int, r: ProcessRecord, reg: Seq<String>, is_dir: bool)
    requires
        is_merge_of(old_out, before, reg, is_dir),
        0 <= idx < old_out.len(),
        old_out[idx].pid == rec.pid,
        r == merged_record(before.push(rec), rec.pid, reg, is_dir),
    ensures
        is_merge_of(old_out.update(idx, r), before.push(rec), reg, is_dir),
{
    let after = before.push(rec);
    let out = old_out.update(idx, r);
    assert(after.drop_last() =~= before);
    lemma_first_with_pid(after, rec.pid);
    assert(after[after.len() - 1].pid == rec.pid);
    assert forall|a: int| 0 <= a < out.len() implies first_with_pid(after, #[trigger] out[a].pid)
        >= 0 && out[a] == merged_record(after, out[a].pid, reg, is_dir) by {
        if a != idx {
            assert(old_out[a].pid != rec.pid);
            lemma_merged_other(after, old_out[a].pid, reg, is_dir);
        }
    }
    assert forall|k: int| 0 <= k < after.len() implies exists|a: int|
        0 <= a < out.len() && out[a].pid == #[trigger] after[k].pid by {
        if k < before.len() {
            assert(after[k] == before[k]);
            let a = choose|a: int| 0 <= a < old_out.len() && old_out[a].pid == before[k].pid;
            assert(out[a].pid == old_out[a].pid);
        } else {
            assert(out[idx].pid == after[k].pid);
        }
    }
}

proof fn lemma_merge_insert(old_out: Seq<ProcessRecord>, before: Seq<RawRecord>, rec: RawRecord, idx: int, r: ProcessRecord, reg: Seq<String>, is_dir: bool)
    requires
        is_merge_of(old_out, before, reg, is_dir),
        0 <= idx <= old_out.len(),
        forall|i: int| 0 <= i < idx ==> old_out[i].pid < rec.pid,
        idx < old_out.len() ==> old_out[idx].pid > rec.pid,
        r.pid == rec.pid,
        r == merged_record(before.push(rec), rec.pid, reg, is_dir),
    ensures
        is_merge_of(old_out.insert(idx, r), before.push(rec), reg, is_dir),
{
    let after = before.push(rec);
    let out = old_out.insert(idx, r);
    assert(after.drop_last() =~= before);
    lemma_first_with_pid(after, rec.pid);
    assert(after[after.len() - 1].pid == rec.pid);
    assert forall|a: int| 0 <= a < out.len() implies first_with_pid(after, #[trigger] out[a].pid)
        >= 0 && out[a] == merged_record(after, out[a].pid, reg, is_dir) by {
        if a < idx {
            assert(out[a] == old_out[a]);
            lemma_merged_other(after, old_out[a].pid, reg, is_dir);
        } else if a > idx {
            assert(out[a] == old_out[a - 1]);
            lemma_merged_other(after, old_out[a - 1].pid, reg, is_dir);
        }
    }
    assert forall|k: int| 0 <= k < after.len() implies exists|a: int|
        0 <= a < out.len() && out[a].pid == #[trigger] after[k].pid by {
        if k < before.len() {
            assert(after[k] == before[k]);
            let a = choose|a: int| 0 <= a < old_out.len() && old_out[a].pid == before[k].pid;
            if a < idx {
                assert(out[a].pid == old_out[a].pid);
            } else {
                assert(out[a + 1].pid == old_out[a].pid);
            }
        } else {
            assert(out[idx].pid == after[k].pid);
        }
    }
}

/// Merges the answers about the same process into one record.
///
/// - `locked_subitem_count` is the number of answers about the process;
/// - `locked_subpath` is, for a folder, the first matched path that is
///   registered; for a file it is always `None`;
/// - the other fields are those of the first answer about the process;
/// - the records come in increasing order of process id.
pub fn merge_process_records(raw: Vec<RawRecord>, registered_paths: &[String], is_dir: bool) -> (out: Vec<ProcessRecord>)
    requires
        raw@.len() <= u32::MAX,
    ensures
        is_merge_of(out@, raw@, registered_paths@, is_dir),
{
    let ghost all = raw@;
    let mut rest = raw;
    let mut out: Vec<ProcessRecord> = Vec::new();
    let mut i: usize = 0;
    let n = rest.len();
    assert(all.skip(0) =~= all);
    assert(all.take(0) =~= Seq::<RawRecord>::empty());
    while rest.len() > 0
        invariant
            n == all.len(),
            n <= u32::MAX,
            i <= n,
            rest@ == all.skip(i as int),
            is_merge_of(out@, all.take(i as int), registered_paths@, is_dir),
        decreases rest@.len(),
    {
        let rec = rest.remove(0);
        assert(rec == all[i as int]);
        assert(all.take(i + 1) =~= all.take(i as int).push(rec));
        merge_one(&mut out, rec, registered_paths, is_dir, Ghost(all.take(i as int)));
        i = i + 1;
        assert(rest@ =~= all.skip(i as int));
    }
    assert(all.take(n as int) =~= all);
    out
}

/// Appending an answer about another process leaves a merged record as it was.
proof fn lemma_merged_other(s: Seq<RawRecord>, q: u32, registered: Seq<String>, is_dir: bool)
    requires
        s.len() > 0,
        s.last().pid != q,
        first_with_pid(s.drop_last(), q) >= 0,
    ensures
        first_with_pid(s, q) == first_with_pid(s.drop_last(), q),
        merged_record(s, q, registered, is_dir) == merged_record(s.drop_last(), q, registered, is_dir),
{
    lemma_first_with_pid(s.drop_last(), q);
    let k = first_with_pid(s.drop_last(), q);
    assert(s[k] == s.drop_last()[k]);
}

proof fn lemma_no_pid_no_subpath(s: Seq<RawRecord>, pid: u32, registered: Seq<String>, is_dir: bool)
    requires
        first_with_pid(s, pid) < 0,
    ensures
        first_subpath(s, pid, registered, is_dir) is None,
    decreases s.len(),
{
    if s.len() > 0 {
        lemma_no_pid_no_subpath(s.drop_last(), pid, registered, is_dir);
    }
}

/// The sum of the locked sub-item counts of `out`.
pub open spec fn total_count(out: Seq<ProcessRecord>) -> int
    decreases out.len(),
{
    if out.len() == 0 {
        0
    } else {
        total_count(out.drop_last()) + out.last().locked_subitem_count
    }
}

/// The sum, over the process ids `ps`, of the number of answers in `raw`
/// about each.
spec fn answers_about(raw: Seq<RawRecord>, ps: Seq<u32>) -> int
    decreases ps.len(),
{
    if ps.len() == 0 {
        0
    } else {
        answers_about(raw, ps.drop_last()) + pid_count(raw, ps.last())
    }
}

/// How many times `x` occurs in `ps`.
spec fn occurrences(ps: Seq<u32>, x: u32) -> int
    decreases ps.len(),
{
    if ps.len() == 0 {
        0
    } else {
        occurrences(ps.drop_last(), x) + if ps.last() == x {
            1int
        } else {
            0int
        }
    }
}

proof fn lemma_answers_about_push(raw: Seq<RawRecord>, r: RawRecord, ps: Seq<u32>)
    ensures
        answers_about(raw.push(r), ps) == answers_about(raw, ps) + occurrences(ps, r.pid),
    decreases ps.len(),
{
    if ps.len() > 0 {
        lemma_answers_about_push(raw, r, ps.drop_last());
        assert(raw.push(r).drop_last() =~= raw);
    }
}

proof fn lemma_answers_about_empty(ps: Seq<u32>)
    ensures
        answers_about(Seq::empty(), ps) == 0,
    decreases ps.len(),
{
    if ps.len() > 0 {
        lemma_answers_about_empty(ps.drop_last());
    }
}

proof fn lemma_occurrences_distinct(ps: Seq<u32>, x: u32)
    requires
        forall|i: int, j: int| 0 <= i < j < ps.len() ==> ps[i] != ps[j],
    ensures
        occurrences(ps, x) == if ps.contains(x) {
            1int
        } else {
            0int
        },
    decreases ps.len(),
{
    if ps.len() > 0 {
        let q = ps.drop_last();
        assert forall|i: int, j: int| 0 <= i < j < q.len() implies q[i] != q[j] by {
            assert(q[i] == ps[i] && q[j] == ps[j]);
        }
        lemma_occurrences_distinct(q, x);
        if q.contains(x) {
            let i = choose|i: int| 0 <= i < q.len() && q[i] == x;
            assert(ps[i] == x);
            assert(ps.last() != x);
        } else if ps.last() == x {
            assert(ps[ps.len() - 1] == x);
        } else {
            assert forall|i: int| 0 <= i < ps.len() implies ps[i] != x by {
                if i < ps.len() - 1 {
                    assert(ps[i] == q[i]);
                }
            }
        }
    }
}

proof fn lemma_answers_about_all(raw: Seq<RawRecord>, ps: Seq<u32>)
    requires
        forall|i: int, j: int| 0 <= i < j < ps.len() ==> ps[i] != ps[j],
        forall|k: int| 0 <= k < raw.len() ==> ps.contains(#[trigger] raw[k].pid),
    ensures
        answers_about(raw, ps) == raw.len(),
    decreases raw.len(),
{
    if raw.len() == 0 {
        lemma_answers_about_empty(ps);
        assert(raw =~= Seq::<RawRecord>::empty());
    } else {
        let rest = raw.drop_last();
        assert forall|k: int| 0 <= k < rest.len() implies ps.contains(#[trigger] rest[k].pid) by {
            assert(rest[k] == raw[k]);
        }
        lemma_answers_about_all(rest, ps);
        lemma_answers_about_push(rest, raw.last(), ps);
        assert(rest.push(raw.last()) =~= raw);
        assert(ps.contains(raw[raw.len() - 1].pid));
        lemma_occurrences_distinct(ps, raw.last().pid);
    }
}

proof fn lemma_total_is_answers(out: Seq<ProcessRecord>, raw: Seq<RawRecord>)
    requires
        raw.len() <= u32::MAX,
        forall|i: int| 0 <= i < out.len() ==> #[trigger] out[i].locked_subitem_count == pid_count(raw, out[i].pid),
    ensures
        total_count(out) == answers_about(raw, out.map_values(|r: ProcessRecord| r.pid)),
    decreases out.len(),
{
    if out.len() > 0 {
        let q = out.drop_last();
        assert forall|i: int| 0 <= i < q.len() implies #[trigger] q[i].locked_subitem_count == pid_count(raw, q[i].pid) by {
            assert(q[i] == out[i]);
        }
        lemma_total_is_answers(q, raw);
        assert(out.map_values(|r: ProcessRecord| r.pid).drop_last() =~= q.map_values(|r: ProcessRecord| r.pid));
        assert(out[out.len() - 1].locked_subitem_count == pid_count(raw, out[out.len() - 1].pid));
    }
}

proof fn lemma_subpath_registered(s: Seq<RawRecord>, pid: u32, registered: Seq<String>, is_dir: bool)
    ensures
        first_subpath(s, pid, registered, is_dir) matches Some(p) ==> is_dir && is_registered(registered, p@),
    decreases s.len(),
{
    if s.len() > 0 {
        lemma_subpath_registered(s.drop_last(), pid, registered, is_dir);
    }
}

/// What merging keeps: every answer is counted once, so the counts of the
/// merged records add up to the number of answers; no two records share a
/// process id; and a locked sub-path is only ever set for a folder, and then
/// to one of the registered paths.
pub proof fn lemma_merge_invariants(out: Seq<ProcessRecord>, raw: Seq<RawRecord>, registered: Seq<String>, is_dir: bool)
    requires
        is_merge_of(out, raw, registered, is_dir),
        raw.len() <= u32::MAX,
    ensures
        total_count(out) == raw.len(),
        forall|i: int, j: int| 0 <= i < j < out.len() ==> out[i].pid != out[j].pid,
        forall|i: int|
            0 <= i < out.len() ==> (#[trigger] out[i].locked_subpath matches Some(p) ==> is_dir
                && is_registered(registered, p@)),
        !is_dir ==> forall|i: int| 0 <= i < out.len() ==> #[trigger] out[i].locked_subpath is None,
{
    let ps = out.map_values(|r: ProcessRecord| r.pid);
    assert forall|i: int| 0 <= i < out.len() implies #[trigger] out[i].locked_subitem_count == pid_count(raw, out[i].pid) by {
        lemma_pid_count_bound(raw, out[i].pid);
    }
    lemma_total_is_answers(out, raw);
    assert forall|k: int| 0 <= k < raw.len() implies ps.contains(#[trigger] raw[k].pid) by {
        let i = choose|i: int| 0 <= i < out.len() && out[i].pid == raw[k].pid;
        assert(ps[i] == raw[k].pid);
    }
    lemma_answers_about_all(raw, ps);
    assert forall|i: int| 0 <= i < out.len() implies (#[trigger] out[i].locked_subpath matches Some(p) ==> is_dir
        && is_registered(registered, p@)) by {
        lemma_subpath_registered(raw, out[i].pid, registered, is_dir);
    }
}

/// `f` is the position of the first answer in `raw` about `pid`.
pub open spec fn is_first_answer(raw: Seq<RawRecord>, f: int, pid: u32) -> bool {
    &&& 0 <= f < raw.len()
    &&& raw[f].pid == pid
    &&& forall|k: int| 0 <= k < f ==> (#[trigger] raw[k]).pid != pid
}

/// `sp` is the first matched path, among the answers in `raw` about `pid`
/// in their order, that is registered, for a folder (`is_dir`); and `None`
/// when there is none, or for a file.
pub open spec fn is_first_registered_match(raw: Seq<RawRecord>, pid: u32, registered: Seq<String>, is_dir: bool, sp: Option<String>) -> bool {
    match sp {
        Some(p) => exists|f: int|
            {
                &&& 0 <= f < raw.len()
                &&& raw[f].pid == pid
                &&& #[trigger] contributed_path(raw[f], registered, is_dir) == Some(p)
                &&& forall|k: int| 0 <= k < f && (#[trigger] raw[k]).pid == pid ==> contributed_path(raw[k], registered, is_dir) is None
            },
        None => forall|k: int| 0 <= k < raw.len() && (#[trigger] raw[k]).pid == pid ==> contributed_path(raw[k], registered, is_dir) is None,
    }
}

proof fn lemma_first_with_pid_is_first(s: Seq<RawRecord>, pid: u32)
    requires
        first_with_pid(s, pid) >= 0,
    ensures
        is_first_answer(s, first_with_pid(s, pid), pid),
    decreases s.len(),
{
    lemma_first_with_pid(s, pid);
    let d = s.drop_last();
    if first_with_pid(d, pid) >= 0 {
        lemma_first_with_pid_is_first(d, pid);
        assert forall|k: int| 0 <= k < first_with_pid(s, pid) implies (#[trigger] s[k]).pid != pid by {
            assert(s[k] == d[k]);
        }
    } else {
        lemma_first_with_pid(d, pid);
        assert forall|k: int| 0 <= k < first_with_pid(s, pid) implies (#[trigger] s[k]).pid != pid by {
            assert(s[k] == d[k]);
        }
    }
}

proof fn lemma_first_subpath_is_first(s: Seq<RawRecord>, pid: u32, registered: Seq<String>, is_dir: bool)
    ensures
        is_first_registered_match(s, pid, registered, is_dir, first_subpath(s, pid, registered, is_dir)),
    decreases s.len(),
{
    if s.len() > 0 {
        let d = s.drop_last();
        lemma_first_subpath_is_first(d, pid, registered, is_dir);
        let n = s.len() - 1;
        match first_subpath(d, pid, registered, is_dir) {
            Some(p) => {
                let f = choose|f: int|
                    {
                        &&& 0 <= f < d.len()
                        &&& d[f].pid == pid
                        &&& #[trigger] contributed_path(d[f], registered, is_dir) == Some(p)
                        &&& forall|k: int| 0 <= k < f && (#[trigger] d[k]).pid == pid ==> contributed_path(d[k], registered, is_dir) is None
                    };
                assert(s[f] == d[f]);
                assert forall|k: int| 0 <= k < f && (#[trigger] s[k]).pid == pid implies contributed_path(s[k], registered, is_dir) is None by {
                    assert(s[k] == d[k]);
                }
            },
            None => {
                assert forall|k: int| 0 <= k < n && (#[trigger] s[k]).pid == pid implies contributed_path(s[k], registered, is_dir) is None by {
                    assert(s[k] == d[k]);
                }
                if s.last().pid == pid && contributed_path(s.last(), registered, is_dir) is Some {
                    assert(contributed_path(s[n], registered, is_dir) == first_subpath(s, pid, registered, is_dir));
                }
            },
        }
    }
}

/// Merging keeps the first answer about each process: every merged record
/// has the name, image path, start time, application type, system flag and
/// owner of the first answer, in input order, about its process; and its
/// locked sub-path is, for a folder, the first matched path among that
/// process's answers that is registered, and `None` for a file.
pub proof fn lemma_merge_first_answer(out: Seq<ProcessRecord>, raw: Seq<RawRecord>, registered: Seq<String>, is_dir: bool)
    requires
        is_merge_of(out, raw, registered, is_dir),
    ensures
        forall|i: int|
            #![trigger out[i]]
            0 <= i < out.len() ==> exists|f: int|
                {
                    &&& #[trigger] is_first_answer(raw, f, out[i].pid)
                    &&& out[i].name == raw[f].name
                    &&& out[i].image_path == raw[f].image_path
                    &&& out[i].start_time == raw[f].start_time
                    &&& out[i].app_type == raw[f].app_type
                    &&& out[i].is_system == raw[f].is_system
                    &&& out[i].user_sid == raw[f].user_sid
                    &&& out[i].user_account == raw[f].user_account
                },
        forall|i: int|
            0 <= i < out.len() ==> is_first_registered_match(raw, out[i].pid, registered, is_dir, #[trigger] out[i].locked_subpath),
        !is_dir ==> forall|i: int| 0 <= i < out.len() ==> #[trigger] out[i].locked_subpath is None,
{
    assert forall|i: int| #![trigger out[i]] 0 <= i < out.len() implies exists|f: int|
        {
            &&& #[trigger] is_first_answer(raw, f, out[i].pid)
            &&& out[i].name == raw[f].name
            &&& out[i].image_path == raw[f].image_path
            &&& out[i].start_time == raw[f].start_time
            &&& out[i].app_type == raw[f].app_type
            &&& out[i].is_system == raw[f].is_system
            &&& out[i].user_sid == raw[f].user_sid
            &&& out[i].user_account == raw[f].user_account
        } by {
        let pid = out[i].pid;
        lemma_first_with_pid_is_first(raw, pid);
        let f = first_with_pid(raw, pid);
        assert(is_first_answer(raw, f, pid));
    }
    assert forall|i: int| 0 <= i < out.len() implies is_first_registered_match(raw, out[i].pid, registered, is_dir, #[trigger] out[i].locked_subpath) by {
        lemma_first_subpath_is_first(raw, out[i].pid, registered, is_dir);
    }
    assert forall|i: int| 0 <= i < out.len() && !is_dir implies #[trigger] out[i].locked_subpath is None by {
        lemma_subpath_registered(raw, out[i].pid, registered, is_dir);
    }
}

/// The image path that a snapshot read, if any.
pub open spec fn snapshot_image(snap: Option<ProcessSnapshot>) -> Option<String> {
    match snap {
        Some(s) => s.image_path,
        None => None,
    }
}

/// The owner's SID that a snapshot read, if any.
pub open spec fn snapshot_sid(snap: Option<ProcessSnapshot>) -> Option<String> {
    match snap {
        Some(s) => s.user_sid,
        None => None,
    }
}

/// The owner's account that a snapshot read, if any.
pub open spec fn snapshot_account(snap: Option<ProcessSnapshot>) -> Option<String> {
    match snap {
        Some(s) => s.user_account,
        None => None,
    }
}

/// What a scan tells of each process is what was read of it: every record
/// of a completed scan comes from the first answer `k` about its process,
/// and holds that answer's name, start time and application type and what
/// the snapshot `snaps[k]` read (image path, owner SID and account); and it
/// is flagged as a system process exactly when the three-layer
/// classification of its pid, name, image path and owner SID says so. In
/// particular a process run by a service account from the system
/// directories is always flagged. For a folder, its locked sub-path is
/// the path that this first answer was about; for a file there is none.
pub proof fn lemma_scan_records_as_read(
    infos: Seq<RmProcessInfo>,
    snaps: Seq<Option<ProcessSnapshot>>,
    index: Seq<usize>,
    paths: Seq<String>,
    is_dir: bool,
    windir: Seq<char>,
    out: Seq<ProcessRecord>,
)
    requires
        infos.len() == snaps.len(),
        infos.len() == index.len(),
        forall|k: int| 0 <= k < index.len() ==> (#[trigger] index[k]) < paths.len(),
        is_merge_of(out, raw_records(infos, snaps, index, paths, windir), paths, is_dir),
    ensures
        forall|i: int|
            #![trigger out[i]]
            0 <= i < out.len() ==> exists|k: int|
                {
                    &&& 0 <= k < infos.len()
                    &&& #[trigger] infos[k].pid == out[i].pid
                    &&& forall|j: int| 0 <= j < k ==> (#[trigger] infos[j]).pid != out[i].pid
                    &&& out[i].name == infos[k].app_name
                    &&& out[i].start_time == match infos[k].start_time {
                        Some(ft) => Some(filetime_ticks(ft)),
                        None => None,
                    }
                    &&& out[i].app_type == app_type_of(infos[k].app_type)
                    &&& out[i].image_path == snapshot_image(snaps[k])
                    &&& out[i].user_sid == snapshot_sid(snaps[k])
                    &&& out[i].user_account == snapshot_account(snaps[k])
            &&& out[i].locked_subpath == if is_dir {
                Some(paths[index[k] as int])
            } else {
                None
            }
                    &&& out[i].locked_subpath == if is_dir {
                        Some(paths[index[k] as int])
                    } else {
                        None
                    }
                    &&& out[i].is_system == is_system_spec(
                        PartialRecord {
                            pid: infos[k].pid,
                            name: infos[k].app_name,
                            image_path: snapshot_image(snaps[k]),
                            user_sid: snapshot_sid(snaps[k]),
                        },
                        windir,
                    )
                },
        forall|i: int|
            #![trigger out[i]]
            0 <= i < out.len() && (out[i].image_path matches Some(p) && in_system_dir(p@, windir))
                && (out[i].user_sid matches Some(sid) && is_service_sid(sid@)) ==> out[i].is_system,
{
    let raw = raw_records(infos, snaps, index, paths, windir);
    lemma_merge_first_answer(out, raw, paths, is_dir);
    assert forall|i: int| #![trigger out[i]] 0 <= i < out.len() implies exists|k: int|
        {
            &&& 0 <= k < infos.len()
            &&& #[trigger] infos[k].pid == out[i].pid
            &&& forall|j: int| 0 <= j < k ==> (#[trigger] infos[j]).pid != out[i].pid
            &&& out[i].name == infos[k].app_name
            &&& out[i].start_time == match infos[k].start_time {
                Some(ft) => Some(filetime_ticks(ft)),
                None => None,
            }
            &&& out[i].app_type == app_type_of(infos[k].app_type)
            &&& out[i].image_path == snapshot_image(snaps[k])
            &&& out[i].user_sid == snapshot_sid(snaps[k])
            &&& out[i].user_account == snapshot_account(snaps[k])
            &&& out[i].locked_subpath == if is_dir {
                Some(paths[index[k] as int])
            } else {
                None
            }
            &&& out[i].is_system == is_system_spec(
                PartialRecord {
                    pid: infos[k].pid,
                    name: infos[k].app_name,
                    image_path: snapshot_image(snaps[k]),
                    user_sid: snapshot_sid(snaps[k]),
                },
                windir,
            )
        } by {
        let f = choose|f: int|
            {
                &&& #[trigger] is_first_answer(raw, f, out[i].pid)
                &&& out[i].name == raw[f].name
                &&& out[i].image_path == raw[f].image_path
                &&& out[i].start_time == raw[f].start_time
                &&& out[i].app_type == raw[f].app_type
                &&& out[i].is_system == raw[f].is_system
                &&& out[i].user_sid == raw[f].user_sid
                &&& out[i].user_account == raw[f].user_account
            };
        assert(raw[f] == raw_record_of(infos[f], snaps[f], paths[index[f] as int], windir));
        assert forall|j: int| 0 <= j < f implies (#[trigger] infos[j]).pid != out[i].pid by {
            assert(raw[j].pid == infos[j].pid);
        }
        lemma_first_subpath_is_first(raw, out[i].pid, paths, is_dir);
        assert(out[i].locked_subpath == first_subpath(raw, out[i].pid, paths, is_dir));
        if is_dir {
            assert(is_registered(paths, paths[index[f] as int]@));
            assert(contributed_path(raw[f], paths, is_dir) == Some(paths[index[f] as int]));
            let sp = out[i].locked_subpath;
            if sp is Some {
                let g = choose|g: int|
                    {
                        &&& 0 <= g < raw.len()
                        &&& raw[g].pid == out[i].pid
                        &&& #[trigger] contributed_path(raw[g], paths, is_dir) == sp
                        &&& forall|k: int| 0 <= k < g && (#[trigger] raw[k]).pid == out[i].pid ==> contributed_path(raw[k], paths, is_dir) is None
                    };
                if g > f {
                    assert(raw[f].pid == out[i].pid);
                } else if g < f {
                    assert(raw[g].pid == infos[g].pid);
                }
            } else {
                assert(raw[f].pid == out[i].pid);
            }
        }
    }
    assert forall|i: int| #![trigger out[i]]
        0 <= i < out.len() && (out[i].image_path matches Some(p) && in_system_dir(p@, windir))
            && (out[i].user_sid matches Some(sid) && is_service_sid(sid@)) implies out[i].is_system by {
        let f = choose|f: int|
            {
                &&& #[trigger] is_first_answer(raw, f, out[i].pid)
                &&& out[i].name == raw[f].name
                &&& out[i].image_path == raw[f].image_path
                &&& out[i].start_time == raw[f].start_time
                &&& out[i].app_type == raw[f].app_type
                &&& out[i].is_system == raw[f].is_system
                &&& out[i].user_sid == raw[f].user_sid
                &&& out[i].user_account == raw[f].user_account
            };
        assert(raw[f] == raw_record_of(infos[f], snaps[f], paths[index[f] as int], windir));
    }
}

/// The `AppType` of a Restart Manager `RM_APP_TYPE` value: 1, 2 and 4 (main
/// window, other window, Explorer) are applications, 3 services, 5 consoles,
/// 1000 critical processes, and anything else unknown.
pub open spec fn app_type_of(rm_type: u32) -> AppType {
    if rm_type == 1 || rm_type == 2 || rm_type == 4 {
        AppType::Application
    } else if rm_type == 3 {
        AppType::Service
    } else if rm_type == 5 {
        AppType::Console
    } else if rm_type == 1000 {
        AppType::Critical
    } else {
        AppType::Unknown
    }
}

/// The `AppType` of a Restart Manager `RM_APP_TYPE` value.
pub fn map_app_type(rm_type: u32) -> (t: AppType)
    ensures
        t == app_type_of(rm_type),
{
    match rm_type {
        1 | 2 | 4 => AppType::Application,
        3 => AppType::Service,
        5 => AppType::Console,
        1000 => AppType::Critical,
        _ => AppType::Unknown,
    }
}

/// The failure that reaches the interface for a failed Restart Manager
/// scan: access denied and missing paths keep their kind, anything else
/// becomes `Other` with the error's text.
pub open spec fn scan_failure_for(e: RmError, f: ScanFailure) -> bool {
    match e {
        RmError::AccessDenied => f == ScanFailure::AccessDenied,
        RmError::PathNotFound => f == ScanFailure::PathNotFound,
        _ => f matches ScanFailure::Other(text) && text@ == rm_error_text(e),
    }
}

/// The failure that reaches the interface for a failed Restart Manager
/// scan.
pub fn scan_failure_from(e: RmError) -> (f: ScanFailure)
    ensures
        scan_failure_for(e, f),
{
    match e {
        RmError::AccessDenied => ScanFailure::AccessDenied,
        RmError::PathNotFound => ScanFailure::PathNotFound,
        other => ScanFailure::Other(other.to_string()),
    }
}

/// The raw record of one answer of the Restart Manager about the registered
/// path `path`, with what could be read of the process (`snap`) and the
/// Windows directory `windir`.
pub open spec fn raw_record_of(info: RmProcessInfo, snap: Option<ProcessSnapshot>, path: String, windir: Seq<char>) -> RawRecord {
    let image_path = match snap {
        Some(s) => s.image_path,
        None => None,
    };
    let user_sid = match snap {
        Some(s) => s.user_sid,
        None => None,
    };
    let user_account = match snap {
        Some(s) => s.user_account,
        None => None,
    };
    RawRecord {
        pid: info.pid,
        name: info.app_name,
        image_path,
        start_time: match info.start_time {
            Some(ft) => Some(filetime_ticks(ft)),
            None => None,
        },
        app_type: app_type_of(info.app_type),
        is_system: is_system_spec(
            PartialRecord { pid: info.pid, name: info.app_name, image_path, user_sid },
            windir,
        ),
        user_sid,
        user_account,
        matched_path: Some(path),
    }
}

/// The raw records of the answers `infos`, each with its snapshot and about
/// the registered path that `index` gives for it.
pub open spec fn raw_records(infos: Seq<RmProcessInfo>, snaps: Seq<Option<ProcessSnapshot>>, index: Seq<usize>, paths: Seq<String>, windir: Seq<char>) -> Seq<RawRecord> {
    Seq::new(infos.len(), |k: int| raw_record_of(infos[k], snaps[k], paths[index[k] as int], windir))
}

/// Turns one answer of the Restart Manager about `path` and its snapshot into
/// a raw record.
fn raw_record(info: RmProcessInfo, snap: Option<ProcessSnapshot>, path: &String, windir: &str) -> (r: RawRecord)
    ensures
        r == raw_record_of(info, snap, *path, windir@),
{
    let (image_path, user_sid, user_account) = match snap {
        Some(s) => (s.image_path, s.user_sid, s.user_account),
        None => (None, None, None),
    };
    let partial = PartialRecord {
        pid: info.pid,
        name: info.app_name.clone(),
        image_path: image_path.clone(),
        user_sid: user_sid.clone(),
    };
    let is_system = is_system_process(&partial, windir);
    let start_time = match info.start_time {
        Some(ft) => Some(filetime_value(ft)),
        None => None,
    };
    RawRecord {
        pid: info.pid,
        name: info.app_name,
        image_path,
        start_time,
        app_type: map_app_type(info.app_type),
        is_system,
        user_sid,
        user_account,
        matched_path: Some(path.clone()),
    }
}

/// The records of a completed scan: each answer, about the registered path
/// that `path_index` gives for it, with what could be read of its process,
/// becomes a raw record, and the raw records are merged by process.
pub fn records_from_scan(
    infos: Vec<RmProcessInfo>,
    snapshots: Vec<Option<ProcessSnapshot>>,
    path_index: Vec<usize>,
    paths: &[String],
    is_dir: bool,
    windir: &str,
) -> (out: Vec<ProcessRecord>)
    requires
        infos@.len() == snapshots@.len(),
        infos@.len() == path_index@.len(),
        infos@.len() <= u32::MAX,
        forall|k: int| 0 <= k < path_index@.len() ==> (#[trigger] path_index@[k]) < paths@.len(),
    ensures
        is_merge_of(out@, raw_records(infos@, snapshots@, path_index@, paths@, windir@), paths@, is_dir),
{
    let ghost all = raw_records(infos@, snapshots@, path_index@, paths@, windir@);
    let ghost is = infos@;
    let ghost ss = snapshots@;
    let mut infos = infos;
    let mut snapshots = snapshots;
    let mut raw: Vec<RawRecord> = Vec::new();
    let n = infos.len();
    let mut i: usize = 0;
    assert(is.skip(0) =~= is && ss.skip(0) =~= ss);
    while infos.len() > 0
        invariant
            n == is.len(),
            is.len() == ss.len(),
            i <= n,
            infos@ == is.skip(i as int),
            snapshots@ == ss.skip(i as int),
            all == raw_records(is, ss, path_index@, paths@, windir@),
            is.len() == path_index@.len(),
            forall|k: int| 0 <= k < path_index@.len() ==> (#[trigger] path_index@[k]) < paths@.len(),
            raw@ == all.take(i as int),
        decreases infos@.len(),
    {
        let info = infos.remove(0);
        let snap = snapshots.remove(0);
        let r = raw_record(info, snap, &paths[path_index[i]], windir);
        raw.push(r);
        i = i + 1;
        assert(raw@ =~= all.take(i as int));
        assert(infos@ =~= is.skip(i as int));
        assert(snapshots@ =~= ss.skip(i as int));
    }
    assert(all.take(n as int) =~= all);
    merge_process_records(raw, paths, is_dir)
}

/// The answers for each path, one after the other.
pub open spec fn concat_answers(per_path: Seq<Seq<RmProcessInfo>>) -> Seq<RmProcessInfo>
    decreases per_path.len(),
{
    if per_path.len() == 0 {
        Seq::empty()
    } else {
        concat_answers(per_path.drop_last()) + per_path.last()
    }
}

/// For each answer of `concat_answers(per_path)`, the position of the path
/// it is about.
pub open spec fn answer_index(per_path: Seq<Seq<RmProcessInfo>>) -> Seq<usize>
    decreases per_path.len(),
{
    if per_path.len() == 0 {
        Seq::empty()
    } else {
        answer_index(per_path.drop_last()) + Seq::new(
            per_path.last().len(),
            |k: int| (per_path.len() - 1) as usize,
        )
    }
}

/// The answers in `v`, as sequences.
pub open spec fn answer_seqs(v: Seq<Vec<RmProcessInfo>>) -> Seq<Seq<RmProcessInfo>> {
    v.map_values(|a: Vec<RmProcessInfo>| a@)
}

/// There is a position for every answer, each below the number of paths,
/// and they never go down.
pub proof fn lemma_answer_index(per_path: Seq<Seq<RmProcessInfo>>)
    requires
        per_path.len() <= usize::MAX,
    ensures
        answer_index(per_path).len() == concat_answers(per_path).len(),
        forall|k: int| 0 <= k < answer_index(per_path).len() ==> (#[trigger] answer_index(per_path)[k]) < per_path.len(),
        forall|k: int, l: int|
            0 <= k < l < answer_index(per_path).len() ==> answer_index(per_path)[k] <= answer_index(per_path)[l],
    decreases per_path.len(),
{
    if per_path.len() > 0 {
        lemma_answer_index(per_path.drop_last());
    }
}

/// The answers for each path (`per_path[j]` for the path `j`), put one
/// after the other, each with the position of the path it is about.
pub fn collect_answers(per_path: Vec<Vec<RmProcessInfo>>) -> (r: (Vec<RmProcessInfo>, Vec<usize>))
    ensures
        r.0@ == concat_answers(answer_seqs(per_path@)),
        r.1@ == answer_index(answer_seqs(per_path@)),
{
    let ghost all = answer_seqs(per_path@);
    let n = per_path.len();
    let mut rest = per_path;
    let mut infos: Vec<RmProcessInfo> = Vec::new();
    let mut index: Vec<usize> = Vec::new();
    let mut j: usize = 0;
    assert(all.take(0) =~= Seq::<Seq<RmProcessInfo>>::empty());
    assert(answer_seqs(rest@) =~= all.skip(0));
    while rest.len() > 0
        invariant
            n == all.len(),
            j <= n,
            answer_seqs(rest@) == all.skip(j as int),
            infos@ == concat_answers(all.take(j as int)),
            index@ == answer_index(all.take(j as int)),
        decreases rest@.len(),
    {
        let ghost rest_before = rest@;
        assert(answer_seqs(rest_before).len() == rest_before.len());
        assert(j < n);
        let mut answers = rest.remove(0);
        assert(answers@ == all[j as int]) by {
            assert(answer_seqs(rest_before)[0] == rest_before[0]@);
            assert(all.skip(j as int)[0] == all[j as int]);
        }
        let ghost before_index = index@;
        let m = answers.len();
        infos.append(&mut answers);
        let mut c: usize = 0;
        while c < m
            invariant
                c <= m,
                j < n,
                index@ == before_index + Seq::new(c as nat, |k: int| j),
            decreases m - c,
        {
            index.push(j);
            c = c + 1;
            assert(index@ =~= before_index + Seq::new(c as nat, |k: int| j));
        }
        proof {
            let taken = all.take(j + 1);
            assert(taken.drop_last() =~= all.take(j as int));
            assert(taken.last() == all[j as int]);
            assert(Seq::new(m as nat, |k: int| j) =~= Seq::new(taken.last().len(), |k: int| (taken.len() - 1) as usize));
        }
        j = j + 1;
        assert(answer_seqs(rest@) =~= all.skip(j as int)) by {
            assert(rest@ =~= rest_before.skip(1));
            assert(answer_seqs(rest_before) == all.skip(j - 1));
            assert forall|i: int| 0 <= i < rest@.len() implies answer_seqs(rest@)[i] == all.skip(j as int)[i] by {
                assert(answer_seqs(rest@)[i] == rest@[i]@);
                assert(rest@[i] == rest_before[i + 1]);
                assert(answer_seqs(rest_before)[i + 1] == rest_before[i + 1]@);
                assert(all.skip(j - 1)[i + 1] == all.skip(j as int)[i]);
            }
        }
    }
    assert(all.take(n as int) =~= all);
    (infos, index)
}

/// The answers `asked` to a scan of each of `paths` in turn, as sequences.
pub open spec fn asked_answers(asked: Seq<(Seq<String>, Result<Vec<RmProcessInfo>, RmError>)>) -> Seq<
    Seq<RmProcessInfo>,
> {
    Seq::new(asked.len(), |j: int| asked[j].1->Ok_0@)
}

/// The scans `asked` and the result `r` of asking about each of `paths` in
/// a scan of its own: the path `j` alone is asked about in the scan `j`;
/// every scan but the last succeeded; on success every path was asked
/// about, and the result is `collect_answers` of the answers; otherwise the
/// last scan failed and its error is the result.
pub open spec fn each_path_asked(
    paths: Seq<String>,
    asked: Seq<(Seq<String>, Result<Vec<RmProcessInfo>, RmError>)>,
    r: Result<(Vec<RmProcessInfo>, Vec<usize>), RmError>,
) -> bool {
    &&& asked.len() <= paths.len()
    &&& forall|j: int| 0 <= j < asked.len() ==> (#[trigger] asked[j]).0 == seq![paths[j]]
    &&& forall|j: int| 0 <= j < asked.len() - 1 ==> (#[trigger] asked[j]).1 is Ok
    &&& match r {
        Ok((infos, index)) => {
            &&& asked.len() == paths.len()
            &&& forall|j: int| 0 <= j < asked.len() ==> (#[trigger] asked[j]).1 is Ok
            &&& infos@ == concat_answers(asked_answers(asked))
            &&& index@ == answer_index(asked_answers(asked))
        },
        Err(e) => asked.len() >= 1 && asked.last().1 == Err::<Vec<RmProcessInfo>, RmError>(e),
    }
}

/// Asks the Restart Manager about each registered path in a scan of its
/// own, in order, so that every answer is known to be about one path; the
/// answers are put together by `collect_answers`, each with the position
/// of its path. The first failure is passed on, and with no path nothing is
/// asked and there is no answer.
pub fn scan_each_path<R: RestartManagerApi + ?Sized>(rm: &mut RecordedRm<R>, paths: &[String]) -> (r: Result<
    (Vec<RmProcessInfo>, Vec<usize>),
    RmError,
>)
    ensures
        exists|t: Seq<(Seq<String>, Result<Vec<RmProcessInfo>, RmError>)>|
            final(rm).asked() == old(rm).asked() + t && each_path_asked(paths@, t, r),
        paths@.len() == 0 ==> (r matches Ok((infos, index)) && infos@.len() == 0 && index@.len() == 0),
        r matches Ok((infos, index)) ==> {
            &&& infos@.len() == index@.len()
            &&& forall|k: int| 0 <= k < index@.len() ==> (#[trigger] index@[k]) < paths@.len()
            &&& forall|k: int, l: int| 0 <= k < l < index@.len() ==> index@[k] <= index@[l]
        },
{
    let ghost start = rm.asked();
    let ghost mut t: Seq<(Seq<String>, Result<Vec<RmProcessInfo>, RmError>)> = Seq::empty();
    let mut per_path: Vec<Vec<RmProcessInfo>> = Vec::new();
    let mut j: usize = 0;
    assert(answer_seqs(per_path@) =~= asked_answers(t));
    while j < paths.len()
        invariant
            j <= paths@.len(),
            t.len() == j,
            start == old(rm).asked(),
            rm.asked() == start + t,
            forall|i: int| 0 <= i < t.len() ==> (#[trigger] t[i]).0 == seq![paths@[i]] && t[i].1 is Ok,
            answer_seqs(per_path@) == asked_answers(t),
        decreases paths@.len() - j,
    {
        let one: Vec<String> = vec![paths[j].clone()];
        assert(one@ =~= seq![paths@[j as int]]);
        let answer = rm.scan(one.as_slice());
        let ghost old_t = t;
        proof {
            t = t.push((one@, answer));
        }
        assert(rm.asked() =~= start + t);
        match answer {
            Ok(a) => {
                let ghost before = per_path@;
                let ghost av = a@;
                assert(t.last().1 == Ok::<Vec<RmProcessInfo>, RmError>(a));
                assert(answer_seqs(before).len() == before.len());
                assert(asked_answers(old_t).len() == old_t.len());
                per_path.push(a);
                assert(per_path@ == before.push(a));
                assert forall|i: int| 0 <= i < t.len() implies answer_seqs(per_path@)[i] == asked_answers(t)[i] by {
                    assert(answer_seqs(per_path@)[i] == per_path@[i]@);
                    assert(asked_answers(t)[i] == t[i].1->Ok_0@);
                    if i < old_t.len() {
                        assert(answer_seqs(before)[i] == asked_answers(old_t)[i]);
                        assert(answer_seqs(before)[i] == before[i]@);
                        assert(asked_answers(old_t)[i] == old_t[i].1->Ok_0@);
                        assert(t[i] == old_t[i]);
                    }
                }
                assert(answer_seqs(per_path@) =~= asked_answers(t));
            },
            Err(e) => {
                let r = Err(e);
                proof {
                    assert forall|i: int| 0 <= i < t.len() - 1 implies (#[trigger] t[i]).1 is Ok by {
                        assert(t[i] == old_t[i]);
                    }
                    assert forall|i: int| 0 <= i < t.len() implies (#[trigger] t[i]).0 == seq![paths@[i]] by {
                        if i < old_t.len() {
                            assert(t[i] == old_t[i]);
                        }
                    }
                    assert(each_path_asked(paths@, t, r));
                    assert(rm.asked() == old(rm).asked() + t);
                }
                return r;
            },
        }
        j = j + 1;
    }
    let ghost answers = answer_seqs(per_path@);
    let r = collect_answers(per_path);
    proof {
        lemma_answer_index(answers);
        assert(each_path_asked(paths@, t, Ok(r)));
        if paths@.len() == 0 {
            assert(answers =~= Seq::<Seq<RmProcessInfo>>::empty());
        }
    }
    Ok(r)
}

} // verus!
