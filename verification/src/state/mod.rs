//! The application state and the commands that change it.

use vstd::prelude::*;
use std::collections::BTreeMap;

pub mod app_state;
pub mod target;

use app_state::{AppState, PrivilegeLevel, UiToast};
use target::{TargetId, TargetItem, TargetKind, TargetStatus};
use crate::error::{ScanFailure, scan_failure_text};
use crate::monitor::ScanEvent;
use crate::monitor::clock::monotonic_now;
use crate::text::{decimal, decimal_string};

verus! {

/// Whether some target in `targets` has the path `p`.
pub open spec fn has_path(targets: Map<u64, TargetItem>, p: Seq<char>) -> bool {
    exists|k: u64| #[trigger] targets.contains_key(k) && targets[k].path@ == p
}

/// Whether some target in `targets` has the path `p`.
fn contains_path(targets: &BTreeMap<u64, TargetItem>, p: &String) -> (b: bool)
    ensures
        b == has_path(targets@, p@),
{
    let values = targets.values();
    let ghost key_seq = choose|key_seq: Seq<u64>|
        {
            &&& key_seq.to_set() == targets@.dom()
            &&& key_seq.no_duplicates()
            &&& vstd::std_specs::iter::IteratorSpec::remaining(&values) == key_seq.map(|i: int, k| &targets@[k])
        };
    let ghost mut seen: int = 0;
    for t in iter: values
        invariant
            key_seq.to_set() == targets@.dom(),
            iter.seq() == key_seq.map(|i: int, k| &targets@[k]),
            seen == iter.index(),
            forall|j: int| 0 <= j < seen ==> (#[trigger] targets@[key_seq[j]]).path@ != p@,
    {
        proof {
            seen = seen + 1;
        }
        if t.path == *p {
            proof {
                let k = key_seq[iter.index() as int];
                assert(key_seq.to_set().contains(k));
            }
            return true;
        }
    }
    proof {
        if has_path(targets@, p@) {
            let k = choose|k: u64| #[trigger] targets@.contains_key(k) && targets@[k].path@ == p@;
            assert(key_seq.to_set().contains(k));
            let j = choose|j: int| 0 <= j < key_seq.len() && key_seq[j] == k;
            assert(targets@[key_seq[j]].path@ == p@);
        }
    }
    false
}

/// Answers the questions about the file system that adding a target asks.
pub trait FsProbe: Send + Sync {
    /// Whether `path` exists.
    fn path_exists(&self, path: &str) -> bool;

    /// Whether `path` is a folder.
    fn is_dir(&self, path: &str) -> bool;
}

/// Whether `path` exists, as `std::path::Path::exists` tells it.
///
/// Nothing is stated of the answer: it depends on the disk.
#[verifier::external_body]
fn std_path_exists(path: &str) -> bool {
    std::path::Path::new(path).exists()
}

/// Whether `path` is a folder, as `std::path::Path::is_dir` tells it.
///
/// Nothing is stated of the answer: it depends on the disk.
#[verifier::external_body]
fn path_is_dir(path: &str) -> bool {
    std::path::Path::new(path).is_dir()
}

/// The file system of the machine.
pub struct RealFsProbe;

impl FsProbe for RealFsProbe {
    fn path_exists(&self, path: &str) -> bool {
        std_path_exists(path)
    }

    fn is_dir(&self, path: &str) -> bool {
        path_is_dir(path)
    }
}

/// Why a path was not added.
#[derive(Debug, PartialEq, Eq, Structural)]
pub enum AddError {
    /// The path does not exist.
    PathNotFound,
    /// A target with the same path is already watched.
    Duplicate,
}

/// The settings and the message of `new` are those of `old`.
pub open spec fn same_settings(old: AppState, new: AppState) -> bool {
    &&& new.polling_interval_ms == old.polling_interval_ms
    &&& new.privilege == old.privilege
    &&& new.windows_supported == old.windows_supported
    &&& new.last_error == old.last_error
}

/// `new` is `old` unchanged.
pub open spec fn unchanged(old: AppState, new: AppState) -> bool {
    &&& new.targets@ == old.targets@
    &&& new.next_id == old.next_id
    &&& same_settings(old, new)
}

/// `item` is a freshly added target: the id `id`, the path `path`, the kind
/// `kind`, `Pending`, with no processes and never scanned.
pub open spec fn is_new_target(item: TargetItem, id: u64, path: Seq<char>, kind: TargetKind) -> bool {
    &&& item.id == TargetId(id)
    &&& item.path@ == path
    &&& item.kind == kind
    &&& item.status is Pending
    &&& item.processes@.len() == 0
    &&& item.last_scanned_at is None
}

/// The kind of a target that is a folder when `is_dir` holds.
pub open spec fn kind_of(is_dir: bool) -> TargetKind {
    if is_dir {
        TargetKind::Directory
    } else {
        TargetKind::File
    }
}

/// `new` is `old` with the path `path` added as a target of kind `kind`,
/// under the next id.
pub open spec fn added(old: AppState, new: AppState, path: Seq<char>, kind: TargetKind) -> bool {
    &&& new.targets@ == old.targets@.insert(old.next_id, new.targets@[old.next_id])
    &&& is_new_target(new.targets@[old.next_id], old.next_id, path, kind)
    &&& new.next_id == old.next_id + 1
    &&& same_settings(old, new)
}

/// The outcome of adding `path` when the file system answers that it
/// exists (`found`) and is a folder (`is_dir`): a missing path is refused
/// with `PathNotFound`, a path that is already watched with `Duplicate`, and
/// any other path becomes a new `Pending` target under the next id.
pub open spec fn add_outcome(
    old: AppState,
    new: AppState,
    path: Seq<char>,
    found: bool,
    is_dir: bool,
    r: Result<TargetId, AddError>,
) -> bool {
    if !found {
        r == Err::<TargetId, AddError>(AddError::PathNotFound) && unchanged(old, new)
    } else if has_path(old.targets@, path) {
        r == Err::<TargetId, AddError>(AddError::Duplicate) && unchanged(old, new)
    } else {
        r == Ok::<TargetId, AddError>(TargetId(old.next_id)) && added(old, new, path, kind_of(is_dir))
    }
}

/// Adds `path` as a new target, given the file system's answers: whether it
/// exists and whether it is a folder.
pub fn add_target_with(state: &mut AppState, path: String, found: bool, is_dir: bool) -> (r: Result<TargetId, AddError>)
    requires
        old(state).next_id < u64::MAX,
    ensures
        old(state).wf() ==> final(state).wf(),
        add_outcome(*old(state), *final(state), path@, found, is_dir, r),
{
    if !found {
        return Err(AddError::PathNotFound);
    }
    if contains_path(&state.targets, &path) {
        return Err(AddError::Duplicate);
    }
    let id = state.next_target_id();
    let kind = if is_dir {
        TargetKind::Directory
    } else {
        TargetKind::File
    };
    let ghost p = path@;
    let item = TargetItem {
        id,
        path,
        kind,
        status: TargetStatus::Pending,
        processes: Vec::new(),
        last_scanned_at: None,
    };
    state.targets.insert(id.0, item);
    proof {
        if old(state).wf() {
            let o = old(state).targets@;
            let n = state.targets@;
            assert forall|k1: u64, k2: u64|
                #[trigger] n.contains_key(k1) && #[trigger] n.contains_key(k2) && k1 != k2 implies n[k1].path@
                != n[k2].path@ by {
                if k1 == id.0 {
                    assert(o.contains_key(k2));
                } else if k2 == id.0 {
                    assert(o.contains_key(k1));
                }
            }
        }
    }
    Ok(id)
}

/// Adds `path` as a new target, asking `fs` whether it exists and, when it
/// is not watched yet, whether it is a folder.
///
/// The outcome is that of `add_target_with` for the answers that `fs` gave:
/// in particular a path that is already watched is never added twice.
pub fn try_add_target<F: FsProbe>(state: &mut AppState, path: String, fs: &F) -> (r: Result<TargetId, AddError>)
    requires
        old(state).next_id < u64::MAX,
    ensures
        old(state).wf() ==> final(state).wf(),
        exists|found: bool, is_dir: bool| add_outcome(*old(state), *final(state), path@, found, is_dir, r),
        exists|found: bool, is_dir: bool, s: &str|
            {
                &&& s@ == path@
                &&& call_ensures(F::path_exists, (fs, s), found)
                &&& (found && !has_path(old(state).targets@, path@)) ==> call_ensures(F::is_dir, (fs, s), is_dir)
                &&& add_outcome(*old(state), *final(state), path@, found, is_dir, r)
            },
{
    let ghost p = path@;
    let ps: &str = path.as_str();
    let found = fs.path_exists(ps);
    if !found {
        let ghost gs = ps;
        let r = add_target_with(state, path, false, false);
        assert(add_outcome(*old(state), *state, p, false, false, r));
        assert(call_ensures(F::path_exists, (fs, gs), false));
        return r;
    }
    let listed = contains_path(&state.targets, &path);
    let is_dir = if listed {
        false
    } else {
        fs.is_dir(ps)
    };
    let ghost gs = ps;
    assert(gs@ == p);
    assert(call_ensures(F::path_exists, (fs, gs), true));
    assert(!listed ==> call_ensures(F::is_dir, (fs, gs), is_dir));
    let r = add_target_with(state, path, true, is_dir);
    assert(add_outcome(*old(state), *state, p, true, is_dir, r));
    r
}

/// The kind of a new target is the one the file system gave: a path that
/// exists and is not yet watched is added under the next id, as a folder
/// exactly when the answer `is_dir` of the probe says so.
pub proof fn lemma_added_kind_follows_probe(
    old: AppState,
    new: AppState,
    path: Seq<char>,
    found: bool,
    is_dir: bool,
    r: Result<TargetId, AddError>,
)
    requires
        add_outcome(old, new, path, found, is_dir, r),
        found,
        !has_path(old.targets@, path),
    ensures
        r == Ok::<TargetId, AddError>(TargetId(old.next_id)),
        new.targets@.contains_key(old.next_id),
        new.targets@[old.next_id].path@ == path,
        (new.targets@[old.next_id].kind == TargetKind::Directory) == is_dir,
{
}

/// How a batch of paths was taken in.
pub struct BatchAddSummary {
    pub added: usize,
    pub skipped_existing: usize,
    pub rejected_missing: usize,
}

/// The message that reports a batch: how many paths were added, skipped as
/// already watched and refused as missing.
pub open spec fn batch_message(added: nat, skipped: nat, rejected: nat) -> Seq<char> {
    "成功添加 "@ + decimal(added) + " 项 / 跳过 "@ + decimal(skipped) + " 项已存在 / 拒绝 "@
        + decimal(rejected) + " 项不存在"@
}

impl BatchAddSummary {
    /// The message that reports the batch, such as
    /// `成功添加 3 项 / 跳过 2 项已存在 / 拒绝 1 项不存在`.
    pub fn to_toast_message(&self) -> (s: String)
        ensures
            s@ == batch_message(
                self.added as nat,
                self.skipped_existing as nat,
                self.rejected_missing as nat,
            ),
    {
        let mut s = String::from_str("成功添加 ");
        let a = decimal_string(self.added as u64);
        s.append(a.as_str());
        s.append(" 项 / 跳过 ");
        let b = decimal_string(self.skipped_existing as u64);
        s.append(b.as_str());
        s.append(" 项已存在 / 拒绝 ");
        let c = decimal_string(self.rejected_missing as u64);
        s.append(c.as_str());
        s.append(" 项不存在");
        s
    }
}

/// `new` holds the targets of `old` unchanged, and every other target of
/// `new` is a freshly added one, with an id from `old.next_id` on and below
/// `new.next_id`, and one of the paths `paths`.
pub open spec fn grown_from(old: AppState, new: AppState, paths: Seq<String>) -> bool {
    &&& old.next_id <= new.next_id
    &&& forall|k: u64| #[trigger]
        old.targets@.contains_key(k) ==> new.targets@.contains_key(k) && new.targets@[k]
            == old.targets@[k]
    &&& forall|k: u64|
        #[trigger] new.targets@.contains_key(k) && !old.targets@.contains_key(k) ==> old.next_id <= k
            < new.next_id && (exists|j: int| 0 <= j < paths.len() && new.targets@[k].path@ == paths[j]@)
            && new.targets@[k].status is Pending && new.targets@[k].processes@.len() == 0
            && new.targets@[k].last_scanned_at is None
}

/// How many of the outcomes `rs` are of the kind `kind`: an added target
/// (`None`) or the error `Some(e)`.
pub open spec fn outcome_count(rs: Seq<Result<TargetId, AddError>>, kind: Option<AddError>) -> nat
    decreases rs.len(),
{
    if rs.len() == 0 {
        0
    } else {
        outcome_count(rs.drop_last(), kind) + if (match rs.last() {
            Ok(_) => kind is None,
            Err(e) => kind == Some(e),
        }) {
            1nat
        } else {
            0nat
        }
    }
}

/// `states` runs through the adds of `paths` one after the other: from
/// `states[k]` to `states[k + 1]` the path `paths[k]` is added with the file
/// system's answers `found[k]` and `is_dir[k]`, with the outcome `rs[k]`.
pub open spec fn batch_run(
    states: Seq<AppState>,
    paths: Seq<String>,
    found: Seq<bool>,
    is_dir: Seq<bool>,
    rs: Seq<Result<TargetId, AddError>>,
) -> bool {
    &&& states.len() == paths.len() + 1
    &&& found.len() == paths.len()
    &&& is_dir.len() == paths.len()
    &&& rs.len() == paths.len()
    &&& forall|k: int|
        0 <= k < paths.len() ==> add_outcome(#[trigger] states[k], states[k + 1], paths[k]@, found[k], is_dir[k], rs[k])
}

/// Adds each of `paths` in turn, as `try_add_target` does, and reports how
/// many were added, skipped as already watched and refused as missing.
///
/// The batch is exactly the run of single adds, for the answers that `fs`
/// gave, and the summary counts their outcomes.
pub fn try_add_targets<F: FsProbe>(state: &mut AppState, paths: Vec<String>, fs: &F) -> (summary: BatchAddSummary)
    requires
        old(state).wf(),
        old(state).next_id + paths@.len() < u64::MAX,
    ensures
        final(state).wf(),
        exists|states: Seq<AppState>, found: Seq<bool>, is_dir: Seq<bool>, rs: Seq<Result<TargetId, AddError>>|
            {
                &&& batch_run(states, paths@, found, is_dir, rs)
                &&& states[0] == *old(state)
                &&& states.last() == *final(state)
                &&& summary.added == outcome_count(rs, None)
                &&& summary.skipped_existing == outcome_count(rs, Some(AddError::Duplicate))
                &&& summary.rejected_missing == outcome_count(rs, Some(AddError::PathNotFound))
            },
        summary.added + summary.skipped_existing + summary.rejected_missing == paths@.len(),
        final(state).next_id == old(state).next_id + summary.added,
        final(state).targets@.len() == old(state).targets@.len() + summary.added,
        same_settings(*old(state), *final(state)),
        grown_from(*old(state), *final(state), paths@),
{
    let ghost all = paths@;
    let mut rest = paths;
    let mut summary = BatchAddSummary { added: 0, skipped_existing: 0, rejected_missing: 0 };
    let mut i: usize = 0;
    let n = rest.len();
    let ghost mut states: Seq<AppState> = seq![*state];
    let ghost mut founds: Seq<bool> = Seq::empty();
    let ghost mut dirs: Seq<bool> = Seq::empty();
    let ghost mut rs: Seq<Result<TargetId, AddError>> = Seq::empty();
    assert(all.skip(0) =~= all);
    while rest.len() > 0
        invariant
            n == all.len(),
            i <= n,
            rest@ == all.skip(i as int),
            state.wf(),
            old(state).next_id + n < u64::MAX,
            summary.added + summary.skipped_existing + summary.rejected_missing == i,
            state.next_id == old(state).next_id + summary.added,
            same_settings(*old(state), *state),
            grown_from(*old(state), *state, all),
            batch_run(states, all.take(i as int), founds, dirs, rs),
            states[0] == *old(state),
            states.last() == *state,
            summary.added == outcome_count(rs, None),
            summary.skipped_existing == outcome_count(rs, Some(AddError::Duplicate)),
            summary.rejected_missing == outcome_count(rs, Some(AddError::PathNotFound)),
        decreases rest@.len(),
    {
        let path = rest.remove(0);
        assert(path == all[i as int]);
        let ghost before = *state;
        let r = try_add_target(state, path, fs);
        match r {
            Ok(_) => {
                summary.added = summary.added + 1;
            },
            Err(AddError::Duplicate) => {
                summary.skipped_existing = summary.skipped_existing + 1;
            },
            Err(AddError::PathNotFound) => {
                summary.rejected_missing = summary.rejected_missing + 1;
            },
        }
        proof {
            let (found, is_dir) = choose|found: bool, is_dir: bool|
                add_outcome(before, *state, all[i as int]@, found, is_dir, r);
            assert forall|k: u64|
                #[trigger] state.targets@.contains_key(k) && !old(state).targets@.contains_key(k)
                    implies old(state).next_id <= k < state.next_id && (exists|j: int|
                    0 <= j < all.len() && state.targets@[k].path@ == all[j]@)
                    && state.targets@[k].status is Pending && state.targets@[k].processes@.len() == 0
                    && state.targets@[k].last_scanned_at is None by {
                if before.targets@.contains_key(k) {
                } else {
                    assert(k == before.next_id);
                    assert(state.targets@[k].path@ == all[i as int]@);
                }
            }
            let old_states = states;
            let old_rs = rs;
            states = states.push(*state);
            founds = founds.push(found);
            dirs = dirs.push(is_dir);
            rs = rs.push(r);
            assert(rs.drop_last() =~= old_rs);
            assert(all.take(i + 1) =~= all.take(i as int).push(all[i as int]));
            assert forall|k: int| 0 <= k < i + 1 implies add_outcome(
                #[trigger] states[k],
                states[k + 1],
                all.take(i + 1)[k]@,
                founds[k],
                dirs[k],
                rs[k],
            ) by {
                if k < i {
                    assert(states[k] == old_states[k] && states[k + 1] == old_states[k + 1]);
                    assert(add_outcome(old_states[k], old_states[k + 1], all.take(i as int)[k]@, founds[k], dirs[k], rs[k]));
                }
            }
        }
        i = i + 1;
        assert(rest@ =~= all.skip(i as int));
    }
    assert(all.take(n as int) =~= all);
    proof {
        lemma_add_run(states, all, founds, dirs, rs);
    }
    summary
}

/// The paths of the targets of `s`.
pub open spec fn stored_paths(s: AppState) -> Set<Seq<char>> {
    Set::new(|p: Seq<char>| has_path(s.targets@, p))
}

/// The paths among `paths` that the file system answered exist (`found`).
pub open spec fn found_paths(paths: Seq<String>, found: Seq<bool>) -> Set<Seq<char>> {
    Set::new(|p: Seq<char>| exists|k: int| 0 <= k < paths.len() && found[k] && #[trigger] paths[k]@ == p)
}

/// Adding paths one after the other, from a well-formed state:
/// - the state stays well formed: every target is stored under its own id,
///   below the next id, and no two targets share a path;
/// - the paths watched afterwards are those watched before together with
///   every path that the file system answered exists, each once;
/// - the number of targets grows by the number of paths added, and so does
///   the next id.
pub proof fn lemma_add_run(
    states: Seq<AppState>,
    paths: Seq<String>,
    found: Seq<bool>,
    is_dir: Seq<bool>,
    rs: Seq<Result<TargetId, AddError>>,
)
    requires
        batch_run(states, paths, found, is_dir, rs),
        states[0].wf(),
    ensures
        states.last().wf(),
        stored_paths(states.last()) == stored_paths(states[0]).union(found_paths(paths, found)),
        states.last().targets@.len() == states[0].targets@.len() + outcome_count(rs, None),
        states.last().next_id == states[0].next_id + outcome_count(rs, None),
    decreases paths.len(),
{
    let n = paths.len();
    if n == 0 {
        assert(found_paths(paths, found) =~= Set::empty());
        assert(stored_paths(states.last()) =~= stored_paths(states[0]).union(found_paths(paths, found)));
    } else {
        let m = n - 1;
        let ss = states.drop_last();
        let ps = paths.drop_last();
        let fs = found.drop_last();
        let ds = is_dir.drop_last();
        let rp = rs.drop_last();
        assert forall|k: int| 0 <= k < ps.len() implies add_outcome(
            #[trigger] ss[k],
            ss[k + 1],
            ps[k]@,
            fs[k],
            ds[k],
            rp[k],
        ) by {
            assert(add_outcome(states[k], states[k + 1], paths[k]@, found[k], is_dir[k], rs[k]));
        }
        lemma_add_run(ss, ps, fs, ds, rp);
        let a = states[m];
        let b = states[m + 1];
        assert(ss.last() == a);
        assert(states.last() == b);
        assert(add_outcome(a, b, paths[m]@, found[m], is_dir[m], rs[m]));
        let p = paths[m]@;
        if found[m] {
            assert(found_paths(paths, found) =~= found_paths(ps, fs).insert(p)) by {
                assert forall|q: Seq<char>| found_paths(paths, found).contains(q) implies found_paths(ps, fs).insert(
                    q,
                ).contains(q) && (q == p || found_paths(ps, fs).contains(q)) by {
                    let k = choose|k: int| 0 <= k < paths.len() && found[k] && #[trigger] paths[k]@ == q;
                    if k < m {
                        assert(ps[k]@ == q);
                    }
                }
                assert forall|q: Seq<char>| found_paths(ps, fs).contains(q) implies found_paths(paths, found).contains(q) by {
                    let k = choose|k: int| 0 <= k < ps.len() && fs[k] && #[trigger] ps[k]@ == q;
                    assert(paths[k]@ == q);
                }
                assert(paths[m]@ == p);
            }
        } else {
            assert(found_paths(paths, found) =~= found_paths(ps, fs)) by {
                assert forall|q: Seq<char>| found_paths(paths, found).contains(q) implies found_paths(ps, fs).contains(q) by {
                    let k = choose|k: int| 0 <= k < paths.len() && found[k] && #[trigger] paths[k]@ == q;
                    assert(k < m);
                    assert(ps[k]@ == q);
                }
                assert forall|q: Seq<char>| found_paths(ps, fs).contains(q) implies found_paths(paths, found).contains(q) by {
                    let k = choose|k: int| 0 <= k < ps.len() && fs[k] && #[trigger] ps[k]@ == q;
                    assert(paths[k]@ == q);
                }
            }
        }
        assert(rp =~= rs.drop_last());
        if !found[m] || has_path(a.targets@, p) {
            assert(b.targets@ == a.targets@);
            assert(stored_paths(b) =~= stored_paths(a));
            if found[m] {
                assert(stored_paths(a).contains(p));
            }
            assert(stored_paths(b) =~= stored_paths(states[0]).union(found_paths(paths, found)));
        } else {
            let id = a.next_id;
            assert(!a.targets@.contains_key(id));
            assert(b.targets@.dom() =~= a.targets@.dom().insert(id));
            assert forall|k1: u64, k2: u64|
                #[trigger] b.targets@.contains_key(k1) && #[trigger] b.targets@.contains_key(k2) && k1 != k2
                    implies b.targets@[k1].path@ != b.targets@[k2].path@ by {
                if k1 == id {
                    assert(a.targets@.contains_key(k2));
                } else if k2 == id {
                    assert(a.targets@.contains_key(k1));
                }
            }
            assert(stored_paths(b) =~= stored_paths(a).insert(p)) by {
                assert forall|q: Seq<char>| stored_paths(b).contains(q) implies stored_paths(a).insert(p).contains(q) by {
                    let k = choose|k: u64| #[trigger] b.targets@.contains_key(k) && b.targets@[k].path@ == q;
                    if k != id {
                        assert(a.targets@.contains_key(k));
                    }
                }
                assert forall|q: Seq<char>| stored_paths(a).insert(p).contains(q) implies stored_paths(b).contains(q) by {
                    if q == p {
                        assert(b.targets@.contains_key(id));
                    } else {
                        let k = choose|k: u64| #[trigger] a.targets@.contains_key(k) && a.targets@[k].path@ == q;
                        assert(b.targets@.contains_key(k));
                    }
                }
            }
            assert(stored_paths(b) =~= stored_paths(states[0]).union(found_paths(paths, found)));
        }
    }
}

/// Adding paths one after the other to an empty list, with one file system
/// that answers `on_disk` for every path: afterwards the watched paths are
/// exactly the inputs that exist, each once, every target is stored under
/// its own id, and every id is below the next one.
pub proof fn lemma_adds_with_one_file_system(
    states: Seq<AppState>,
    paths: Seq<String>,
    found: Seq<bool>,
    is_dir: Seq<bool>,
    rs: Seq<Result<TargetId, AddError>>,
    on_disk: spec_fn(Seq<char>) -> bool,
)
    requires
        batch_run(states, paths, found, is_dir, rs),
        states[0].wf(),
        states[0].targets@.is_empty(),
        forall|k: int| 0 <= k < paths.len() ==> #[trigger] found[k] == on_disk(paths[k]@),
    ensures
        stored_paths(states.last()) == Set::new(
            |p: Seq<char>| on_disk(p) && exists|k: int| 0 <= k < paths.len() && #[trigger] paths[k]@ == p,
        ),
        forall|k1: u64, k2: u64|
            #[trigger] states.last().targets@.contains_key(k1) && #[trigger] states.last().targets@.contains_key(k2)
                && k1 != k2 ==> states.last().targets@[k1].path@ != states.last().targets@[k2].path@,
        forall|k: u64|
            #[trigger] states.last().targets@.contains_key(k) ==> states.last().targets@[k].id.0 == k && k
                < states.last().next_id,
{
    lemma_add_run(states, paths, found, is_dir, rs);
    assert(stored_paths(states[0]) =~= Set::<Seq<char>>::empty());
    let want = Set::new(|p: Seq<char>| on_disk(p) && exists|k: int| 0 <= k < paths.len() && #[trigger] paths[k]@ == p);
    assert forall|p: Seq<char>| found_paths(paths, found).contains(p) <==> want.contains(p) by {
        if found_paths(paths, found).contains(p) {
            let k = choose|k: int| 0 <= k < paths.len() && found[k] && #[trigger] paths[k]@ == p;
            assert(found[k] == on_disk(paths[k]@));
        }
        if want.contains(p) {
            let k = choose|k: int| 0 <= k < paths.len() && #[trigger] paths[k]@ == p;
            assert(found[k] == on_disk(paths[k]@));
        }
    }
    assert(stored_paths(states.last()) =~= want);
}

/// The status that a completed scan finding `count` processes gives.
pub open spec fn status_for_count(count: nat) -> TargetStatus {
    if count == 0 {
        TargetStatus::Idle
    } else {
        TargetStatus::Locked { count: count as usize }
    }
}

/// `new` holds the targets of `old`, but for the target `id`, whose status
/// and scan results are those of `item`; the other fields of that target are
/// kept.
pub open spec fn target_updated(old: AppState, new: AppState, id: u64, item: TargetItem) -> bool {
    &&& new.targets@ == old.targets@.insert(id, item)
    &&& item.id == old.targets@[id].id
    &&& item.path == old.targets@[id].path
    &&& item.kind == old.targets@[id].kind
}

/// `new` is `old` after the scan event `ev`: a `Started` event marks its
/// target `Scanning`; a `Completed` event stores the records found, sets the
/// status to `Idle` (no record) or `Locked` (as many as the records) and
/// records when the scan completed; a `Failed` event sets `AccessDenied` when
/// access was denied and `Failed` with the failure's text otherwise. An event
/// about a target that is no longer watched changes nothing.
pub open spec fn scan_event_applied(old: AppState, new: AppState, ev: ScanEvent) -> bool {
    &&& new.next_id == old.next_id
    &&& same_settings(old, new)
    &&& match ev {
        ScanEvent::Started(id) => if old.targets@.contains_key(id.0) {
            let t = new.targets@[id.0];
            &&& target_updated(old, new, id.0, t)
            &&& t.status is Scanning
            &&& t.processes == old.targets@[id.0].processes
            &&& t.last_scanned_at == old.targets@[id.0].last_scanned_at
        } else {
            new.targets@ == old.targets@
        },
        ScanEvent::Completed(id, records) => if old.targets@.contains_key(id.0) {
            let t = new.targets@[id.0];
            &&& target_updated(old, new, id.0, t)
            &&& t.processes == records
            &&& t.status == status_for_count(records@.len())
            &&& t.last_scanned_at is Some
        } else {
            new.targets@ == old.targets@
        },
        ScanEvent::Failed(id, failure) => if old.targets@.contains_key(id.0) {
            let t = new.targets@[id.0];
            &&& target_updated(old, new, id.0, t)
            &&& (failure is AccessDenied ==> t.status is AccessDenied)
            &&& (!(failure is AccessDenied) ==> (t.status matches TargetStatus::Failed { reason }
                && reason@ == scan_failure_text(failure)))
            &&& t.processes == old.targets@[id.0].processes
            &&& t.last_scanned_at == old.targets@[id.0].last_scanned_at
        } else {
            new.targets@ == old.targets@
        },
    }
}

/// The target that a scan event is about.
pub open spec fn event_target(ev: ScanEvent) -> TargetId {
    match ev {
        ScanEvent::Started(id) => id,
        ScanEvent::Completed(id, _) => id,
        ScanEvent::Failed(id, _) => id,
    }
}

/// Takes the target `id` out of the map, when it is there.
fn take_target(targets: &mut BTreeMap<u64, TargetItem>, id: u64) -> (r: Option<TargetItem>)
    ensures
        final(targets)@ == old(targets)@.remove(id),
        old(targets)@.contains_key(id) ==> r == Some(old(targets)@[id]),
        !old(targets)@.contains_key(id) ==> r is None,
{
    targets.remove(&id)
}

proof fn lemma_update_keeps_wf(old: AppState, new: AppState, id: u64, item: TargetItem)
    requires
        old.wf(),
        old.targets@.contains_key(id),
        target_updated(old, new, id, item),
        new.next_id == old.next_id,
    ensures
        new.wf(),
{
    let n = new.targets@;
    assert forall|k: u64| #[trigger] n.contains_key(k) implies n[k].id.0 == k && k < new.next_id by {
        assert(old.targets@.contains_key(k));
    }
    assert forall|k1: u64, k2: u64|
        #[trigger] n.contains_key(k1) && #[trigger] n.contains_key(k2) && k1 != k2 implies n[k1].path@
        != n[k2].path@ by {
        assert(old.targets@.contains_key(k1) && old.targets@.contains_key(k2));
    }
}

/// Applies a scan event to the state.
pub fn apply_scan_event(state: &mut AppState, ev: ScanEvent)
    ensures
        old(state).wf() ==> final(state).wf(),
        scan_event_applied(*old(state), *final(state), ev),
{
    let ghost ev0 = ev;
    match ev {
        ScanEvent::Started(id) => {
            if let Some(mut t) = take_target(&mut state.targets, id.0) {
                t.status = TargetStatus::Scanning;
                let ghost item = t;
                state.targets.insert(id.0, t);
                proof {
                    assert(state.targets@ =~= old(state).targets@.insert(id.0, item));
                    if old(state).wf() {
                        lemma_update_keeps_wf(*old(state), *state, id.0, item);
                    }
                }
            }
        },
        ScanEvent::Completed(id, records) => {
            if let Some(mut t) = take_target(&mut state.targets, id.0) {
                let count = records.len();
                t.processes = records;
                t.status = if count == 0 {
                    TargetStatus::Idle
                } else {
                    TargetStatus::Locked { count }
                };
                t.last_scanned_at = Some(monotonic_now());
                let ghost item = t;
                state.targets.insert(id.0, t);
                proof {
                    assert(state.targets@ =~= old(state).targets@.insert(id.0, item));
                    if old(state).wf() {
                        lemma_update_keeps_wf(*old(state), *state, id.0, item);
                    }
                }
            }
        },
        ScanEvent::Failed(id, failure) => {
            if let Some(mut t) = take_target(&mut state.targets, id.0) {
                t.status = match &failure {
                    ScanFailure::AccessDenied => TargetStatus::AccessDenied,
                    _ => TargetStatus::Failed { reason: failure.to_string() },
                };
                let ghost item = t;
                state.targets.insert(id.0, t);
                proof {
                    assert(state.targets@ =~= old(state).targets@.insert(id.0, item));
                    if old(state).wf() {
                        lemma_update_keeps_wf(*old(state), *state, id.0, item);
                    }
                }
            }
        },
    }
    proof {
        if !old(state).targets@.contains_key(event_target(ev0).0) {
            assert(state.targets@ =~= old(state).targets@);
        }
    }
}

/// A command from the interface.
pub enum UiCmd {
    /// Add these paths as targets.
    AddPaths(Vec<String>),
    /// Stop watching a target.
    RemoveTarget(TargetId),
    /// Remove every target, once the user confirmed it.
    ClearAll { confirmed: bool },
    /// Set the polling interval, in milliseconds.
    SetInterval(u32),
    /// Record the rights the application runs with.
    SetPrivilege(PrivilegeLevel),
    /// Hide the message shown to the user.
    DismissToast,
    /// Show a message to the user.
    ShowToast(UiToast),
    /// Ask the user to confirm the termination of a process; the dialog
    /// handles it, the state does not change.
    OpenTerminateDialog { pid: u32, process_name: String, target_id: TargetId, start_time: Option<i64> },
    /// The user confirmed the termination of a process; the termination
    /// handles it, the state does not change.
    ConfirmTerminate { pid: u32, process_name: String, target_id: TargetId, start_time: Option<i64> },
}

/// `new` is `old` after the command `cmd`, for every command but
/// `AddPaths` (whose outcome depends on the file system): `RemoveTarget`
/// drops the target, a confirmed `ClearAll` drops every target, `SetInterval`,
/// `SetPrivilege`, `DismissToast` and `ShowToast` set their field, and the
/// rest change nothing.
pub open spec fn command_applied(old: AppState, new: AppState, cmd: UiCmd) -> bool {
    match cmd {
        UiCmd::AddPaths(_) => true,
        UiCmd::RemoveTarget(id) => {
            &&& new.targets@ == old.targets@.remove(id.0)
            &&& new.next_id == old.next_id
            &&& same_settings(old, new)
        },
        UiCmd::ClearAll { confirmed } => if confirmed {
            &&& new.targets@ == Map::<u64, TargetItem>::empty()
            &&& new.next_id == old.next_id
            &&& same_settings(old, new)
        } else {
            unchanged(old, new)
        },
        UiCmd::SetInterval(ms) => {
            &&& new.polling_interval_ms == ms
            &&& new.targets@ == old.targets@
            &&& new.next_id == old.next_id
            &&& new.privilege == old.privilege
            &&& new.windows_supported == old.windows_supported
            &&& new.last_error == old.last_error
        },
        UiCmd::SetPrivilege(p) => {
            &&& new.privilege == p
            &&& new.targets@ == old.targets@
            &&& new.next_id == old.next_id
            &&& new.polling_interval_ms == old.polling_interval_ms
            &&& new.windows_supported == old.windows_supported
            &&& new.last_error == old.last_error
        },
        UiCmd::DismissToast => {
            &&& new.last_error is None
            &&& new.targets@ == old.targets@
            &&& new.next_id == old.next_id
            &&& new.polling_interval_ms == old.polling_interval_ms
            &&& new.privilege == old.privilege
            &&& new.windows_supported == old.windows_supported
        },
        UiCmd::ShowToast(t) => {
            &&& new.last_error == Some(t)
            &&& new.targets@ == old.targets@
            &&& new.next_id == old.next_id
            &&& new.polling_interval_ms == old.polling_interval_ms
            &&& new.privilege == old.privilege
            &&& new.windows_supported == old.windows_supported
        },
        UiCmd::OpenTerminateDialog { .. } => unchanged(old, new),
        UiCmd::ConfirmTerminate { .. } => unchanged(old, new),
    }
}

/// Applies a command of the interface to the state.
///
/// `AddPaths` adds the paths as `try_add_targets` does; every other command
/// changes the state as `command_applied` says.
pub fn apply<F: FsProbe>(state: &mut AppState, cmd: UiCmd, fs: &F)
    requires
        cmd matches UiCmd::AddPaths(paths) ==> old(state).wf() && old(state).next_id + paths@.len() < u64::MAX,
    ensures
        old(state).wf() ==> final(state).wf(),
        command_applied(*old(state), *final(state), cmd),
        cmd matches UiCmd::AddPaths(paths) ==> same_settings(*old(state), *final(state))
            && grown_from(*old(state), *final(state), paths@) && exists|
            states: Seq<AppState>,
            found: Seq<bool>,
            is_dir: Seq<bool>,
            rs: Seq<Result<TargetId, AddError>>,
        |
            {
                &&& batch_run(states, paths@, found, is_dir, rs)
                &&& states[0] == *old(state)
                &&& states.last() == *final(state)
            },
{
    match cmd {
        UiCmd::AddPaths(paths) => {
            try_add_targets(state, paths, fs);
        },
        UiCmd::RemoveTarget(id) => {
            state.targets.remove(&id.0);
        },
        UiCmd::ClearAll { confirmed } => {
            if confirmed {
                state.targets.clear();
            }
        },
        UiCmd::SetInterval(ms) => {
            state.polling_interval_ms = ms;
        },
        UiCmd::SetPrivilege(p) => {
            state.privilege = p;
        },
        UiCmd::DismissToast => {
            state.last_error = None;
        },
        UiCmd::ShowToast(t) => {
            state.last_error = Some(t);
        },
        UiCmd::OpenTerminateDialog { .. } => {},
        UiCmd::ConfirmTerminate { .. } => {},
    }
}

/// Removing a target twice leaves the state as removing it once, and the
/// target is gone.
pub proof fn lemma_remove_idempotent(s0: AppState, s1: AppState, s2: AppState, id: TargetId)
    requires
        command_applied(s0, s1, UiCmd::RemoveTarget(id)),
        command_applied(s1, s2, UiCmd::RemoveTarget(id)),
    ensures
        !s1.targets@.contains_key(id.0),
        unchanged(s1, s2),
{
    assert(s2.targets@ =~= s1.targets@);
}

/// Clearing the list empties it, and clearing it again changes nothing.
pub proof fn lemma_clear_idempotent(s0: AppState, s1: AppState, s2: AppState)
    requires
        command_applied(s0, s1, UiCmd::ClearAll { confirmed: true }),
        command_applied(s1, s2, UiCmd::ClearAll { confirmed: true }),
    ensures
        s1.targets@.is_empty(),
        s2.targets@.is_empty(),
        unchanged(s1, s2),
{
}

/// Cancelling the clearing of the list changes nothing.
pub proof fn lemma_cancel_keeps_state(s0: AppState, s1: AppState)
    requires
        command_applied(s0, s1, UiCmd::ClearAll { confirmed: false }),
    ensures
        unchanged(s0, s1),
{
}

/// The paths of the targets in `targets`.
pub open spec fn path_set(targets: Map<u64, TargetItem>) -> Set<Seq<char>> {
    Set::new(|p: Seq<char>| has_path(targets, p))
}

/// Adding a path adds it to the watched paths when it exists, and leaves
/// them as they were otherwise (a path already watched is not added twice).
pub proof fn lemma_add_path_set(
    old: AppState,
    new: AppState,
    path: Seq<char>,
    found: bool,
    is_dir: bool,
    r: Result<TargetId, AddError>,
)
    requires
        old.wf(),
        add_outcome(old, new, path, found, is_dir, r),
    ensures
        path_set(new.targets@) == if found {
            path_set(old.targets@).insert(path)
        } else {
            path_set(old.targets@)
        },
{
    if found && !has_path(old.targets@, path) {
        let id = old.next_id;
        assert(!old.targets@.contains_key(id));
        assert forall|p: Seq<char>| path_set(new.targets@).contains(p) <==> path_set(old.targets@).insert(path).contains(p) by {
            if has_path(new.targets@, p) {
                let k = choose|k: u64| #[trigger] new.targets@.contains_key(k) && new.targets@[k].path@ == p;
                if k != id {
                    assert(old.targets@.contains_key(k));
                }
            }
            if has_path(old.targets@, p) {
                let k = choose|k: u64| #[trigger] old.targets@.contains_key(k) && old.targets@[k].path@ == p;
                assert(new.targets@.contains_key(k));
            }
            if p == path {
                assert(new.targets@.contains_key(id));
            }
        }
        assert(path_set(new.targets@) =~= path_set(old.targets@).insert(path));
    } else if found {
        assert(path_set(new.targets@) =~= path_set(old.targets@));
        assert(path_set(old.targets@).contains(path));
        assert(path_set(old.targets@).insert(path) =~= path_set(old.targets@));
    } else {
        assert(path_set(new.targets@) =~= path_set(old.targets@));
    }
}

/// `new` is `old` after adding `path`, when the file system answers `found`
/// to whether it exists.
pub open spec fn add_step(old: AppState, new: AppState, path: Seq<char>, found: bool) -> bool {
    exists|is_dir: bool, r: Result<TargetId, AddError>| #[trigger] add_outcome(old, new, path, found, is_dir, r)
}

/// The paths among `paths` that exist, as the predicate `found` tells.
pub open spec fn existing_paths(paths: Seq<Seq<char>>, found: spec_fn(Seq<char>) -> bool) -> Set<Seq<char>> {
    Set::new(|p: Seq<char>| paths.contains(p) && found(p))
}

/// Adding the paths `paths` one after the other, from `states[0]` to the
/// last state, while the file system answers consistently (a path exists
/// when `found` says so), watches exactly the paths watched before and the
/// paths of `paths` that exist, each once.
pub proof fn lemma_add_sequence(
    states: Seq<AppState>,
    paths: Seq<Seq<char>>,
    found: spec_fn(Seq<char>) -> bool,
)
    requires
        states.len() == paths.len() + 1,
        forall|i: int| 0 <= i < states.len() ==> (#[trigger] states[i]).wf(),
        forall|i: int| 0 <= i < paths.len() ==> add_step(#[trigger] states[i], states[i + 1], paths[i], found(paths[i])),
    ensures
        path_set(states.last().targets@) == path_set(states[0].targets@) + existing_paths(
            paths,
            found,
        ),
    decreases paths.len(),
{
    if paths.len() == 0 {
        assert(existing_paths(paths, found) =~= Set::empty());
        assert(path_set(states[0].targets@) + Set::empty() =~= path_set(states[0].targets@));
    } else {
        let n = paths.len() - 1;
        let s2 = states.drop_last();
        let p2 = paths.drop_last();
        assert forall|i: int| 0 <= i < s2.len() implies (#[trigger] s2[i]).wf() by {
            assert(s2[i] == states[i]);
        }
        assert forall|i: int| 0 <= i < p2.len() implies add_step(#[trigger] s2[i], s2[i + 1], p2[i], found(p2[i])) by {
            assert(s2[i] == states[i] && s2[i + 1] == states[i + 1] && p2[i] == paths[i]);
        }
        lemma_add_sequence(s2, p2, found);
        assert(add_step(states[n], states[n + 1], paths[n], found(paths[n])));
        let (is_dir, r) = choose|is_dir: bool, r: Result<TargetId, AddError>|
            #[trigger] add_outcome(states[n], states[n + 1], paths[n], found(paths[n]), is_dir, r);
        lemma_add_path_set(states[n], states[n + 1], paths[n], found(paths[n]), is_dir, r);
        assert(s2.last() == states[n]);
        assert forall|p: Seq<char>| existing_paths(paths, found).contains(p) <==> (existing_paths(p2, found).contains(p)
            || (p == paths[n] && found(paths[n]))) by {
            if paths.contains(p) && found(p) {
                let j = choose|j: int| 0 <= j < paths.len() && paths[j] == p;
                if j < n {
                    assert(p2[j] == p);
                }
            }
            if p2.contains(p) {
                let j = choose|j: int| 0 <= j < p2.len() && p2[j] == p;
                assert(paths[j] == p);
            }
            if p == paths[n] {
                assert(paths.contains(p));
            }
        }
        if found(paths[n]) {
            assert(path_set(states.last().targets@) =~= path_set(states[0].targets@) + existing_paths(paths, found));
        } else {
            assert(path_set(states.last().targets@) =~= path_set(states[0].targets@) + existing_paths(paths, found));
        }
    }
}

/// A batch of adds, whatever order and repetitions its paths come in,
/// leaves watched exactly the paths watched before and the paths of the
/// batch that exist, each once, when the file system answers consistently
/// (a path exists when `exists_at` says so).
pub proof fn lemma_batch_path_set(
    states: Seq<AppState>,
    paths: Seq<String>,
    found: Seq<bool>,
    is_dir: Seq<bool>,
    rs: Seq<Result<TargetId, AddError>>,
    exists_at: spec_fn(Seq<char>) -> bool,
)
    requires
        batch_run(states, paths, found, is_dir, rs),
        states[0].wf(),
        forall|k: int| 0 <= k < paths.len() ==> found[k] == exists_at(#[trigger] paths[k]@),
    ensures
        path_set(states.last().targets@) == path_set(states[0].targets@) + existing_paths(
            paths.map_values(|p: String| p@),
            exists_at,
        ),
{
    let texts = paths.map_values(|p: String| p@);
    assert forall|k: int| 0 <= k < states.len() implies (#[trigger] states[k]).wf() by {
        lemma_batch_wf(states, paths, found, is_dir, rs, k);
    }
    assert forall|k: int| 0 <= k < texts.len() implies add_step(#[trigger] states[k], states[k + 1], texts[k], exists_at(texts[k])) by {
        assert(add_outcome(states[k], states[k + 1], paths[k]@, found[k], is_dir[k], rs[k]));
        assert(texts[k] == paths[k]@);
    }
    lemma_add_sequence(states, texts, exists_at);
}

/// Every state of a batch that starts consistent is consistent.
proof fn lemma_batch_wf(
    states: Seq<AppState>,
    paths: Seq<String>,
    found: Seq<bool>,
    is_dir: Seq<bool>,
    rs: Seq<Result<TargetId, AddError>>,
    k: int,
)
    requires
        batch_run(states, paths, found, is_dir, rs),
        states[0].wf(),
        0 <= k < states.len(),
    ensures
        states[k].wf(),
    decreases k,
{
    if k > 0 {
        lemma_batch_wf(states, paths, found, is_dir, rs, k - 1);
        assert(add_outcome(states[k - 1], states[k], paths[k - 1]@, found[k - 1], is_dir[k - 1], rs[k - 1]));
        lemma_add_keeps_wf(states[k - 1], states[k], paths[k - 1]@, found[k - 1], is_dir[k - 1], rs[k - 1]);
    }
}

/// A single add keeps the state consistent.
proof fn lemma_add_keeps_wf(
    old: AppState,
    new: AppState,
    path: Seq<char>,
    found: bool,
    is_dir: bool,
    r: Result<TargetId, AddError>,
)
    requires
        old.wf(),
        add_outcome(old, new, path, found, is_dir, r),
    ensures
        new.wf(),
{
    if found && !has_path(old.targets@, path) {
        let id = old.next_id;
        let n = new.targets@;
        let o = old.targets@;
        assert forall|k: u64| #[trigger] n.contains_key(k) implies n[k].id.0 == k && k < new.next_id by {
            if k != id {
                assert(o.contains_key(k));
            }
        }
        assert forall|k1: u64, k2: u64|
            #[trigger] n.contains_key(k1) && #[trigger] n.contains_key(k2) && k1 != k2 implies n[k1].path@
            != n[k2].path@ by {
            if k1 == id {
                assert(o.contains_key(k2));
            } else if k2 == id {
                assert(o.contains_key(k1));
            } else {
                assert(o.contains_key(k1) && o.contains_key(k2));
            }
        }
    } else {
        assert(new.targets@ =~= old.targets@);
    }
}

/// The state reflects the latest scan of a watched target: after two
/// completed scans, the target holds the records of the second and the
/// status that their number gives.
pub proof fn lemma_latest_scan_wins(
    s0: AppState,
    s1: AppState,
    s2: AppState,
    id: TargetId,
    first: Vec<crate::detector::ProcessRecord>,
    second: Vec<crate::detector::ProcessRecord>,
)
    requires
        s0.targets@.contains_key(id.0),
        scan_event_applied(s0, s1, ScanEvent::Completed(id, first)),
        scan_event_applied(s1, s2, ScanEvent::Completed(id, second)),
    ensures
        s2.targets@.contains_key(id.0),
        s2.targets@[id.0].processes == second,
        s2.targets@[id.0].status == status_for_count(second@.len()),
{
}

} // verus!
