//! Which processes count as system processes, which are never terminated.
//!
//! Three layers decide, in order:
//! 1. process id 0 or 4, or a name on the blacklist;
//! 2. a well-known service account (`S-1-5-18`, `S-1-5-19`, `S-1-5-20`)
//!    running an image under `%WINDIR%\System32` or `%WINDIR%\SysWOW64`;
//! 3. neither the image path nor the owner could be read: the process is
//!    taken for a system process, to be safe.

use vstd::prelude::*;

pub mod blacklist;

use crate::text::{chars_of, concat2, starts_with_str, str_eq};
use blacklist::{blacklisted, is_blacklisted};

verus! {

/// What the classification reads of a process.
#[derive(Debug, Clone)]
pub struct PartialRecord {
    pub pid: u32,
    pub name: String,
    pub image_path: Option<String>,
    pub user_sid: Option<String>,
}

/// Whether `c` separates path components on Windows.
pub open spec fn is_separator(c: char) -> bool {
    c == '\\' || c == '/'
}

/// `dir` joined with the relative component `comp`: a backslash goes
/// between them unless `dir` is empty or already ends with a separator.
pub open spec fn join_dir(dir: Seq<char>, comp: Seq<char>) -> Seq<char> {
    if dir.len() == 0 || is_separator(dir.last()) {
        dir + comp
    } else {
        dir + seq!['\\'] + comp
    }
}

/// The components completed so far and the one being read, after `c`: a
/// separator closes the one being read.
pub open spec fn split_step(state: (Seq<Seq<char>>, Seq<char>), c: char) -> (Seq<Seq<char>>, Seq<char>) {
    if is_separator(c) {
        (close_component(state.0, state.1), Seq::empty())
    } else {
        (state.0, state.1.push(c))
    }
}

/// `done` with the component `cur` closed: an empty component (between
/// two separators) and `.` are no components.
pub open spec fn close_component(done: Seq<Seq<char>>, cur: Seq<char>) -> Seq<Seq<char>> {
    if cur.len() == 0 || cur == seq!['.'] {
        done
    } else {
        done.push(cur)
    }
}

/// The components completed and the one being read after the characters
/// `p`, read from the left.
pub open spec fn split_prefix(p: Seq<char>) -> (Seq<Seq<char>>, Seq<char>)
    decreases p.len(),
{
    if p.len() == 0 {
        (Seq::empty(), Seq::empty())
    } else {
        split_step(split_prefix(p.drop_last()), p.last())
    }
}

/// The root component, which a path that starts with a separator has
/// first. No other component holds a separator.
pub open spec fn root_component() -> Seq<char> {
    seq!['\\']
}

/// The components of the path `p`: the root when `p` starts with a
/// separator, then the texts between separators (either slash), where runs
/// of separators count as one and `.` is skipped.
pub open spec fn path_components(p: Seq<char>) -> Seq<Seq<char>> {
    let s = split_prefix(p);
    let body = close_component(s.0, s.1);
    if p.len() > 0 && is_separator(p[0]) {
        seq![root_component()] + body
    } else {
        body
    }
}

/// Whether the path `p` lies in `dir` or is `dir` itself, comparing whole
/// components: the components of `dir` begin those of `p`.
pub open spec fn path_under(p: Seq<char>, dir: Seq<char>) -> bool {
    let pc = path_components(p);
    let dc = path_components(dir);
    dc.len() <= pc.len() && pc.take(dc.len() as int) == dc
}

/// Whether `sid` is the SID of `LocalSystem`, `LocalService` or
/// `NetworkService`.
pub open spec fn is_service_sid(sid: Seq<char>) -> bool {
    sid == "S-1-5-18"@ || sid == "S-1-5-19"@ || sid == "S-1-5-20"@
}

/// Whether `p` is an image in the system directories of the Windows
/// directory `windir`.
pub open spec fn in_system_dir(p: Seq<char>, windir: Seq<char>) -> bool {
    path_under(p, join_dir(windir, "System32"@)) || path_under(p, join_dir(windir, "SysWOW64"@))
}

/// Whether a process counts as a system process, given the Windows
/// directory `windir`.
pub open spec fn is_system_spec(rec: PartialRecord, windir: Seq<char>) -> bool {
    ||| rec.pid == 0 || rec.pid == 4
    ||| blacklisted(rec.name@)
    ||| (rec.image_path is Some && in_system_dir(rec.image_path->0@, windir) && rec.user_sid is Some
        && is_service_sid(rec.user_sid->0@))
    ||| (rec.image_path is None && rec.user_sid is None)
}

fn is_separator_char(c: char) -> (b: bool)
    ensures
        b == is_separator(c),
{
    c == '\\' || c == '/'
}

/// `dir` joined with the relative component `comp`.
fn join_dir_string(dir: &str, comp: &str) -> (s: String)
    ensures
        s@ == join_dir(dir@, comp@),
{
    let cs = chars_of(dir);
    if cs.len() == 0 || is_separator_char(cs[cs.len() - 1]) {
        concat2(dir, comp)
    } else {
        let mut s = String::from_str(dir);
        s.append("\\");
        s.append(comp);
        proof {
            reveal_strlit("\\");
        }
        assert(s@ =~= dir@ + seq!['\\'] + comp@);
        s
    }
}

/// The texts of the components `v`.
pub open spec fn component_texts(v: Seq<Vec<char>>) -> Seq<Seq<char>> {
    v.map_values(|c: Vec<char>| c@)
}

/// Whether `cur` is a component when closed: neither empty nor `.`.
fn is_component(cur: &Vec<char>) -> (b: bool)
    ensures
        b == !(cur@.len() == 0 || cur@ == seq!['.']),
{
    if cur.len() == 0 {
        false
    } else if cur.len() == 1 && cur[0] == '.' {
        assert(cur@ =~= seq!['.']);
        false
    } else {
        true
    }
}

/// The components of the path `p`.
fn components_of(p: &str) -> (v: Vec<Vec<char>>)
    ensures
        component_texts(v@) == path_components(p@),
{
    let cs = chars_of(p);
    let mut done: Vec<Vec<char>> = Vec::new();
    let mut cur: Vec<char> = Vec::new();
    let mut i: usize = 0;
    assert(p@.take(0) =~= Seq::<char>::empty());
    assert(component_texts(done@) =~= Seq::<Seq<char>>::empty());
    while i < cs.len()
        invariant
            i <= cs@.len(),
            cs@ == p@,
            (component_texts(done@), cur@) == split_prefix(p@.take(i as int)),
        decreases cs@.len() - i,
    {
        let c = cs[i];
        let ghost before = (component_texts(done@), cur@);
        if is_separator_char(c) {
            if is_component(&cur) {
                let ghost cv = cur@;
                done.push(cur);
                assert(component_texts(done@) =~= before.0.push(cv));
            }
            cur = Vec::new();
        } else {
            cur.push(c);
        }
        assert(p@.take(i + 1).drop_last() =~= p@.take(i as int));
        assert(p@.take(i + 1).last() == c);
        i = i + 1;
    }
    assert(p@.take(i as int) =~= p@);
    if is_component(&cur) {
        let ghost before = component_texts(done@);
        let ghost cv = cur@;
        done.push(cur);
        assert(component_texts(done@) =~= before.push(cv));
    }
    if cs.len() > 0 && is_separator_char(cs[0]) {
        let mut root: Vec<char> = Vec::new();
        root.push('\\');
        let mut out: Vec<Vec<char>> = Vec::new();
        out.push(root);
        let ghost body = component_texts(done@);
        let ghost first = component_texts(out@);
        assert(first =~= seq![root_component()]);
        out.append(&mut done);
        assert(component_texts(out@) =~= first + body);
        out
    } else {
        done
    }
}

/// Whether the texts `a` and `b` are the same.
fn chars_equal(a: &Vec<char>, b: &Vec<char>) -> (r: bool)
    ensures
        r == (a@ == b@),
{
    if a.len() != b.len() {
        return false;
    }
    let mut i: usize = 0;
    while i < a.len()
        invariant
            i <= a@.len(),
            a@.len() == b@.len(),
            forall|k: int| 0 <= k < i ==> a@[k] == b@[k],
        decreases a@.len() - i,
    {
        if a[i] != b[i] {
            return false;
        }
        i = i + 1;
    }
    assert(a@ =~= b@);
    true
}

/// Whether the path `p` lies in `dir` or is `dir` itself.
fn is_path_under(p: &str, dir: &str) -> (b: bool)
    ensures
        b == path_under(p@, dir@),
{
    let pc = components_of(p);
    let dc = components_of(dir);
    let ghost pt = component_texts(pc@);
    let ghost dt = component_texts(dc@);
    if dc.len() > pc.len() {
        return false;
    }
    let mut i: usize = 0;
    while i < dc.len()
        invariant
            dc@.len() <= pc@.len(),
            i <= dc@.len(),
            pt == component_texts(pc@),
            dt == component_texts(dc@),
            pt == path_components(p@),
            dt == path_components(dir@),
            forall|k: int| 0 <= k < i ==> pt[k] == dt[k],
        decreases dc@.len() - i,
    {
        if !chars_equal(&pc[i], &dc[i]) {
            assert(pt[i as int] == pc@[i as int]@ && dt[i as int] == dc@[i as int]@);
            assert(pt.take(dt.len() as int)[i as int] != dt[i as int]);
            assert(pt.take(dt.len() as int) != dt);
            return false;
        }
        i = i + 1;
    }
    assert(pt.take(dt.len() as int) =~= dt);
    true
}

fn is_service_sid_str(sid: &str) -> (b: bool)
    ensures
        b == is_service_sid(sid@),
{
    str_eq(sid, "S-1-5-18") || str_eq(sid, "S-1-5-19") || str_eq(sid, "S-1-5-20")
}

/// Whether a process counts as a system process, given the Windows
/// directory `windir` (the value of `%WINDIR%`, `C:\Windows` when unset).
pub fn is_system_process(rec: &PartialRecord, windir: &str) -> (b: bool)
    ensures
        b == is_system_spec(*rec, windir@),
{
    if rec.pid == 0 || rec.pid == 4 {
        return true;
    }
    if is_blacklisted(rec.name.as_str()) {
        return true;
    }
    let sys32 = join_dir_string(windir, "System32");
    let syswow = join_dir_string(windir, "SysWOW64");
    let in_sys_dir = match &rec.image_path {
        Some(p) => is_path_under(p.as_str(), sys32.as_str()) || is_path_under(
            p.as_str(),
            syswow.as_str(),
        ),
        None => false,
    };
    let sys_account = match &rec.user_sid {
        Some(s) => is_service_sid_str(s.as_str()),
        None => false,
    };
    if in_sys_dir && sys_account {
        return true;
    }
    if rec.image_path.is_none() && rec.user_sid.is_none() {
        return true;
    }
    false
}

/// The three layers of the classification: process ids 0 and 4 and the
/// blacklisted names are always system processes, whatever else is known;
/// so is a process whose image path and owner are both unknown; and a
/// process that none of the layers catches is not one.
pub proof fn lemma_classification_layers(rec: PartialRecord, windir: Seq<char>)
    ensures
        rec.pid == 0 || rec.pid == 4 ==> is_system_spec(rec, windir),
        blacklisted(rec.name@) ==> is_system_spec(rec, windir),
        rec.image_path is None && rec.user_sid is None ==> is_system_spec(rec, windir),
        rec.pid != 0 && rec.pid != 4 && !blacklisted(rec.name@) && (rec.image_path is Some
            || rec.user_sid is Some) && !(rec.image_path is Some && in_system_dir(
            rec.image_path->0@,
            windir,
        )) ==> !is_system_spec(rec, windir),
        rec.pid != 0 && rec.pid != 4 && !blacklisted(rec.name@) && (rec.image_path is Some
            || rec.user_sid is Some) && !(rec.user_sid is Some && is_service_sid(rec.user_sid->0@))
            ==> !is_system_spec(rec, windir),
{
}

} // verus!
