//! The paths registered for a target: a file alone, or a folder with its
//! direct children (files and folders one level down, never deeper).
//!
//! Reading the folder is left to the caller; here the folder and what was
//! read of it are put in order: the folder first, then its children sorted
//! by their text.

use vstd::prelude::*;
use vstd::relations::{sorted_by, total_ordering};

use crate::state::target::TargetKind;
use crate::text::chars_of;

verus! {

/// Whether `a` comes before `b` or equals it, comparing character codes
/// from the left (a prefix comes first). This is the order of the UTF-8
/// bytes of the two texts.
pub open spec fn text_le(a: Seq<char>, b: Seq<char>) -> bool
    decreases a.len(),
{
    if a.len() == 0 {
        true
    } else if b.len() == 0 {
        false
    } else if a[0] != b[0] {
        a[0] < b[0]
    } else {
        text_le(a.skip(1), b.skip(1))
    }
}

proof fn lemma_text_le_refl(a: Seq<char>)
    ensures
        text_le(a, a),
    decreases a.len(),
{
    if a.len() > 0 {
        lemma_text_le_refl(a.skip(1));
    }
}

proof fn lemma_text_le_total(a: Seq<char>, b: Seq<char>)
    ensures
        text_le(a, b) || text_le(b, a),
    decreases a.len(),
{
    if a.len() > 0 && b.len() > 0 && a[0] == b[0] {
        lemma_text_le_total(a.skip(1), b.skip(1));
    }
}

proof fn lemma_text_le_antisym(a: Seq<char>, b: Seq<char>)
    requires
        text_le(a, b),
        text_le(b, a),
    ensures
        a == b,
    decreases a.len(),
{
    if a.len() == 0 {
        assert(b.len() == 0);
        assert(a =~= b);
    } else {
        assert(b.len() > 0);
        assert(a[0] == b[0]);
        lemma_text_le_antisym(a.skip(1), b.skip(1));
        assert(a =~= seq![a[0]] + a.skip(1));
        assert(b =~= seq![b[0]] + b.skip(1));
    }
}

proof fn lemma_text_le_trans(a: Seq<char>, b: Seq<char>, c: Seq<char>)
    requires
        text_le(a, b),
        text_le(b, c),
    ensures
        text_le(a, c),
    decreases a.len(),
{
    if a.len() > 0 && b.len() > 0 && c.len() > 0 && a[0] == b[0] && b[0] == c[0] {
        lemma_text_le_trans(a.skip(1), b.skip(1), c.skip(1));
    }
}

/// `text_le` is a total order on texts: reflexive, antisymmetric,
/// transitive and total.
pub proof fn lemma_text_order()
    ensures
        total_ordering(|a: Seq<char>, b: Seq<char>| text_le(a, b)),
{
    let le = |a: Seq<char>, b: Seq<char>| text_le(a, b);
    assert forall|x: Seq<char>| #[trigger] le(x, x) by {
        lemma_text_le_refl(x);
    }
    assert forall|x: Seq<char>, y: Seq<char>| #[trigger] le(x, y) && #[trigger] le(y, x) implies x == y by {
        lemma_text_le_antisym(x, y);
    }
    assert forall|x: Seq<char>, y: Seq<char>, z: Seq<char>| #[trigger] le(x, y) && #[trigger] le(y, z) implies le(x, z) by {
        lemma_text_le_trans(x, y, z);
    }
    assert forall|x: Seq<char>, y: Seq<char>| #[trigger] le(x, y) || #[trigger] le(y, x) by {
        lemma_text_le_total(x, y);
    }
}

/// Whether `a` comes before `b` or equals it.
fn chars_le(a: &Vec<char>, b: &Vec<char>) -> (r: bool)
    ensures
        r == text_le(a@, b@),
{
    let mut i: usize = 0;
    assert(a@.skip(0) =~= a@ && b@.skip(0) =~= b@);
    while i < a.len() && i < b.len() && a[i] == b[i]
        invariant
            i <= a@.len(),
            i <= b@.len(),
            a@.take(i as int) == b@.take(i as int),
            text_le(a@, b@) == text_le(a@.skip(i as int), b@.skip(i as int)),
        decreases a@.len() - i,
    {
        proof {
            assert(a@.skip(i as int).skip(1) =~= a@.skip(i + 1));
            assert(b@.skip(i as int).skip(1) =~= b@.skip(i + 1));
            assert(a@.take(i + 1) =~= a@.take(i as int).push(a@[i as int]));
            assert(b@.take(i + 1) =~= b@.take(i as int).push(b@[i as int]));
        }
        i = i + 1;
    }
    if i == a.len() {
        true
    } else if i == b.len() {
        false
    } else {
        a[i] < b[i]
    }
}

/// The texts of `paths`.
pub open spec fn texts(paths: Seq<String>) -> Seq<Seq<char>> {
    paths.map_values(|p: String| p@)
}

/// Sorts `items` by their text, keeping every item.
fn sort_by_text(items: Vec<String>) -> (out: Vec<String>)
    ensures
        sorted_by(texts(out@), |a: Seq<char>, b: Seq<char>| text_le(a, b)),
        texts(out@).to_multiset() == texts(items@).to_multiset(),
{
    broadcast use vstd::seq_lib::group_to_multiset_ensures;
    let ghost all = items@;
    let mut rest = items;
    let mut out: Vec<String> = Vec::new();
    let mut i: usize = 0;
    let n = rest.len();
    assert(all.skip(0) =~= all);
    assert(texts(all.take(0)) =~= Seq::<Seq<char>>::empty());
    assert(texts(out@) =~= Seq::<Seq<char>>::empty());
    while rest.len() > 0
        invariant
            n == all.len(),
            i <= n,
            rest@ == all.skip(i as int),
            sorted_by(texts(out@), |a: Seq<char>, b: Seq<char>| text_le(a, b)),
            texts(out@).to_multiset() == texts(all.take(i as int)).to_multiset(),
        decreases rest@.len(),
    {
        let item = rest.remove(0);
        assert(item == all[i as int]);
        let ic = chars_of(item.as_str());
        let mut pos: usize = 0;
        while pos < out.len() && chars_le(&chars_of(out[pos].as_str()), &ic)
            invariant
                pos <= out@.len(),
                ic@ == item@,
                forall|k: int| 0 <= k < pos ==> text_le(out@[k]@, item@),
            decreases out@.len() - pos,
        {
            pos = pos + 1;
        }
        let ghost before = out@;
        out.insert(pos, item);
        proof {
            lemma_text_order();
            let le = |a: Seq<char>, b: Seq<char>| text_le(a, b);
            if pos < before.len() {
                lemma_text_le_total(before[pos as int]@, item@);
            }
            assert(texts(out@) =~= texts(before).insert(pos as int, item@));
            assert forall|a: int, b: int| 0 <= a < b < texts(out@).len() implies #[trigger] le(
                texts(out@)[a],
                texts(out@)[b],
            ) by {
                if b < pos {
                    assert(le(texts(before)[a], texts(before)[b]));
                } else if b == pos {
                } else if a == pos {
                    assert(le(texts(before)[pos as int], texts(before)[b - 1]) || pos == b - 1);
                    if pos < b - 1 {
                        lemma_text_le_trans(item@, before[pos as int]@, before[b - 1]@);
                    }
                } else if a < pos {
                    assert(le(texts(before)[a], texts(before)[b - 1]));
                } else {
                    assert(le(texts(before)[a - 1], texts(before)[b - 1]));
                }
            }
            assert(texts(all.take(i + 1)) =~= texts(all.take(i as int)).push(item@));
            vstd::seq_lib::to_multiset_insert(texts(before), pos as int, item@);
            vstd::seq_lib::to_multiset_build(texts(all.take(i as int)), item@);
        }
        i = i + 1;
        assert(rest@ =~= all.skip(i as int));
    }
    assert(all.take(n as int) =~= all);
    out
}

/// The paths registered for a folder `root` whose direct children were
/// read as `children`: the folder first, then its children in the order of
/// their text.
pub fn registered_with_children(root: String, children: Vec<String>) -> (paths: Vec<String>)
    ensures
        paths@.len() == children@.len() + 1,
        paths@[0] == root,
        sorted_by(texts(paths@.skip(1)), |a: Seq<char>, b: Seq<char>| text_le(a, b)),
        texts(paths@.skip(1)).to_multiset() == texts(children@).to_multiset(),
{
    broadcast use vstd::seq_lib::group_to_multiset_ensures;
    let sorted = sort_by_text(children);
    let mut paths: Vec<String> = Vec::new();
    paths.push(root);
    let mut rest = sorted;
    let ghost s = rest@;
    let n = rest.len();
    let mut i: usize = 0;
    assert(s.skip(0) =~= s);
    while rest.len() > 0
        invariant
            n == s.len(),
            i <= s.len(),
            rest@ == s.skip(i as int),
            paths@.len() == i + 1,
            paths@[0] == root,
            paths@.skip(1) == s.take(i as int),
        decreases rest@.len(),
    {
        let p = rest.remove(0);
        paths.push(p);
        i = i + 1;
        assert(paths@.skip(1) =~= s.take(i as int));
        assert(rest@ =~= s.skip(i as int));
    }
    assert(s.take(i as int) =~= s);
    proof {
        assert(texts(paths@.skip(1)) =~= texts(s));
        vstd::seq_lib::to_multiset_len(texts(s));
        vstd::seq_lib::to_multiset_len(texts(children@));
    }
    paths
}

/// The paths registered for a target at `path` of kind `kind`, whose direct
/// children, for a folder, were read as `children`: a file alone; a folder
/// first, then its children in the order of their text.
pub fn registered_paths(path: &String, kind: TargetKind, children: Vec<String>) -> (paths: Vec<String>)
    ensures
        kind is File ==> paths@ == seq![*path],
        kind is Directory ==> {
            &&& paths@.len() == children@.len() + 1
            &&& paths@[0] == *path
            &&& sorted_by(texts(paths@.skip(1)), |a: Seq<char>, b: Seq<char>| text_le(a, b))
            &&& texts(paths@.skip(1)).to_multiset() == texts(children@).to_multiset()
        },
{
    match kind {
        TargetKind::File => {
            let mut paths: Vec<String> = Vec::new();
            paths.push(path.clone());
            paths
        },
        TargetKind::Directory => registered_with_children(path.clone(), children),
    }
}

} // verus!
