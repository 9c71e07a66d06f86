//! The order in which a sync directory's entries are uploaded: by path, comparing the
//! names from the sync directory down one by one, each name character by character.
//! That is a depth-first walk with the entries of each directory sorted by name, so a
//! directory comes before everything below it.

use vstd::prelude::*;
use crate::deploy::LocalEntry;
use crate::text::{chars_of, str_eq, views};

verus! {

broadcast use {
    vstd::seq_lib::to_multiset_build,
    vstd::seq_lib::to_multiset_insert,
    vstd::seq_lib::to_multiset_len,
    vstd::multiset::lemma_multiset_empty_len,
    vstd::multiset::group_multiset_axioms,
};

/// `a` sorts before `b`: at the first position where they differ the character of `a` is
/// the smaller (by code point), or `a` is a proper prefix of `b`.
pub open spec fn name_lt(a: Seq<char>, b: Seq<char>) -> bool
    decreases a.len(),
{
    if a.len() == 0 {
        b.len() > 0
    } else if b.len() == 0 {
        false
    } else if a[0] != b[0] {
        (a[0] as u32) < (b[0] as u32)
    } else {
        name_lt(a.skip(1), b.skip(1))
    }
}

/// The path `a` (a list of names) sorts before `b`: at the first name where they differ
/// the name of `a` sorts first, or `a` is a proper prefix of `b` (a directory before what
/// is below it).
pub open spec fn path_lt(a: Seq<Seq<char>>, b: Seq<Seq<char>>) -> bool
    decreases a.len(),
{
    if a.len() == 0 {
        b.len() > 0
    } else if b.len() == 0 {
        false
    } else if a[0] != b[0] {
        name_lt(a[0], b[0])
    } else {
        path_lt(a.skip(1), b.skip(1))
    }
}

/// The entry `x` sorts before `y`, by their paths below the sync directory.
pub open spec fn entry_lt(x: LocalEntry, y: LocalEntry) -> bool {
    path_lt(views(x.rel@), views(y.rel@))
}

/// No entry of `es` sorts before an entry that precedes it.
pub open spec fn in_walk_order(es: Seq<LocalEntry>) -> bool {
    forall|i: int, j: int| 0 <= i < j < es.len() ==> !entry_lt(#[trigger] es[j], #[trigger] es[i])
}

proof fn lemma_name_lt_irreflexive(a: Seq<char>)
    ensures
        !name_lt(a, a),
    decreases a.len(),
{
    if a.len() > 0 {
        lemma_name_lt_irreflexive(a.skip(1));
    }
}

proof fn lemma_name_lt_transitive(a: Seq<char>, b: Seq<char>, c: Seq<char>)
    requires
        name_lt(a, b),
        name_lt(b, c),
    ensures
        name_lt(a, c),
    decreases a.len(),
{
    if a.len() > 0 && a[0] == b[0] && b[0] == c[0] {
        lemma_name_lt_transitive(a.skip(1), b.skip(1), c.skip(1));
    }
}

proof fn lemma_path_lt_irreflexive(a: Seq<Seq<char>>)
    ensures
        !path_lt(a, a),
    decreases a.len(),
{
    if a.len() > 0 {
        lemma_path_lt_irreflexive(a.skip(1));
    }
}

proof fn lemma_path_lt_transitive(a: Seq<Seq<char>>, b: Seq<Seq<char>>, c: Seq<Seq<char>>)
    requires
        path_lt(a, b),
        path_lt(b, c),
    ensures
        path_lt(a, c),
    decreases a.len(),
{
    if a.len() > 0 && b.len() > 0 && c.len() > 0 {
        if a[0] != b[0] && b[0] != c[0] {
            lemma_name_lt_transitive(a[0], b[0], c[0]);
            if a[0] == c[0] {
                lemma_name_lt_irreflexive(a[0]);
            }
        } else if a[0] == b[0] && b[0] == c[0] {
            lemma_path_lt_transitive(a.skip(1), b.skip(1), c.skip(1));
        }
    }
}

/// A proper prefix of a path sorts before it.
proof fn lemma_prefix_path_lt(a: Seq<Seq<char>>, b: Seq<Seq<char>>)
    requires
        a.len() < b.len(),
        a =~= b.take(a.len() as int),
    ensures
        path_lt(a, b),
    decreases a.len(),
{
    if a.len() > 0 {
        assert(a[0] == b[0]);
        lemma_prefix_path_lt(a.skip(1), b.skip(1));
    }
}

/// Whether `a` sorts before `b`.
fn name_lt_exec(a: &str, b: &str) -> (r: bool)
    ensures
        r == name_lt(a@, b@),
{
    let ca = chars_of(a);
    let cb = chars_of(b);
    let mut i: usize = 0;
    assert(a@.skip(0) =~= a@ && b@.skip(0) =~= b@);
    while i < ca.len() && i < cb.len() && ca[i] == cb[i]
        invariant
            ca@ == a@,
            cb@ == b@,
            i <= ca@.len(),
            i <= cb@.len(),
            name_lt(a@, b@) == name_lt(a@.skip(i as int), b@.skip(i as int)),
        decreases ca@.len() - i,
    {
        assert(a@.skip(i as int).skip(1) =~= a@.skip(i + 1));
        assert(b@.skip(i as int).skip(1) =~= b@.skip(i + 1));
        i = i + 1;
    }
    if i == ca.len() {
        i < cb.len()
    } else if i == cb.len() {
        false
    } else {
        (ca[i] as u32) < (cb[i] as u32)
    }
}

/// Whether the path `a` sorts before `b`.
fn path_lt_exec(a: &Vec<String>, b: &Vec<String>) -> (r: bool)
    ensures
        r == path_lt(views(a@), views(b@)),
{
    let ghost va = views(a@);
    let ghost vb = views(b@);
    let mut i: usize = 0;
    assert(va.skip(0) =~= va && vb.skip(0) =~= vb);
    while i < a.len() && i < b.len() && str_eq(a[i].as_str(), b[i].as_str())
        invariant
            va == views(a@),
            vb == views(b@),
            i <= a@.len(),
            i <= b@.len(),
            path_lt(va, vb) == path_lt(va.skip(i as int), vb.skip(i as int)),
        decreases a@.len() - i,
    {
        assert(va.skip(i as int).skip(1) =~= va.skip(i + 1));
        assert(vb.skip(i as int).skip(1) =~= vb.skip(i + 1));
        i = i + 1;
    }
    if i == a.len() {
        i < b.len()
    } else if i == b.len() {
        false
    } else {
        assert(va.skip(i as int)[0] == va[i as int]);
        assert(vb.skip(i as int)[0] == vb[i as int]);
        name_lt_exec(a[i].as_str(), b[i].as_str())
    }
}

/// The entries of a sync directory, in any order, put in walk order: by path, so the
/// names within each directory are sorted and a directory comes before its contents.
pub fn order_listing(entries: Vec<LocalEntry>) -> (r: Vec<LocalEntry>)
    ensures
        r@.to_multiset() == entries@.to_multiset(),
        in_walk_order(r@),
{
    let mut rest = entries;
    let ghost all = rest@.to_multiset();
    let mut out: Vec<LocalEntry> = Vec::new();
    assert(out@.to_multiset().len() == 0);
    assert(out@.to_multiset().add(rest@.to_multiset()) =~= all);
    while rest.len() > 0
        invariant
            out@.to_multiset().add(rest@.to_multiset()) == all,
            in_walk_order(out@),
        decreases rest@.len(),
    {
        let ghost r0 = rest@;
        let e = rest.pop().unwrap();
        assert(r0 =~= rest@.push(e));
        let mut k: usize = 0;
        while k < out.len() && !path_lt_exec(&e.rel, &out[k].rel)
            invariant
                k <= out@.len(),
                forall|m: int| 0 <= m < k ==> !entry_lt(e, #[trigger] out@[m]),
            decreases out@.len() - k,
        {
            k = k + 1;
        }
        let ghost o0 = out@;
        out.insert(k, e);
        proof {
            let o1 = out@;
            assert(o1 =~= o0.insert(k as int, e));
            assert forall|i: int, j: int| 0 <= i < j < o1.len() implies !entry_lt(
                #[trigger] o1[j],
                #[trigger] o1[i],
            ) by {
                if i < k && j == k {
                } else if i < k && j > k {
                    assert(o1[j] == o0[j - 1]);
                    assert(o1[i] == o0[i]);
                } else if i == k {
                    // e before the later entries: o0[k] follows e, and o0 is ordered.
                    let y = o0[j - 1];
                    assert(o1[j] == y);
                    if entry_lt(y, e) {
                        let ve = views(e.rel@);
                        let vy = views(y.rel@);
                        assert(k < o0.len());
                        let z = o0[k as int];
                        assert(path_lt(ve, views(z.rel@)));
                        lemma_path_lt_transitive(vy, ve, views(z.rel@));
                        if j - 1 == k {
                            lemma_path_lt_irreflexive(vy);
                        } else {
                            assert(!entry_lt(o0[j - 1], o0[k as int]));
                        }
                    }
                } else if i > k {
                    assert(o1[j] == o0[j - 1]);
                    assert(o1[i] == o0[i - 1]);
                } else {
                    assert(o1[i] == o0[i]);
                    assert(o1[j] == o0[j]);
                }
            }
            assert(out@.to_multiset() == o0.to_multiset().insert(e));
            assert(r0.to_multiset() == rest@.to_multiset().insert(e));
            assert(out@.to_multiset().add(rest@.to_multiset()) =~= o0.to_multiset().add(r0.to_multiset()));
        }
    }
    assert(rest@.to_multiset().len() == 0);
    assert(out@.to_multiset().add(rest@.to_multiset()) =~= out@.to_multiset());
    out
}

/// In walk order a directory comes before everything below it: when the path of one
/// entry is a proper prefix of another's, it stands earlier.
pub proof fn lemma_parent_before_child(es: Seq<LocalEntry>, i: int, j: int)
    requires
        in_walk_order(es),
        0 <= i < es.len(),
        0 <= j < es.len(),
        views(es[i].rel@).len() < views(es[j].rel@).len(),
        views(es[i].rel@) =~= views(es[j].rel@).take(views(es[i].rel@).len() as int),
    ensures
        i < j,
{
    lemma_prefix_path_lt(views(es[i].rel@), views(es[j].rel@));
    if j < i {
        assert(!entry_lt(es[i], es[j]));
    }
}

/// In walk order the entries of one directory are sorted by name: of two entries with
/// the same parent path, the one whose name sorts first stands earlier.
pub proof fn lemma_siblings_by_name(es: Seq<LocalEntry>, i: int, j: int)
    requires
        in_walk_order(es),
        0 <= i < es.len(),
        0 <= j < es.len(),
        views(es[i].rel@).len() == views(es[j].rel@).len(),
        views(es[i].rel@).len() > 0,
        views(es[i].rel@).drop_last() =~= views(es[j].rel@).drop_last(),
        name_lt(views(es[i].rel@).last(), views(es[j].rel@).last()),
    ensures
        i < j,
{
    let a = views(es[i].rel@);
    let b = views(es[j].rel@);
    lemma_same_parent_lt(a, b);
    if j < i {
        assert(!entry_lt(es[i], es[j]));
    } else if i == j {
        lemma_name_lt_irreflexive(a.last());
    }
}

proof fn lemma_same_parent_lt(a: Seq<Seq<char>>, b: Seq<Seq<char>>)
    requires
        a.len() == b.len(),
        a.len() > 0,
        a.drop_last() =~= b.drop_last(),
        name_lt(a.last(), b.last()),
    ensures
        path_lt(a, b),
    decreases a.len(),
{
    if a.len() == 1 {
        lemma_name_lt_irreflexive(a[0]);
        assert(a[0] != b[0]);
    } else {
        assert(a[0] == a.drop_last()[0]);
        assert(b[0] == b.drop_last()[0]);
        assert(a.skip(1).drop_last() =~= a.drop_last().skip(1));
        assert(b.skip(1).drop_last() =~= b.drop_last().skip(1));
        lemma_same_parent_lt(a.skip(1), b.skip(1));
    }
}

} // verus!
