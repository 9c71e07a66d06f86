//! `StrMap`: a map keyed by strings that keeps its entries in insertion order.
//!
//! Its model is a `Map` from the keys' character sequences to the values' views.

use vstd::prelude::*;
use crate::text::str_eq;

verus! {

/// The keys of a sequence of entries, as character sequences.
pub open spec fn entry_keys<V>(ps: Seq<(String, V)>) -> Seq<Seq<char>> {
    ps.map_values(|p: (String, V)| p.0@)
}

/// The map that a sequence of entries denotes; a later entry wins over an earlier one
/// with the same key.
pub open spec fn entries_map<V: View>(ps: Seq<(String, V)>) -> Map<Seq<char>, V::V>
    decreases ps.len(),
{
    if ps.len() == 0 {
        Map::empty()
    } else {
        entries_map(ps.drop_last()).insert(ps.last().0@, ps.last().1@)
    }
}

/// A map from strings to values, in insertion order, with no key twice.
#[derive(Debug)]
pub struct StrMap<V> {
    entries: Vec<(String, V)>,
}

impl<V: View> View for StrMap<V> {
    type V = Map<Seq<char>, V::V>;

    closed spec fn view(&self) -> Map<Seq<char>, V::V> {
        entries_map(self.entries@)
    }
}

pub proof fn lemma_entries_map_dom<V: View>(ps: Seq<(String, V)>, k: Seq<char>)
    ensures
        entries_map(ps).contains_key(k) <==> entry_keys(ps).contains(k),
    decreases ps.len(),
{
    if ps.len() > 0 {
        lemma_entries_map_dom(ps.drop_last(), k);
        assert(entry_keys(ps.drop_last()) =~= entry_keys(ps).drop_last());
        if entry_keys(ps).contains(k) {
            let i = choose|i: int| 0 <= i < entry_keys(ps).len() && entry_keys(ps)[i] == k;
            if i < ps.len() - 1 {
                assert(entry_keys(ps.drop_last())[i] == k);
            }
        }
        if entry_keys(ps.drop_last()).contains(k) {
            let i = choose|i: int|
                0 <= i < entry_keys(ps.drop_last()).len() && entry_keys(ps.drop_last())[i] == k;
            assert(entry_keys(ps)[i] == k);
        }
        if k == ps.last().0@ {
            assert(entry_keys(ps)[ps.len() - 1] == k);
        }
    }
}

/// A key of the map has an entry that holds it with its value.
pub proof fn lemma_entries_map_witness<V: View>(ps: Seq<(String, V)>, k: Seq<char>)
    requires
        entries_map(ps).contains_key(k),
    ensures
        exists|i: int| 0 <= i < ps.len() && (#[trigger] ps[i]).0@ == k && ps[i].1@ == entries_map(ps)[k],
    decreases ps.len(),
{
    if ps.last().0@ == k {
        assert(ps[ps.len() - 1] == ps.last());
    } else {
        lemma_entries_map_witness(ps.drop_last(), k);
        let i = choose|i: int|
            0 <= i < ps.drop_last().len() && (#[trigger] ps.drop_last()[i]).0@ == k && ps.drop_last()[i].1@
                == entries_map(ps.drop_last())[k];
        assert(ps[i] == ps.drop_last()[i]);
    }
}

/// `i` is the last entry whose key is `k`.
pub open spec fn is_last_with_key<V>(ps: Seq<(String, V)>, i: int, k: Seq<char>) -> bool {
    &&& 0 <= i < ps.len()
    &&& ps[i].0@ == k
    &&& forall|j: int| i < j < ps.len() ==> ps[j].0@ != k
}

/// Without repeated keys, every entry is the last with its key.
pub proof fn lemma_no_dup_last<V>(ps: Seq<(String, V)>, i: int)
    requires
        entry_keys(ps).no_duplicates(),
        0 <= i < ps.len(),
    ensures
        is_last_with_key(ps, i, ps[i].0@),
{
    assert forall|j: int| i < j < ps.len() implies ps[j].0@ != ps[i].0@ by {
        assert(entry_keys(ps)[j] != entry_keys(ps)[i]);
    }
}

pub proof fn lemma_entries_map_at<V: View>(ps: Seq<(String, V)>, i: int)
    requires
        is_last_with_key(ps, i, ps[i].0@),
    ensures
        entries_map(ps).contains_key(ps[i].0@),
        entries_map(ps)[ps[i].0@] == ps[i].1@,
    decreases ps.len(),
{
    if i < ps.len() - 1 {
        assert(ps.last().0@ != ps[i].0@);
        lemma_entries_map_at(ps.drop_last(), i);
    }
}

pub proof fn lemma_entries_map_update<V: View>(ps: Seq<(String, V)>, i: int, v: V)
    requires
        is_last_with_key(ps, i, ps[i].0@),
    ensures
        entries_map(ps.update(i, (ps[i].0, v))) == entries_map(ps).insert(ps[i].0@, v@),
        entry_keys(ps.update(i, (ps[i].0, v))) == entry_keys(ps),
    decreases ps.len(),
{
    let qs = ps.update(i, (ps[i].0, v));
    assert(entry_keys(qs) =~= entry_keys(ps));
    if i == ps.len() - 1 {
        assert(qs.drop_last() =~= ps.drop_last());
        let m = entries_map(ps.drop_last());
        assert(m.insert(ps[i].0@, v@) =~= m.insert(ps[i].0@, ps[i].1@).insert(ps[i].0@, v@));
    } else {
        assert(qs.drop_last() =~= ps.drop_last().update(i, (ps[i].0, v)));
        lemma_entries_map_update(ps.drop_last(), i, v);
        assert(ps.last().0@ != ps[i].0@);
        let m = entries_map(ps.drop_last());
        let a = ps.last();
        assert(m.insert(ps[i].0@, v@).insert(a.0@, a.1@) =~= m.insert(a.0@, a.1@).insert(
            ps[i].0@,
            v@,
        ));
    }
}

impl<V> StrMap<V> {
    /// No key occurs twice among the entries: the invariant of every `StrMap`.
    #[verifier::type_invariant]
    pub closed spec fn wf(self) -> bool {
        entry_keys(self.entries@).no_duplicates()
    }
}

impl<V: View> StrMap<V> {
    /// The keys in insertion order.
    pub closed spec fn key_seq(self) -> Seq<Seq<char>> {
        entry_keys(self.entries@)
    }

    /// The entries in insertion order.
    pub closed spec fn entry_seq(self) -> Seq<(String, V)> {
        self.entries@
    }

    /// The map is what its entries denote; in a well-formed map no key occurs twice.
    pub proof fn lemma_view(self)
        ensures
            self@ == entries_map(self.entry_seq()),
            self.key_seq() == entry_keys(self.entry_seq()),
            self.key_seq().len() == self.entry_seq().len(),
            self.wf() <==> self.key_seq().no_duplicates(),
    {
    }

    /// An empty map.
    pub fn new() -> (r: Self)
        ensures
            r@ == Map::<Seq<char>, V::V>::empty(),
            r.entry_seq().len() == 0,
    {
        let r = StrMap { entries: Vec::new() };
        assert(entry_keys(r.entries@) =~= Seq::<Seq<char>>::empty());
        r
    }

    /// The number of entries.
    pub fn len(&self) -> (r: usize)
        ensures
            r == self.entry_seq().len(),
            r == self@.len(),
    {
        proof {
            use_type_invariant(self);
            lemma_entries_map_len(self.entries@);
        }
        self.entries.len()
    }

    /// Whether the map has no entry.
    pub fn is_empty(&self) -> (r: bool)
        ensures
            r == (self.entry_seq().len() == 0),
            r == (self@ == Map::<Seq<char>, V::V>::empty()),
    {
        proof {
            let ps = self.entries@;
            if ps.len() > 0 {
                assert(self@.contains_key(ps.last().0@));
            } else {
                assert(self@ =~= Map::<Seq<char>, V::V>::empty());
            }
        }
        self.entries.len() == 0
    }

    /// The key of the `i`-th entry.
    pub fn key_at(&self, i: usize) -> (r: &String)
        requires
            i < self.entry_seq().len(),
        ensures
            *r == self.entry_seq()[i as int].0,
    {
        &self.entries[i].0
    }

    /// The value of the `i`-th entry.
    pub fn value_at(&self, i: usize) -> (r: &V)
        requires
            i < self.entry_seq().len(),
        ensures
            *r == self.entry_seq()[i as int].1,
    {
        &self.entries[i].1
    }

    /// The entries in insertion order.
    pub fn pairs(&self) -> (r: &[(String, V)])
        ensures
            r@ == self.entry_seq(),
    {
        self.entries.as_slice()
    }

    /// The position of the last entry with key `k`, if any.
    fn position(&self, k: &str) -> (r: Option<usize>)
        ensures
            match r {
                Some(i) => is_last_with_key(self.entry_seq(), i as int, k@),
                None => !self.key_seq().contains(k@),
            },
    {
        let n = self.entries.len();
        let mut i = n;
        while i > 0
            invariant
                n == self.entries@.len(),
                i <= n,
                forall|j: int| i <= j < n ==> self.entries@[j].0@ != k@,
            decreases i,
        {
            i = i - 1;
            if str_eq(self.entries[i].0.as_str(), k) {
                return Some(i);
            }
        }
        proof {
            if self.key_seq().contains(k@) {
                let j = choose|j: int| 0 <= j < self.key_seq().len() && self.key_seq()[j] == k@;
                assert(self.entries@[j].0@ == k@);
            }
        }
        None
    }

    /// Whether some entry has key `k`.
    pub fn contains_key(&self, k: &str) -> (r: bool)
        ensures
            r == self@.contains_key(k@),
    {
        proof {
            lemma_entries_map_dom(self.entries@, k@);
        }
        match self.position(k) {
            Some(i) => {
                proof {
                    assert(self.key_seq()[i as int] == k@);
                }
                true
            },
            None => false,
        }
    }

    /// The value stored under `k`, if any.
    pub fn get(&self, k: &str) -> (r: Option<&V>)
        ensures
            r is Some == self@.contains_key(k@),
            r is Some ==> r->0@ == self@[k@],
    {
        proof {
            lemma_entries_map_dom(self.entries@, k@);
        }
        match self.position(k) {
            Some(i) => {
                proof {
                    lemma_entries_map_at(self.entries@, i as int);
                }
                Some(&self.entries[i].1)
            },
            None => None,
        }
    }

    /// Store `v` under `k`. An existing entry keeps its place and gets the new value; a
    /// new key is appended. Returns the value that was replaced.
    pub fn insert(&mut self, k: String, v: V) -> (r: Option<V>)
        ensures
            final(self)@ == old(self)@.insert(k@, v@),
            r is Some == old(self)@.contains_key(k@),
            r is Some ==> r->0@ == old(self)@[k@],
            old(self)@.contains_key(k@) ==> final(self).key_seq() == old(self).key_seq(),
            !old(self)@.contains_key(k@) ==> final(self).key_seq() == old(self).key_seq().push(
                k@,
            ),
    {
        proof {
            use_type_invariant(&*self);
            lemma_entries_map_dom(self.entries@, k@);
        }
        let pos = self.position(k.as_str());
        let mut es: Vec<(String, V)> = Vec::new();
        std::mem::swap(&mut es, &mut self.entries);
        let ghost e0 = es@;
        assert(e0 == old(self).entries@);
        let r = match pos {
            Some(i) => {
                proof {
                    lemma_entries_map_at(e0, i as int);
                    lemma_entries_map_update(e0, i as int, v);
                }
                let key = es[i].0.clone();
                let mut slot = (key, v);
                es.set_and_swap(i, &mut slot);
                Some(slot.1)
            },
            None => {
                let ghost ks = entry_keys(es@);
                es.push((k, v));
                proof {
                    assert(entry_keys(es@) =~= ks.push(k@));
                    assert(es@.drop_last() =~= e0);
                }
                None
            },
        };
        self.entries = es;
        r
    }
}

pub proof fn lemma_entries_map_len<V: View>(ps: Seq<(String, V)>)
    requires
        entry_keys(ps).no_duplicates(),
    ensures
        entries_map(ps).len() == ps.len(),
        entries_map(ps).dom().finite(),
    decreases ps.len(),
{
    if ps.len() > 0 {
        let ks = entry_keys(ps);
        assert(entry_keys(ps.drop_last()) =~= ks.drop_last());
        lemma_entries_map_len(ps.drop_last());
        lemma_entries_map_dom(ps.drop_last(), ps.last().0@);
        if entry_keys(ps.drop_last()).contains(ps.last().0@) {
            let j = choose|j: int|
                0 <= j < ks.drop_last().len() && ks.drop_last()[j] == ps.last().0@;
            assert(ks[j] == ks[ps.len() - 1]);
        }
    }
}

impl Clone for StrMap<String> {
    fn clone(&self) -> (r: Self)
        ensures
            r@ == self@,
            r.key_seq() == self.key_seq(),
    {
        let mut entries: Vec<(String, String)> = Vec::new();
        let n = self.entries.len();
        for i in 0..n
            invariant
                n == self.entries@.len(),
                entries@.len() == i,
                forall|j: int|
                    0 <= j < i ==> (#[trigger] entries@[j]).0@ == self.entries@[j].0@
                        && entries@[j].1@ == self.entries@[j].1@,
        {
            let k = self.entries[i].0.clone();
            let v = self.entries[i].1.clone();
            entries.push((k, v));
        }
        proof {
            use_type_invariant(self);
            assert(entry_keys(entries@) =~= entry_keys(self.entries@));
            lemma_entries_map_same_views(entries@, self.entries@);
        }
        StrMap { entries }
    }
}

/// Entries with the same key and value views denote the same map.
pub proof fn lemma_entries_map_same_views(a: Seq<(String, String)>, b: Seq<(String, String)>)
    requires
        a.len() == b.len(),
        forall|j: int| 0 <= j < a.len() ==> (#[trigger] a[j]).0@ == b[j].0@ && a[j].1@ == b[j].1@,
    ensures
        entries_map(a) == entries_map(b),
    decreases a.len(),
{
    if a.len() > 0 {
        lemma_entries_map_same_views(a.drop_last(), b.drop_last());
        assert(a.last() == a[a.len() - 1]);
    }
}

} // verus!
