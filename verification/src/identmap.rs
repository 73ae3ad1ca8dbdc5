//! Maps keyed by entry identifiers, held as a list of pairs with distinct keys.

use vstd::prelude::*;

use crate::ident::{EntryIdent, EntryIdentView};

verus! {

/// The map that the pairs `s` denote: each pair sets its key, later pairs
/// over earlier ones.
pub open spec fn pairs_map<V>(s: Seq<(EntryIdent, V)>) -> Map<EntryIdentView, V>
    decreases s.len(),
{
    if s.len() == 0 {
        Map::empty()
    } else {
        pairs_map(s.drop_last()).insert(s.last().0@, s.last().1)
    }
}

/// No key occurs twice among the pairs `s`.
pub open spec fn keys_unique<V>(s: Seq<(EntryIdent, V)>) -> bool {
    forall|i: int, j: int| 0 <= i < j < s.len() ==> #[trigger] s[i].0@ != #[trigger] s[j].0@
}

/// A key is in the map exactly when some pair has it.
pub proof fn lemma_pairs_map_dom<V>(s: Seq<(EntryIdent, V)>, k: EntryIdentView)
    ensures
        pairs_map(s).contains_key(k) <==> exists|i: int| 0 <= i < s.len() && #[trigger] s[i].0@ == k,
    decreases s.len(),
{
    if s.len() > 0 {
        let d = s.drop_last();
        lemma_pairs_map_dom(d, k);
        if pairs_map(s).contains_key(k) {
            if k == s.last().0@ {
                assert(s[s.len() - 1].0@ == k);
            } else {
                let i = choose|i: int| 0 <= i < d.len() && #[trigger] d[i].0@ == k;
                assert(s[i] == d[i]);
            }
        }
        if exists|i: int| 0 <= i < s.len() && #[trigger] s[i].0@ == k {
            let i = choose|i: int| 0 <= i < s.len() && #[trigger] s[i].0@ == k;
            if i < s.len() - 1 {
                assert(d[i] == s[i]);
            }
        }
    }
}

/// With distinct keys, the value of a key is that of its pair.
pub proof fn lemma_pairs_map_value<V>(s: Seq<(EntryIdent, V)>, i: int)
    requires
        keys_unique(s),
        0 <= i < s.len(),
    ensures
        pairs_map(s).contains_key(s[i].0@),
        pairs_map(s)[s[i].0@] == s[i].1,
    decreases s.len(),
{
    let d = s.drop_last();
    if i < s.len() - 1 {
        assert(d[i] == s[i]);
        assert(keys_unique(d)) by {
            assert forall|a: int, b: int| 0 <= a < b < d.len() implies #[trigger] d[a].0@ != #[trigger] d[b].0@ by {
                assert(d[a] == s[a] && d[b] == s[b]);
            }
        }
        lemma_pairs_map_value(d, i);
        assert(s[i].0@ != s[s.len() - 1].0@);
    }
}

proof fn lemma_unique_drop_last<V>(s: Seq<(EntryIdent, V)>)
    requires
        keys_unique(s),
        s.len() > 0,
    ensures
        keys_unique(s.drop_last()),
        !pairs_map(s.drop_last()).contains_key(s.last().0@),
{
    let d = s.drop_last();
    assert forall|a: int, b: int| 0 <= a < b < d.len() implies #[trigger] d[a].0@ != #[trigger] d[b].0@ by {
        assert(d[a] == s[a] && d[b] == s[b]);
    }
    lemma_pairs_map_dom(d, s.last().0@);
    if pairs_map(d).contains_key(s.last().0@) {
        let i = choose|i: int| 0 <= i < d.len() && #[trigger] d[i].0@ == s.last().0@;
        assert(s[i] == d[i]);
        assert(s[i].0@ != s[s.len() - 1].0@);
    }
}

/// Replacing the pair of a key replaces that key's value.
pub proof fn lemma_pairs_map_update<V>(s: Seq<(EntryIdent, V)>, i: int, p: (EntryIdent, V))
    requires
        keys_unique(s),
        0 <= i < s.len(),
        p.0@ == s[i].0@,
    ensures
        keys_unique(s.update(i, p)),
        pairs_map(s.update(i, p)) == pairs_map(s).insert(p.0@, p.1),
    decreases s.len(),
{
    let t = s.update(i, p);
    assert forall|a: int, b: int| 0 <= a < b < t.len() implies #[trigger] t[a].0@ != #[trigger] t[b].0@ by {
        assert(t[a].0@ == s[a].0@ && t[b].0@ == s[b].0@);
    }
    let d = s.drop_last();
    lemma_unique_drop_last(s);
    if i == s.len() - 1 {
        assert(t.drop_last() =~= d);
        assert(pairs_map(t) =~= pairs_map(s).insert(p.0@, p.1));
    } else {
        assert(t.drop_last() =~= d.update(i, p));
        assert(d[i] == s[i]);
        lemma_pairs_map_update(d, i, p);
        assert(s[i].0@ != s[s.len() - 1].0@);
        assert(pairs_map(t) =~= pairs_map(s).insert(p.0@, p.1));
    }
}

/// Removing the pair of a key removes that key.
pub proof fn lemma_pairs_map_remove<V>(s: Seq<(EntryIdent, V)>, i: int)
    requires
        keys_unique(s),
        0 <= i < s.len(),
    ensures
        keys_unique(s.remove(i)),
        pairs_map(s.remove(i)) == pairs_map(s).remove(s[i].0@),
    decreases s.len(),
{
    let t = s.remove(i);
    assert forall|a: int, b: int| 0 <= a < b < t.len() implies #[trigger] t[a].0@ != #[trigger] t[b].0@ by {
        let a2 = if a < i { a } else { a + 1 };
        let b2 = if b < i { b } else { b + 1 };
        assert(t[a] == s[a2] && t[b] == s[b2]);
    }
    let d = s.drop_last();
    lemma_unique_drop_last(s);
    if i == s.len() - 1 {
        assert(t =~= d);
        assert(pairs_map(t) =~= pairs_map(s).remove(s[i].0@));
    } else {
        assert(t.drop_last() =~= d.remove(i));
        assert(t.last() == s.last());
        assert(d[i] == s[i]);
        lemma_pairs_map_remove(d, i);
        assert(s[i].0@ != s[s.len() - 1].0@);
        assert(pairs_map(t) =~= pairs_map(s).remove(s[i].0@));
    }
}

/// The pairs `s` and `t` hold the same keys, by view, and the same values, in the same order.
pub open spec fn same_pairs<V>(s: Seq<(EntryIdent, V)>, t: Seq<(EntryIdent, V)>) -> bool {
    &&& s.len() == t.len()
    &&& forall|i: int| 0 <= i < s.len() ==> #[trigger] s[i].0@ == t[i].0@ && s[i].1 == t[i].1
}

/// Pairs that agree key by key, by view, denote the same map.
pub proof fn lemma_same_pairs<V>(s: Seq<(EntryIdent, V)>, t: Seq<(EntryIdent, V)>)
    requires
        same_pairs(s, t),
    ensures
        pairs_map(s) == pairs_map(t),
        keys_unique(s) ==> keys_unique(t),
    decreases s.len(),
{
    if s.len() > 0 {
        let n = s.len() - 1;
        assert(s[n].0@ == t[n].0@ && s[n].1 == t[n].1);
        assert(same_pairs(s.drop_last(), t.drop_last())) by {
            assert forall|i: int| 0 <= i < s.drop_last().len() implies #[trigger] s.drop_last()[i].0@
                == t.drop_last()[i].0@ && s.drop_last()[i].1 == t.drop_last()[i].1 by {
                assert(s[i].0@ == t[i].0@ && s[i].1 == t[i].1);
            }
        }
        lemma_same_pairs(s.drop_last(), t.drop_last());
    }
    if keys_unique(s) {
        assert forall|a: int, b: int| 0 <= a < b < t.len() implies #[trigger] t[a].0@ != #[trigger] t[b].0@ by {
            assert(s[a].0@ == t[a].0@ && s[b].0@ == t[b].0@);
        }
    }
}

/// A map keyed by entry identifiers.
pub struct IdentMap<V> {
    entries: Vec<(EntryIdent, V)>,
}

impl<V> View for IdentMap<V> {
    type V = Map<EntryIdentView, V>;

    closed spec fn view(&self) -> Map<EntryIdentView, V> {
        pairs_map(self.entries@)
    }
}

impl<V> IdentMap<V> {
    #[verifier::type_invariant]
    spec fn distinct_keys(self) -> bool {
        keys_unique(self.entries@)
    }

    /// The empty map.
    pub fn new() -> (m: IdentMap<V>)
        ensures
            m@ == Map::<EntryIdentView, V>::empty(),
    {
        IdentMap { entries: Vec::new() }
    }

    /// The index of the pair with key `k`, if any.
    fn position(&self, k: &EntryIdent) -> (r: Option<usize>)
        ensures
            r matches Some(i) ==> i < self.entries@.len() && self.entries@[i as int].0@ == k@,
            r is None ==> forall|i: int| 0 <= i < self.entries@.len() ==> #[trigger] self.entries@[i].0@ != k@,
    {
        let mut i: usize = 0;
        while i < self.entries.len()
            invariant
                i <= self.entries@.len(),
                forall|j: int| 0 <= j < i ==> #[trigger] self.entries@[j].0@ != k@,
            decreases self.entries@.len() - i,
        {
            if self.entries[i].0.same_as(k) {
                return Some(i);
            }
            i = i + 1;
        }
        None
    }

    /// Whether `k` is a key, with its value.
    pub fn get(&self, k: &EntryIdent) -> (r: Option<&V>)
        ensures
            r matches Some(v) ==> self@.contains_key(k@) && self@[k@] == *v,
            r is None ==> !self@.contains_key(k@),
    {
        proof {
            use_type_invariant(self);
            lemma_pairs_map_dom(self.entries@, k@);
        }
        match self.position(k) {
            Some(i) => {
                proof {
                    lemma_pairs_map_value(self.entries@, i as int);
                }
                Some(&self.entries[i].1)
            },
            None => None,
        }
    }

    /// Sets the value of `k` to `v`.
    pub fn insert(&mut self, k: EntryIdent, v: V)
        ensures
            final(self)@ == old(self)@.insert(k@, v),
    {
        proof {
            use_type_invariant(&*self);
        }
        match self.position(&k) {
            Some(i) => {
                proof {
                    lemma_pairs_map_update(self.entries@, i as int, (k, v));
                }
                let mut es: Vec<(EntryIdent, V)> = Vec::new();
                std::mem::swap(&mut es, &mut self.entries);
                es.set(i, (k, v));
                self.entries = es;
            },
            None => {
                proof {
                    let s = self.entries@;
                    let t = s.push((k, v));
                    assert forall|a: int, b: int| 0 <= a < b < t.len() implies #[trigger] t[a].0@ != #[trigger] t[b].0@ by {
                        if b == s.len() {
                            assert(t[a] == s[a]);
                        } else {
                            assert(t[a] == s[a] && t[b] == s[b]);
                        }
                    }
                    assert(t.drop_last() =~= s);
                }
                let mut es: Vec<(EntryIdent, V)> = Vec::new();
                std::mem::swap(&mut es, &mut self.entries);
                es.push((k, v));
                self.entries = es;
            },
        }
    }

    /// Removes `k`; returns whether it was a key.
    pub fn remove(&mut self, k: &EntryIdent) -> (was: bool)
        ensures
            was == old(self)@.contains_key(k@),
            final(self)@ == old(self)@.remove(k@),
    {
        proof {
            use_type_invariant(&*self);
            lemma_pairs_map_dom(self.entries@, k@);
        }
        match self.position(k) {
            Some(i) => {
                proof {
                    lemma_pairs_map_remove(self.entries@, i as int);
                }
                let mut es: Vec<(EntryIdent, V)> = Vec::new();
                std::mem::swap(&mut es, &mut self.entries);
                es.remove(i);
                self.entries = es;
                true
            },
            None => {
                assert(old(self)@.remove(k@) =~= old(self)@);
                false
            },
        }
    }
}

impl<V: Copy> IdentMap<V> {
    /// The pairs of the map, each key once, as a list of their own.
    pub fn pairs(&self) -> (r: Vec<(EntryIdent, V)>)
        ensures
            pairs_map(r@) == self@,
            keys_unique(r@),
    {
        proof {
            use_type_invariant(self);
        }
        let es = &self.entries;
        let mut out: Vec<(EntryIdent, V)> = Vec::new();
        let mut i: usize = 0;
        while i < es.len()
            invariant
                i <= es@.len(),
                same_pairs(es@.take(i as int), out@),
            decreases es@.len() - i,
        {
            let k = es[i].0.duplicate();
            let v = es[i].1;
            out.push((k, v));
            proof {
                let t = es@.take(i + 1);
                assert forall|j: int| 0 <= j < t.len() implies #[trigger] t[j].0@ == out@[j].0@
                    && t[j].1 == out@[j].1 by {
                    if j < i {
                        assert(t[j] == es@.take(i as int)[j]);
                    }
                }
            }
            i = i + 1;
        }
        proof {
            assert(es@.take(es@.len() as int) =~= es@);
            lemma_same_pairs(es@, out@);
        }
        out
    }
}

} // verus!
