//! A map from text keys to values that keeps its entries in insertion order.
use vstd::prelude::*;
use crate::text::str_eq;

verus! {

/// The keys of `s` are pairwise distinct.
pub open spec fn keys_unique<V>(s: Seq<(Seq<char>, V)>) -> bool {
    forall|i: int, j: int| 0 <= i < j < s.len() ==> #[trigger] s[i].0 != #[trigger] s[j].0
}

/// The mapping described by an association list.
pub open spec fn assoc_map<V>(s: Seq<(Seq<char>, V)>) -> Map<Seq<char>, V>
    decreases s.len(),
{
    if s.len() == 0 {
        Map::empty()
    } else {
        assoc_map(s.drop_last()).insert(s.last().0, s.last().1)
    }
}

/// Position of key `k` in `s`, or `s.len()` when absent.
pub open spec fn index_of<V>(s: Seq<(Seq<char>, V)>, k: Seq<char>) -> int
    decreases s.len(),
{
    if s.len() == 0 {
        0
    } else if s.last().0 == k {
        s.len() - 1
    } else {
        let i = index_of(s.drop_last(), k);
        if i == s.len() - 1 {
            s.len() as int
        } else {
            i
        }
    }
}

pub proof fn lemma_assoc_map<V>(s: Seq<(Seq<char>, V)>)
    requires
        keys_unique(s),
    ensures
        assoc_map(s).dom().finite(),
        assoc_map(s).len() == s.len(),
        forall|i: int|
            0 <= i < s.len() ==> #[trigger] assoc_map(s).contains_key(s[i].0) && assoc_map(s)[s[i].0]
                == s[i].1,
        forall|k: Seq<char>|
            #[trigger] assoc_map(s).contains_key(k) ==> exists|i: int| 0 <= i < s.len() && s[i].0 == k,
    decreases s.len(),
{
    if s.len() > 0 {
        let t = s.drop_last();
        assert(keys_unique(t)) by {
            assert forall|i: int, j: int| 0 <= i < j < t.len() implies #[trigger] t[i].0
                != #[trigger] t[j].0 by {
                assert(t[i] == s[i] && t[j] == s[j]);
            }
        }
        lemma_assoc_map(t);
        let last = s.last();
        assert(!assoc_map(t).contains_key(last.0)) by {
            if assoc_map(t).contains_key(last.0) {
                let i = choose|i: int| 0 <= i < t.len() && t[i].0 == last.0;
                assert(s[i].0 == s[s.len() - 1].0);
            }
        }
        assert forall|i: int| 0 <= i < s.len() implies #[trigger] assoc_map(s).contains_key(s[i].0)
            && assoc_map(s)[s[i].0] == s[i].1 by {
            if i < s.len() - 1 {
                assert(s[i] == t[i]);
                assert(s[i].0 != last.0);
            }
        }
        assert forall|k: Seq<char>| #[trigger] assoc_map(s).contains_key(k) implies exists|i: int|
            0 <= i < s.len() && s[i].0 == k by {
            if k == last.0 {
                assert(s[s.len() - 1].0 == k);
            } else {
                assert(assoc_map(t).contains_key(k));
                let i = choose|i: int| 0 <= i < t.len() && t[i].0 == k;
                assert(s[i] == t[i]);
            }
        }
    }
}

pub proof fn lemma_assoc_agree<V, W>(a: Seq<(Seq<char>, V)>, b: Seq<(Seq<char>, V)>, g: spec_fn(V) -> W)
    requires
        a.len() == b.len(),
        forall|i: int| 0 <= i < a.len() ==> (#[trigger] a[i]).0 == b[i].0 && g(a[i].1) == g(b[i].1),
    ensures
        assoc_map(a).map_values(g) == assoc_map(b).map_values(g),
    decreases a.len(),
{
    if a.len() > 0 {
        let (ta, tb) = (a.drop_last(), b.drop_last());
        assert forall|i: int| 0 <= i < ta.len() implies (#[trigger] ta[i]).0 == tb[i].0 && g(ta[i].1) == g(
            tb[i].1,
        ) by {
            assert(ta[i] == a[i] && tb[i] == b[i]);
        }
        lemma_assoc_agree(ta, tb, g);
        assert(a.last() == a[a.len() - 1] && b.last() == b[b.len() - 1]);
        let (ma, mb) = (assoc_map(a), assoc_map(b));
        assert(ma == assoc_map(ta).insert(a.last().0, a.last().1));
        assert(mb == assoc_map(tb).insert(b.last().0, b.last().1));
        assert forall|k: Seq<char>| #[trigger] ma.contains_key(k) implies mb.contains_key(k) && g(ma[k]) == g(mb[k]) by {
            if k != a.last().0 {
                assert(assoc_map(ta).map_values(g).contains_key(k));
                assert(assoc_map(ta).map_values(g)[k] == g(assoc_map(ta)[k]));
                assert(assoc_map(tb).map_values(g)[k] == g(assoc_map(tb)[k]));
            }
        }
        assert forall|k: Seq<char>| #[trigger] mb.contains_key(k) implies ma.contains_key(k) by {
            if k != b.last().0 {
                assert(assoc_map(tb).map_values(g).contains_key(k));
            }
        }
        assert(ma.map_values(g) =~= mb.map_values(g));
    }
}

/// Text-keyed map whose entries stay in the order they were first inserted.
///
/// The order is what iteration over the map yields; every key occurs once.
pub struct StrMap<V> {
    entries: Vec<(String, V)>,
}

impl<V> StrMap<V> {
    /// The entries, in order, as keys and values.
    pub closed spec fn entries(&self) -> Seq<(Seq<char>, V)> {
        self.entries@.map_values(|e: (String, V)| (e.0@, e.1))
    }

    #[verifier::type_invariant]
    pub closed spec fn well_formed(self) -> bool {
        keys_unique(self.entries())
    }

    /// The mapping from keys to values.
    pub open spec fn map(&self) -> Map<Seq<char>, V> {
        assoc_map(self.entries())
    }

    /// What the map's invariant gives: distinct keys, and a mapping that holds
    /// exactly the entries.
    pub proof fn lemma_entries(&self)
        requires
            self.well_formed(),
        ensures
            keys_unique(self.entries()),
            self.map().dom().finite(),
            self.map().len() == self.entries().len(),
            forall|i: int|
                0 <= i < self.entries().len() ==> #[trigger] self.map().contains_key(
                    self.entries()[i].0,
                ) && self.map()[self.entries()[i].0] == self.entries()[i].1,
            forall|k: Seq<char>|
                #[trigger] self.map().contains_key(k) ==> exists|i: int|
                    0 <= i < self.entries().len() && self.entries()[i].0 == k,
    {
        let e = self.entries();
        lemma_assoc_map(e);
        assert forall|i: int| 0 <= i < e.len() implies #[trigger] self.map().contains_key(e[i].0)
            && self.map()[e[i].0] == e[i].1 by {
            assert(assoc_map(e).contains_key(e[i].0));
        }
    }

    /// A copy made entry by entry: same keys in the same order, each value
    /// what `copy` made of the corresponding value.
    pub fn copy_with<F: Fn(&V) -> V>(&self, copy: F) -> (r: Self)
        requires
            forall|v: &V| #[trigger] copy.requires((v,)),
        ensures
            r.entries().len() == self.entries().len(),
            forall|i: int|
                0 <= i < self.entries().len() ==> (#[trigger] r.entries()[i]).0 == self.entries()[i].0
                    && copy.ensures((&self.entries()[i].1,), r.entries()[i].1),
    {
        proof {
            use_type_invariant(self);
        }
        let mut out: Vec<(String, V)> = Vec::new();
        let mut i: usize = 0;
        while i < self.entries.len()
            invariant
                i <= self.entries@.len(),
                out@.len() == i,
                forall|v: &V| #[trigger] copy.requires((v,)),
                keys_unique(self.entries()),
                self.entries().len() == self.entries@.len(),
                forall|k: int|
                    0 <= k < i ==> (#[trigger] out@[k]).0@ == self.entries@[k].0@ && copy.ensures(
                        (&self.entries@[k].1,),
                        out@[k].1,
                    ),
            decreases self.entries@.len() - i,
        {
            let key = self.entries[i].0.clone();
            let value = copy(&self.entries[i].1);
            out.push((key, value));
            i = i + 1;
        }
        let ghost oe = out@.map_values(|e: (String, V)| (e.0@, e.1));
        assert(keys_unique(oe)) by {
            assert forall|a: int, b: int| 0 <= a < b < oe.len() implies #[trigger] oe[a].0
                != #[trigger] oe[b].0 by {
                assert(oe[a].0 == self.entries()[a].0);
                assert(oe[b].0 == self.entries()[b].0);
            }
        }
        let r = StrMap { entries: out };
        assert(r.entries() == oe);
        r
    }

    /// Maps with the same keys in the same order, whose values agree under
    /// `g`, agree under `g` as mappings.
    pub proof fn lemma_maps_agree<W>(a: &Self, b: &Self, g: spec_fn(V) -> W)
        requires
            a.entries().len() == b.entries().len(),
            forall|i: int|
                0 <= i < a.entries().len() ==> (#[trigger] a.entries()[i]).0 == b.entries()[i].0 && g(
                    a.entries()[i].1,
                ) == g(b.entries()[i].1),
        ensures
            a.map().map_values(g) == b.map().map_values(g),
    {
        lemma_assoc_agree(a.entries(), b.entries(), g);
    }

    /// An empty map.
    pub fn new() -> (m: Self)
        ensures
            m.entries() == Seq::<(Seq<char>, V)>::empty(),
            m.map() == Map::<Seq<char>, V>::empty(),
    {
        let m = StrMap { entries: Vec::new() };
        assert(m.entries() =~= Seq::<(Seq<char>, V)>::empty());
        m
    }

    /// Number of entries.
    pub fn len(&self) -> (n: usize)
        ensures
            n == self.entries().len(),
            n == self.map().len(),
    {
        proof {
            use_type_invariant(self);
            self.lemma_entries();
        }
        self.entries.len()
    }

    /// Whether the map has no entries.
    pub fn is_empty(&self) -> (b: bool)
        ensures
            b == (self.entries().len() == 0),
            b == (self.map().len() == 0),
    {
        proof {
            use_type_invariant(self);
            self.lemma_entries();
        }
        self.entries.len() == 0
    }

    /// The key of entry `i`.
    pub fn key_at(&self, i: usize) -> (k: &String)
        requires
            i < self.entries().len(),
        ensures
            k@ == self.entries()[i as int].0,
    {
        &self.entries[i].0
    }

    /// The value of entry `i`.
    pub fn value_at(&self, i: usize) -> (v: &V)
        requires
            i < self.entries().len(),
        ensures
            *v == self.entries()[i as int].1,
    {
        &self.entries[i].1
    }

    /// Position of `key` among the entries.
    pub fn find(&self, key: &str) -> (r: Option<usize>)
        ensures
            match r {
                Some(i) => i < self.entries().len() && self.entries()[i as int].0 == key@,
                None => !self.map().contains_key(key@),
            },
            r is Some <==> self.map().contains_key(key@),
    {
        proof {
            use_type_invariant(self);
            self.lemma_entries();
        }
        let mut i: usize = 0;
        while i < self.entries.len()
            invariant
                i <= self.entries@.len(),
                self.entries().len() == self.entries@.len(),
                forall|j: int| 0 <= j < i ==> self.entries()[j].0 != key@,
                forall|j: int|
                    0 <= j < self.entries().len() ==> #[trigger] self.map().contains_key(
                        self.entries()[j].0,
                    ),
                forall|k: Seq<char>|
                    #[trigger] self.map().contains_key(k) ==> exists|j: int|
                        0 <= j < self.entries().len() && self.entries()[j].0 == k,
            decreases self.entries@.len() - i,
        {
            if str_eq(self.entries[i].0.as_str(), key) {
                assert(self.entries()[i as int].0 == key@);
                assert(self.map().contains_key(self.entries()[i as int].0));
                return Some(i);
            }
            i = i + 1;
        }
        None
    }

    /// Whether `key` has an entry.
    pub fn contains_key(&self, key: &str) -> (b: bool)
        ensures
            b == self.map().contains_key(key@),
    {
        self.find(key).is_some()
    }

    /// The value stored under `key`.
    pub fn get(&self, key: &str) -> (r: Option<&V>)
        ensures
            match r {
                Some(v) => self.map().contains_key(key@) && *v == self.map()[key@],
                None => !self.map().contains_key(key@),
            },
    {
        proof {
            use_type_invariant(self);
            self.lemma_entries();
        }
        match self.find(key) {
            Some(i) => Some(&self.entries[i].1),
            None => None,
        }
    }

    /// Stores `value` under `key`: an existing entry keeps its position, a
    /// new key is appended.
    pub fn insert(&mut self, key: String, value: V)
        ensures
            final(self).map() == old(self).map().insert(key@, value),
            match old(self).map().contains_key(key@) {
                true => final(self).entries() == old(self).entries().update(
                    index_of(old(self).entries(), key@),
                    (key@, value),
                ),
                false => final(self).entries() == old(self).entries().push((key@, value)),
            },
    {
        proof {
            use_type_invariant(&*self);
            self.lemma_entries();
        }
        let ghost old_entries = self.entries();
        match self.find(key.as_str()) {
            Some(i) => {
                proof {
                    lemma_index_of(old_entries, i as int);
                }
                let mut entries = Vec::new();
                std::mem::swap(&mut entries, &mut self.entries);
                entries.set(i, (key, value));
                let ghost ne = entries@.map_values(|e: (String, V)| (e.0@, e.1));
                assert(ne =~= old_entries.update(i as int, (key@, value)));
                proof {
                    lemma_update_unique(old_entries, i as int, value);
                    lemma_assoc_map(old_entries);
                    lemma_assoc_map(ne);
                    assert(assoc_map(ne) =~= assoc_map(old_entries).insert(key@, value)) by {
                        assert forall|k: Seq<char>| #[trigger] assoc_map(ne).contains_key(k)
                            <==> assoc_map(old_entries).insert(key@, value).contains_key(k) by {
                            if assoc_map(ne).contains_key(k) {
                                let j = choose|j: int| 0 <= j < ne.len() && ne[j].0 == k;
                                assert(old_entries[j].0 == k);
                            }
                            if assoc_map(old_entries).contains_key(k) {
                                let j = choose|j: int| 0 <= j < old_entries.len() && old_entries[j].0 == k;
                                assert(ne[j].0 == k);
                            }
                        }
                        assert forall|k: Seq<char>| #[trigger] assoc_map(ne).contains_key(k)
                            implies assoc_map(ne)[k] == assoc_map(old_entries).insert(key@, value)[k] by {
                            let j = choose|j: int| 0 <= j < ne.len() && ne[j].0 == k;
                            if j != i {
                                assert(old_entries[j].0 == k);
                            }
                        }
                    }
                }
                self.entries = entries;
            },
            None => {
                proof {
                    assert forall|j: int| 0 <= j < old_entries.len() implies old_entries[j].0
                        != key@ by {
                        assert(self.map().contains_key(old_entries[j].0));
                    }
                }
                let mut entries = Vec::new();
                std::mem::swap(&mut entries, &mut self.entries);
                entries.push((key, value));
                let ghost ne = entries@.map_values(|e: (String, V)| (e.0@, e.1));
                assert(ne =~= old_entries.push((key@, value)));
                assert(ne.drop_last() =~= old_entries);
                assert(keys_unique(ne));
                self.entries = entries;
            },
        }
    }

    /// Removes the entry of `key`, returning its value; the other entries
    /// keep their order.
    pub fn remove(&mut self, key: &str) -> (r: Option<V>)
        ensures
            final(self).map() == old(self).map().remove(key@),
            match r {
                Some(v) => old(self).map().contains_key(key@) && v == old(self).map()[key@],
                None => !old(self).map().contains_key(key@),
            },
            old(self).map().contains_key(key@) ==> final(self).entries() == old(self).entries().remove(
                index_of(old(self).entries(), key@),
            ),
            !old(self).map().contains_key(key@) ==> final(self).entries() == old(self).entries(),
    {
        proof {
            use_type_invariant(&*self);
            self.lemma_entries();
        }
        let ghost old_entries = self.entries();
        match self.find(key) {
            Some(i) => {
                proof {
                    lemma_index_of(old_entries, i as int);
                }
                let mut entries = Vec::new();
                std::mem::swap(&mut entries, &mut self.entries);
                let (_, v) = entries.remove(i);
                let ghost ne = entries@.map_values(|e: (String, V)| (e.0@, e.1));
                assert(ne =~= old_entries.remove(i as int));
                proof {
                    assert(keys_unique(ne)) by {
                        assert forall|a: int, b: int| 0 <= a < b < ne.len() implies #[trigger] ne[a].0
                            != #[trigger] ne[b].0 by {
                            let a2 = if a < i { a } else { a + 1 };
                            let b2 = if b < i { b } else { b + 1 };
                            assert(ne[a] == old_entries[a2]);
                            assert(ne[b] == old_entries[b2]);
                        }
                    }
                    lemma_assoc_map(old_entries);
                    lemma_assoc_map(ne);
                    assert(assoc_map(ne) =~= assoc_map(old_entries).remove(key@)) by {
                        assert forall|k: Seq<char>| #[trigger] assoc_map(ne).contains_key(k)
                            <==> assoc_map(old_entries).remove(key@).contains_key(k) by {
                            if assoc_map(ne).contains_key(k) {
                                let j = choose|j: int| 0 <= j < ne.len() && ne[j].0 == k;
                                let j2 = if j < i { j } else { j + 1 };
                                assert(old_entries[j2].0 == k);
                                assert(j2 != i);
                            }
                            if assoc_map(old_entries).contains_key(k) && k != key@ {
                                let j = choose|j: int| 0 <= j < old_entries.len() && old_entries[j].0 == k;
                                assert(j != i);
                                let j2 = if j < i { j } else { j - 1 };
                                assert(ne[j2].0 == k);
                            }
                        }
                        assert forall|k: Seq<char>| #[trigger] assoc_map(ne).contains_key(k)
                            implies assoc_map(ne)[k] == assoc_map(old_entries).remove(key@)[k] by {
                            let j = choose|j: int| 0 <= j < ne.len() && ne[j].0 == k;
                            let j2 = if j < i { j } else { j + 1 };
                            assert(old_entries[j2] == ne[j]);
                        }
                    }
                }
                self.entries = entries;
                Some(v)
            },
            None => None,
        }
    }

    /// Removes every entry.
    pub fn clear(&mut self)
        ensures
            final(self).entries() == Seq::<(Seq<char>, V)>::empty(),
            final(self).map() == Map::<Seq<char>, V>::empty(),
    {
        self.entries = Vec::new();
        assert(self.entries() =~= Seq::<(Seq<char>, V)>::empty());
    }
}

proof fn lemma_index_of<V>(s: Seq<(Seq<char>, V)>, i: int)
    requires
        keys_unique(s),
        0 <= i < s.len(),
    ensures
        index_of(s, s[i].0) == i,
    decreases s.len(),
{
    if i < s.len() - 1 {
        let t = s.drop_last();
        assert(keys_unique(t)) by {
            assert forall|a: int, b: int| 0 <= a < b < t.len() implies #[trigger] t[a].0
                != #[trigger] t[b].0 by {
                assert(t[a] == s[a] && t[b] == s[b]);
            }
        }
        assert(t[i] == s[i]);
        lemma_index_of(t, i);
        assert(s[i].0 != s[s.len() - 1].0);
    }
}

proof fn lemma_update_unique<V>(s: Seq<(Seq<char>, V)>, i: int, v: V)
    requires
        keys_unique(s),
        0 <= i < s.len(),
    ensures
        keys_unique(s.update(i, (s[i].0, v))),
{
    let t = s.update(i, (s[i].0, v));
    assert forall|a: int, b: int| 0 <= a < b < t.len() implies #[trigger] t[a].0 != #[trigger] t[b].0 by {
        assert(t[a].0 == s[a].0 && t[b].0 == s[b].0);
    }
}

} // verus!
