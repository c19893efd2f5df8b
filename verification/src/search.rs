//! Case-insensitive search and ordering of `(id, display_label)` pairs, as
//! used by the editor's searchable drop-down lists.
use vstd::prelude::*;
use vstd::multiset::Multiset;
use crate::text::{chars_of, lowercase, to_lowercase};

verus! {

/// `a` sorts before or equal to `b`: lexicographic order by code point,
/// which is also the byte order of their UTF-8 encodings.
pub open spec fn lex_le(a: Seq<char>, b: Seq<char>) -> bool
    decreases a.len(),
{
    if a.len() == 0 {
        true
    } else if b.len() == 0 {
        false
    } else if a[0] != b[0] {
        a[0] < b[0]
    } else {
        lex_le(a.drop_first(), b.drop_first())
    }
}

pub open spec fn key_views(keys: Seq<Vec<char>>) -> Seq<Seq<char>> {
    keys.map_values(|k: Vec<char>| k@)
}

/// The lower-cased labels of `(id, display_label)` pairs.
pub open spec fn label_keys(items: Seq<(String, String)>) -> Seq<Seq<char>> {
    items.map_values(|it: (String, String)| lowercase(it.1@))
}

/// `needle` occurs in `hay` as a contiguous run.
pub open spec fn seq_contains(hay: Seq<char>, needle: Seq<char>) -> bool {
    exists|i: int| 0 <= i && i + needle.len() <= hay.len() && #[trigger] hay.subrange(i, i + needle.len()) == needle
}

/// Indices `0..n` whose key contains the query, in increasing order.
pub open spec fn kept_indices(keys: Seq<Seq<char>>, query: Seq<char>, n: int) -> Seq<int>
    decreases n,
{
    if n <= 0 {
        Seq::empty()
    } else if seq_contains(keys[n - 1], query) {
        kept_indices(keys, query, n - 1).push(n - 1)
    } else {
        kept_indices(keys, query, n - 1)
    }
}

/// Inserts index `x` into the key-ordered `sorted` after every index whose
/// key is not greater, so that equal keys keep their arrival order.
pub open spec fn insert_sorted(keys: Seq<Seq<char>>, sorted: Seq<int>, x: int) -> Seq<int>
    decreases sorted.len(),
{
    if sorted.len() == 0 {
        seq![x]
    } else if lex_le(keys[sorted.last()], keys[x]) {
        sorted.push(x)
    } else {
        insert_sorted(keys, sorted.drop_last(), x).push(sorted.last())
    }
}

/// Stable sort of indices by their keys.
pub open spec fn sort_by_key(keys: Seq<Seq<char>>, idx: Seq<int>) -> Seq<int>
    decreases idx.len(),
{
    if idx.len() == 0 {
        Seq::empty()
    } else {
        insert_sorted(keys, sort_by_key(keys, idx.drop_last()), idx.last())
    }
}

/// The indices that `filter_items` returns for lower-cased labels `keys`
/// and lower-cased query `query`.
pub open spec fn filtered_order(keys: Seq<Seq<char>>, query: Seq<char>) -> Seq<int> {
    sort_by_key(keys, kept_indices(keys, query, keys.len() as int))
}

fn lex_le_exec(a: &Vec<char>, b: &Vec<char>) -> (r: bool)
    ensures
        r == lex_le(a@, b@),
{
    let mut i: usize = 0;
    assert(a@.skip(0) =~= a@);
    assert(b@.skip(0) =~= b@);
    while i < a.len() && i < b.len() && a[i] == b[i]
        invariant
            i <= a.len(),
            i <= b.len(),
            lex_le(a@, b@) == lex_le(a@.skip(i as int), b@.skip(i as int)),
        decreases a.len() - i,
    {
        assert(a@.skip(i as int).drop_first() =~= a@.skip(i + 1));
        assert(b@.skip(i as int).drop_first() =~= b@.skip(i + 1));
        i = i + 1;
    }
    if i == a.len() {
        true
    } else if i == b.len() {
        false
    } else {
        a[i] < b[i]
    }
}

fn occurs_at(hay: &Vec<char>, needle: &Vec<char>, start: usize) -> (r: bool)
    requires
        start + needle.len() <= hay.len(),
    ensures
        r == (hay@.subrange(start as int, start + needle.len()) == needle@),
{
    let mut k: usize = 0;
    while k < needle.len()
        invariant
            start + needle.len() <= hay.len(),
            k <= needle.len(),
            forall|m: int| 0 <= m < k ==> hay@[start + m] == needle@[m],
        decreases needle.len() - k,
    {
        if hay[start + k] != needle[k] {
            assert(hay@.subrange(start as int, start + needle.len())[k as int] != needle@[k as int]);
            return false;
        }
        k = k + 1;
    }
    assert(hay@.subrange(start as int, start + needle.len()) =~= needle@);
    true
}

/// Whether `needle` occurs in `hay`.
pub fn contains_chars(hay: &Vec<char>, needle: &Vec<char>) -> (r: bool)
    ensures
        r == seq_contains(hay@, needle@),
{
    if needle.len() > hay.len() {
        return false;
    }
    let last = hay.len() - needle.len();
    let mut start: usize = 0;
    loop
        invariant
            needle.len() <= hay.len(),
            last == hay.len() - needle.len(),
            start <= last,
            forall|i: int|
                0 <= i < start ==> #[trigger] hay@.subrange(i, i + needle.len()) != needle@,
        decreases last - start,
    {
        if occurs_at(hay, needle, start) {
            return true;
        }
        if start == last {
            return false;
        }
        start = start + 1;
    }
}

proof fn lemma_insert_sorted_at(keys: Seq<Seq<char>>, sorted: Seq<int>, x: int, p: int)
    requires
        0 <= p <= sorted.len(),
        p == 0 || lex_le(keys[sorted[p - 1]], keys[x]),
        forall|k: int| p <= k < sorted.len() ==> !lex_le(keys[#[trigger] sorted[k]], keys[x]),
    ensures
        insert_sorted(keys, sorted, x) == sorted.take(p).push(x) + sorted.skip(p),
    decreases sorted.len(),
{
    if sorted.len() == 0 {
        assert(sorted.take(p).push(x) + sorted.skip(p) =~= seq![x]);
    } else if p == sorted.len() {
        assert(sorted.take(p).push(x) + sorted.skip(p) =~= sorted.push(x));
    } else {
        let last = sorted.last();
        assert(!lex_le(keys[sorted[sorted.len() - 1]], keys[x]));
        lemma_insert_sorted_at(keys, sorted.drop_last(), x, p);
        assert(sorted.drop_last().take(p) =~= sorted.take(p));
        assert(sorted.drop_last().skip(p).push(last) =~= sorted.skip(p));
        assert((sorted.take(p).push(x) + sorted.drop_last().skip(p)).push(last) =~= sorted.take(
            p,
        ).push(x) + sorted.skip(p));
    }
}

/// The stable, key-ordered positions of the keys that contain `query`.
///
/// `keys[i]` is the lower-cased label of item `i` and `query` the lower-cased
/// search text; an empty query keeps every item.
pub fn filter_sorted_indices(keys: &Vec<Vec<char>>, query: &Vec<char>) -> (r: Vec<usize>)
    ensures
        r@.len() == filtered_order(key_views(keys@), query@).len(),
        forall|i: int|
            0 <= i < r@.len() ==> r@[i] as int == #[trigger] filtered_order(
                key_views(keys@),
                query@,
            )[i],
{
    let ghost ks = key_views(keys@);
    let mut out: Vec<usize> = Vec::new();
    let mut i: usize = 0;
    while i < keys.len()
        invariant
            ks == key_views(keys@),
            i <= keys.len(),
            out@.map_values(|v: usize| v as int) == sort_by_key(
                ks,
                kept_indices(ks, query@, i as int),
            ),
            forall|k: int| 0 <= k < out@.len() ==> out@[k] < i,
        decreases keys.len() - i,
    {
        assert(ks[i as int] == keys@[i as int]@);
        let keep = query.len() == 0 || contains_chars(&keys[i], query);
        assert(keep == seq_contains(ks[i as int], query@)) by {
            if query.len() == 0 {
                assert(ks[i as int].subrange(0, 0 + query@.len() as int) =~= query@);
            }
        }
        if keep {
            let ghost before = out@.map_values(|v: usize| v as int);
            let mut p = out.len();
            while p > 0 && !lex_le_exec(&keys[out[p - 1]], &keys[i])
                invariant
                    ks == key_views(keys@),
                    i < keys.len(),
                    p <= out.len(),
                    before == out@.map_values(|v: usize| v as int),
                    forall|k: int| 0 <= k < out@.len() ==> out@[k] < i,
                    forall|k: int|
                        p <= k < before.len() ==> !lex_le(ks[#[trigger] before[k]], ks[i as int]),
                decreases p,
            {
                p = p - 1;
            }
            proof {
                lemma_insert_sorted_at(ks, before, i as int, p as int);
                assert(kept_indices(ks, query@, i + 1) == kept_indices(ks, query@, i as int).push(
                    i as int,
                ));
                assert(kept_indices(ks, query@, i + 1).drop_last() =~= kept_indices(
                    ks,
                    query@,
                    i as int,
                ));
            }
            out.insert(p, i);
            assert(out@.map_values(|v: usize| v as int) =~= before.take(p as int).push(i as int)
                + before.skip(p as int));
        }
        i = i + 1;
    }
    assert(keys@.len() == ks.len());
    out
}

/// Filters items by a search query using case-insensitive substring
/// matching, then sorts the kept items by their lower-cased display label
/// (stable: items with equal labels keep their order).
///
/// With an empty query every item is kept.
pub fn filter_items<'a>(items: &'a [(String, String)], query: &str) -> (r: Vec<&'a (String, String)>)
    ensures
        r@.len() == filtered_order(
            label_keys(items@),
            lowercase(query@),
        ).len(),
        forall|i: int|
            0 <= i < r@.len() ==> *r@[i] == items@[#[trigger] filtered_order(
                label_keys(items@),
                lowercase(query@),
            )[i]],
{
    let query_lower = chars_of(to_lowercase(query).as_str());
    let mut keys: Vec<Vec<char>> = Vec::new();
    let mut i: usize = 0;
    while i < items.len()
        invariant
            i <= items.len(),
            keys@.len() == i,
            forall|k: int| 0 <= k < i ==> #[trigger] keys@[k]@ == lowercase(items@[k].1@),
        decreases items.len() - i,
    {
        keys.push(chars_of(to_lowercase(items[i].1.as_str()).as_str()));
        i = i + 1;
    }
    let ghost ks = label_keys(items@);
    assert(key_views(keys@) =~= ks);
    let order = filter_sorted_indices(&keys, &query_lower);
    proof {
        lemma_filtered_in_range(ks, query_lower@);
    }
    let mut result: Vec<&'a (String, String)> = Vec::new();
    let mut j: usize = 0;
    while j < order.len()
        invariant
            j <= order.len(),
            result@.len() == j,
            order@.len() == filtered_order(ks, query_lower@).len(),
            forall|k: int| 0 <= k < order@.len() ==> order@[k] as int == #[trigger] filtered_order(ks, query_lower@)[k],
            forall|k: int| 0 <= k < order@.len() ==> 0 <= #[trigger] filtered_order(ks, query_lower@)[k] < items@.len(),
            ks.len() == items@.len(),
            forall|k: int| 0 <= k < j ==> *result@[k] == items@[#[trigger] filtered_order(ks, query_lower@)[k]],
        decreases order.len() - j,
    {
        assert(0 <= filtered_order(ks, query_lower@)[j as int] < items@.len());
        result.push(&items[order[j]]);
        j = j + 1;
    }
    result
}

proof fn lemma_kept_in_range(keys: Seq<Seq<char>>, query: Seq<char>, n: int)
    requires
        0 <= n,
    ensures
        forall|k: int| 0 <= k < kept_indices(keys, query, n).len() ==> 0 <= #[trigger] kept_indices(keys, query, n)[k] < n,
    decreases n,
{
    if n > 0 {
        lemma_kept_in_range(keys, query, n - 1);
        let prev = kept_indices(keys, query, n - 1);
        assert forall|k: int| 0 <= k < kept_indices(keys, query, n).len() implies 0
            <= #[trigger] kept_indices(keys, query, n)[k] < n by {
            if k < prev.len() {
                assert(kept_indices(keys, query, n)[k] == prev[k]);
            }
        }
    }
}

proof fn lemma_insert_in_range(keys: Seq<Seq<char>>, sorted: Seq<int>, x: int, n: int)
    requires
        forall|k: int| 0 <= k < sorted.len() ==> 0 <= #[trigger] sorted[k] < n,
        0 <= x < n,
    ensures
        forall|k: int| 0 <= k < insert_sorted(keys, sorted, x).len() ==> 0 <= #[trigger] insert_sorted(keys, sorted, x)[k] < n,
        insert_sorted(keys, sorted, x).len() == sorted.len() + 1,
    decreases sorted.len(),
{
    if sorted.len() > 0 && !lex_le(keys[sorted.last()], keys[x]) {
        lemma_insert_in_range(keys, sorted.drop_last(), x, n);
    }
}

proof fn lemma_sort_in_range(keys: Seq<Seq<char>>, idx: Seq<int>, n: int)
    requires
        forall|k: int| 0 <= k < idx.len() ==> 0 <= #[trigger] idx[k] < n,
    ensures
        forall|k: int| 0 <= k < sort_by_key(keys, idx).len() ==> 0 <= #[trigger] sort_by_key(keys, idx)[k] < n,
        sort_by_key(keys, idx).len() == idx.len(),
    decreases idx.len(),
{
    if idx.len() > 0 {
        lemma_sort_in_range(keys, idx.drop_last(), n);
        lemma_insert_in_range(keys, sort_by_key(keys, idx.drop_last()), idx.last(), n);
    }
}

pub proof fn lemma_filtered_in_range(keys: Seq<Seq<char>>, query: Seq<char>)
    ensures
        forall|k: int| 0 <= k < filtered_order(keys, query).len() ==> 0 <= #[trigger] filtered_order(keys, query)[k] < keys.len(),
{
    lemma_kept_in_range(keys, query, keys.len() as int);
    lemma_sort_in_range(keys, kept_indices(keys, query, keys.len() as int), keys.len() as int);
}

// ─── Laws ────────────────────────────────────────────────────────────────────

/// The index sequence lists its keys in order.
pub open spec fn sorted_by_key(keys: Seq<Seq<char>>, s: Seq<int>) -> bool {
    forall|i: int, j: int| 0 <= i < j < s.len() ==> lex_le(keys[#[trigger] s[i]], keys[#[trigger] s[j]])
}

pub proof fn lemma_lex_total(a: Seq<char>, b: Seq<char>)
    ensures
        lex_le(a, b) || lex_le(b, a),
    decreases a.len(),
{
    if a.len() > 0 && b.len() > 0 {
        if a[0] == b[0] {
            lemma_lex_total(a.drop_first(), b.drop_first());
        }
    }
}

pub proof fn lemma_lex_trans(a: Seq<char>, b: Seq<char>, c: Seq<char>)
    requires
        lex_le(a, b),
        lex_le(b, c),
    ensures
        lex_le(a, c),
    decreases a.len(),
{
    if a.len() > 0 && b.len() > 0 && c.len() > 0 && a[0] == b[0] && b[0] == c[0] {
        lemma_lex_trans(a.drop_first(), b.drop_first(), c.drop_first());
    }
}

proof fn lemma_insert_sorted_props(keys: Seq<Seq<char>>, s: Seq<int>, x: int)
    requires
        sorted_by_key(keys, s),
    ensures
        sorted_by_key(keys, insert_sorted(keys, s, x)),
        insert_sorted(keys, s, x).to_multiset() == s.to_multiset().insert(x),
    decreases s.len(),
{
    broadcast use vstd::seq_lib::to_multiset_build, vstd::seq_lib::to_multiset_contains;

    if s.len() == 0 {
        assert(s.to_multiset() =~= Multiset::<int>::empty());
        assert(seq![x] =~= Seq::<int>::empty().push(x));
    } else if lex_le(keys[s.last()], keys[x]) {
        let r = s.push(x);
        assert forall|i: int, j: int| 0 <= i < j < r.len() implies lex_le(keys[#[trigger] r[i]], keys[#[trigger] r[j]]) by {
            if j == r.len() - 1 {
                if i < s.len() - 1 {
                    lemma_lex_trans(keys[s[i]], keys[s.last()], keys[x]);
                }
            } else {
                assert(r[i] == s[i] && r[j] == s[j]);
            }
        }
    } else {
        let d = s.drop_last();
        assert(sorted_by_key(keys, d)) by {
            assert forall|i: int, j: int| 0 <= i < j < d.len() implies lex_le(keys[#[trigger] d[i]], keys[#[trigger] d[j]]) by {
                assert(d[i] == s[i] && d[j] == s[j]);
            }
        }
        lemma_insert_sorted_props(keys, d, x);
        let t = insert_sorted(keys, d, x);
        let last = s.last();
        lemma_lex_total(keys[last], keys[x]);
        assert forall|k: int| 0 <= k < t.len() implies lex_le(keys[#[trigger] t[k]], keys[last]) by {
            let v = t[k];
            assert(t.contains(v));
            assert(t.to_multiset().count(v) > 0);
            if v != x {
                assert(d.to_multiset().count(v) > 0);
                assert(d.contains(v));
                let m = choose|m: int| 0 <= m < d.len() && d[m] == v;
                assert(s[m] == v);
                assert(s[s.len() - 1] == last);
            }
        }
        let r = t.push(last);
        assert forall|i: int, j: int| 0 <= i < j < r.len() implies lex_le(keys[#[trigger] r[i]], keys[#[trigger] r[j]]) by {
            if j == r.len() - 1 {
                assert(r[i] == t[i]);
            } else {
                assert(r[i] == t[i] && r[j] == t[j]);
            }
        }
        assert(s =~= d.push(last));
        assert(t.to_multiset() == d.to_multiset().insert(x));
        assert(r.to_multiset() =~= s.to_multiset().insert(x));
    }
}

proof fn lemma_sort_props(keys: Seq<Seq<char>>, idx: Seq<int>)
    ensures
        sorted_by_key(keys, sort_by_key(keys, idx)),
        sort_by_key(keys, idx).to_multiset() == idx.to_multiset(),
    decreases idx.len(),
{
    broadcast use vstd::seq_lib::to_multiset_build;

    if idx.len() == 0 {
        assert(sort_by_key(keys, idx) =~= idx);
    } else {
        lemma_sort_props(keys, idx.drop_last());
        lemma_insert_sorted_props(keys, sort_by_key(keys, idx.drop_last()), idx.last());
        assert(idx =~= idx.drop_last().push(idx.last()));
    }
}

proof fn lemma_kept_members(keys: Seq<Seq<char>>, query: Seq<char>, n: int)
    requires
        0 <= n <= keys.len(),
    ensures
        forall|i: int| 0 <= i < n ==> (kept_indices(keys, query, n).contains(i) <==> seq_contains(#[trigger] keys[i], query)),
        forall|v: int| #[trigger] kept_indices(keys, query, n).contains(v) ==> 0 <= v < n,
    decreases n,
{
    if n > 0 {
        lemma_kept_members(keys, query, n - 1);
        let prev = kept_indices(keys, query, n - 1);
        let cur = kept_indices(keys, query, n);
        assert forall|v: int| #[trigger] cur.contains(v) implies 0 <= v < n by {
            if v != n - 1 {
                let m = choose|m: int| 0 <= m < cur.len() && cur[m] == v;
                if seq_contains(keys[n - 1], query) {
                    assert(m < prev.len());
                    assert(prev[m] == v);
                }
                assert(prev.contains(v));
            }
        }
        assert forall|i: int| 0 <= i < n implies (cur.contains(i) <==> seq_contains(#[trigger] keys[i], query)) by {
            if i < n - 1 {
                if prev.contains(i) {
                    let m = choose|m: int| 0 <= m < prev.len() && prev[m] == i;
                    if seq_contains(keys[n - 1], query) {
                        assert(cur[m] == i);
                    }
                }
                if cur.contains(i) {
                    let m = choose|m: int| 0 <= m < cur.len() && cur[m] == i;
                    if seq_contains(keys[n - 1], query) && m == prev.len() {
                        assert(cur[m] == n - 1);
                    } else {
                        assert(prev[m] == i);
                    }
                }
            } else {
                if seq_contains(keys[n - 1], query) {
                    assert(cur[prev.len() as int] == n - 1);
                } else {
                    assert(!prev.contains(n - 1));
                }
            }
        }
    }
}

/// Indices with equal keys appear in increasing index order.
pub open spec fn stable_by_key(keys: Seq<Seq<char>>, s: Seq<int>) -> bool {
    forall|i: int, j: int|
        0 <= i < j < s.len() && keys[#[trigger] s[i]] == keys[#[trigger] s[j]] ==> s[i] < s[j]
}

proof fn lemma_lex_refl(a: Seq<char>)
    ensures
        lex_le(a, a),
    decreases a.len(),
{
    if a.len() > 0 {
        lemma_lex_refl(a.drop_first());
    }
}

proof fn lemma_insert_stable(keys: Seq<Seq<char>>, s: Seq<int>, x: int)
    requires
        sorted_by_key(keys, s),
        stable_by_key(keys, s),
        forall|k: int| 0 <= k < s.len() ==> #[trigger] s[k] < x,
    ensures
        stable_by_key(keys, insert_sorted(keys, s, x)),
    decreases s.len(),
{
    broadcast use vstd::seq_lib::to_multiset_build, vstd::seq_lib::to_multiset_contains;

    if s.len() == 0 {
    } else if lex_le(keys[s.last()], keys[x]) {
        let r = s.push(x);
        assert forall|i: int, j: int|
            0 <= i < j < r.len() && keys[#[trigger] r[i]] == keys[#[trigger] r[j]] implies r[i] < r[j] by {
            if j == r.len() - 1 {
                assert(r[i] == s[i]);
            } else {
                assert(r[i] == s[i] && r[j] == s[j]);
            }
        }
    } else {
        let d = s.drop_last();
        let last = s.last();
        assert(sorted_by_key(keys, d)) by {
            assert forall|i: int, j: int| 0 <= i < j < d.len() implies lex_le(keys[#[trigger] d[i]], keys[#[trigger] d[j]]) by {
                assert(d[i] == s[i] && d[j] == s[j]);
            }
        }
        assert(stable_by_key(keys, d)) by {
            assert forall|i: int, j: int|
                0 <= i < j < d.len() && keys[#[trigger] d[i]] == keys[#[trigger] d[j]] implies d[i] < d[j] by {
                assert(d[i] == s[i] && d[j] == s[j]);
            }
        }
        assert forall|k: int| 0 <= k < d.len() implies #[trigger] d[k] < x by {
            assert(d[k] == s[k]);
        }
        lemma_insert_stable(keys, d, x);
        lemma_insert_sorted_props(keys, d, x);
        let t = insert_sorted(keys, d, x);
        let r = t.push(last);
        lemma_lex_refl(keys[x]);
        assert(keys[last] != keys[x]);
        assert forall|i: int, j: int|
            0 <= i < j < r.len() && keys[#[trigger] r[i]] == keys[#[trigger] r[j]] implies r[i] < r[j] by {
            if j == r.len() - 1 {
                let v = t[i];
                assert(r[i] == v);
                assert(t.contains(v));
                assert(t.to_multiset().count(v) > 0);
                if v != x {
                    assert(d.to_multiset().count(v) > 0);
                    assert(d.contains(v));
                    let m = choose|m: int| 0 <= m < d.len() && d[m] == v;
                    assert(s[m] == v);
                    assert(s[s.len() - 1] == last);
                }
            } else {
                assert(r[i] == t[i] && r[j] == t[j]);
            }
        }
    }
}

proof fn lemma_sort_stable(keys: Seq<Seq<char>>, idx: Seq<int>)
    requires
        forall|i: int, j: int| 0 <= i < j < idx.len() ==> #[trigger] idx[i] < #[trigger] idx[j],
    ensures
        stable_by_key(keys, sort_by_key(keys, idx)),
    decreases idx.len(),
{
    broadcast use vstd::seq_lib::to_multiset_contains;

    if idx.len() > 0 {
        let d = idx.drop_last();
        assert forall|i: int, j: int| 0 <= i < j < d.len() implies #[trigger] d[i] < #[trigger] d[j] by {
            assert(d[i] == idx[i] && d[j] == idx[j]);
        }
        lemma_sort_stable(keys, d);
        lemma_sort_props(keys, d);
        let t = sort_by_key(keys, d);
        assert forall|k: int| 0 <= k < t.len() implies #[trigger] t[k] < idx.last() by {
            let v = t[k];
            assert(t.contains(v));
            assert(t.to_multiset().count(v) > 0);
            assert(d.to_multiset().count(v) > 0);
            assert(d.contains(v));
            let m = choose|m: int| 0 <= m < d.len() && d[m] == v;
            assert(idx[m] < idx[idx.len() - 1]);
        }
        lemma_insert_stable(keys, t, idx.last());
    }
}

proof fn lemma_kept_increasing(keys: Seq<Seq<char>>, query: Seq<char>, n: int)
    requires
        0 <= n <= keys.len(),
    ensures
        forall|i: int, j: int|
            0 <= i < j < kept_indices(keys, query, n).len() ==> #[trigger] kept_indices(keys, query, n)[i]
                < #[trigger] kept_indices(keys, query, n)[j],
    decreases n,
{
    if n > 0 {
        lemma_kept_increasing(keys, query, n - 1);
        lemma_kept_members(keys, query, n - 1);
        let prev = kept_indices(keys, query, n - 1);
        if seq_contains(keys[n - 1], query) {
            let cur = prev.push(n - 1);
            assert forall|i: int, j: int| 0 <= i < j < cur.len() implies #[trigger] cur[i] < #[trigger] cur[j] by {
                assert(cur[i] == prev[i]);
                if j < prev.len() {
                    assert(cur[j] == prev[j]);
                } else {
                    assert(prev.contains(prev[i]));
                }
            }
        }
    }
}

proof fn lemma_kept_no_duplicates(keys: Seq<Seq<char>>, query: Seq<char>, n: int)
    requires
        0 <= n <= keys.len(),
    ensures
        kept_indices(keys, query, n).no_duplicates(),
    decreases n,
{
    if n > 0 {
        lemma_kept_no_duplicates(keys, query, n - 1);
        lemma_kept_members(keys, query, n - 1);
        let prev = kept_indices(keys, query, n - 1);
        if seq_contains(keys[n - 1], query) {
            let cur = prev.push(n - 1);
            assert forall|i: int, j: int| 0 <= i < cur.len() && 0 <= j < cur.len() && i != j implies cur[i]
                != cur[j] by {
                if i < prev.len() && j < prev.len() {
                    assert(cur[i] == prev[i] && cur[j] == prev[j]);
                } else if i < prev.len() {
                    assert(prev.contains(prev[i]));
                } else {
                    assert(prev.contains(prev[j]));
                }
            }
        }
    }
}

/// The search result lists exactly the items whose lower-cased label
/// contains the lower-cased query, each once, ordered by lower-cased label,
/// items with equal labels keeping their input order; as a multiset it is
/// the list of matching indices taken in input order.
pub proof fn law_search_sorted_and_complete(keys: Seq<Seq<char>>, query: Seq<char>)
    ensures
        sorted_by_key(keys, filtered_order(keys, query)),
        filtered_order(keys, query).to_multiset() == kept_indices(keys, query, keys.len() as int).to_multiset(),
        filtered_order(keys, query).no_duplicates(),
        stable_by_key(keys, filtered_order(keys, query)),
        forall|i: int|
            0 <= i < keys.len() ==> (filtered_order(keys, query).contains(i) <==> seq_contains(#[trigger] keys[i], query)),
{
    broadcast use vstd::seq_lib::to_multiset_contains;

    let kept = kept_indices(keys, query, keys.len() as int);
    lemma_sort_props(keys, kept);
    lemma_kept_members(keys, query, keys.len() as int);
    lemma_kept_no_duplicates(keys, query, keys.len() as int);
    lemma_kept_increasing(keys, query, keys.len() as int);
    lemma_sort_stable(keys, kept);
    let o = filtered_order(keys, query);
    assert forall|i: int| 0 <= i < keys.len() implies (o.contains(i) <==> seq_contains(#[trigger] keys[i], query)) by {
        assert(o.to_multiset().count(i) == kept.to_multiset().count(i));
    }
    kept.lemma_multiset_has_no_duplicates();
    assert forall|x: int| o.to_multiset().contains(x) implies o.to_multiset().count(x) == 1 by {
        assert(kept.to_multiset().contains(x));
    }
    o.lemma_multiset_has_no_duplicates_conv();
}

} // verus!
