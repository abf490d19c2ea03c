//! Maps kept as vectors of entries in strictly increasing key order: the model
//! (an association `Map`), the largest key, and how the model changes when an
//! entry is replaced, inserted in order, or the last entry is removed.
use vstd::prelude::*;

verus! {

/// `lt` is a strict total order.
pub open spec fn strict_total<K>(lt: spec_fn(K, K) -> bool) -> bool {
    &&& forall|a: K| !#[trigger] lt(a, a)
    &&& forall|a: K, b: K, c: K| #[trigger] lt(a, b) && #[trigger] lt(b, c) ==> lt(a, c)
    &&& forall|a: K, b: K| #[trigger] lt(a, b) || lt(b, a) || a == b
}

/// The keys of `s` increase strictly.
pub open spec fn strictly_sorted<K, V>(s: Seq<(K, V)>, lt: spec_fn(K, K) -> bool) -> bool {
    forall|i: int, j: int| 0 <= i < j < s.len() ==> lt(#[trigger] s[i].0, #[trigger] s[j].0)
}

/// Some entry of `s` has key `k`.
pub open spec fn has_key<K, V>(s: Seq<(K, V)>, k: K) -> bool {
    exists|i: int| 0 <= i < s.len() && s[i].0 == k
}

/// The map that the entries of `s` describe.
pub open spec fn assoc<K, V>(s: Seq<(K, V)>) -> Map<K, V> {
    Map::new(|k: K| has_key(s, k), |k: K| s[choose|i: int| 0 <= i < s.len() && s[i].0 == k].1)
}

/// `k` is the largest key of `m`.
pub open spec fn is_max_key<K, V>(m: Map<K, V>, k: K, lt: spec_fn(K, K) -> bool) -> bool {
    &&& m.contains_key(k)
    &&& forall|k2: K| #[trigger] m.contains_key(k2) ==> k2 == k || lt(k2, k)
}

/// The largest key of `m` (meaningful when `m` is finite and not empty).
pub open spec fn max_key<K, V>(m: Map<K, V>, lt: spec_fn(K, K) -> bool) -> K {
    choose|k: K| is_max_key(m, k, lt)
}

/// In a sorted sequence the entry at `i` is the value of its key.
pub proof fn lemma_assoc_index<K, V>(s: Seq<(K, V)>, lt: spec_fn(K, K) -> bool, i: int)
    requires
        strict_total(lt),
        strictly_sorted(s, lt),
        0 <= i < s.len(),
    ensures
        assoc(s).contains_key(s[i].0),
        assoc(s)[s[i].0] == s[i].1,
{
    assert(has_key(s, s[i].0));
    let j = choose|j: int| 0 <= j < s.len() && s[j].0 == s[i].0;
    if j < i {
        assert(lt(s[j].0, s[i].0));
    } else if i < j {
        assert(lt(s[i].0, s[j].0));
    }
}

/// A key of the map is the key of some entry.
pub proof fn lemma_assoc_key<K, V>(s: Seq<(K, V)>, k: K) -> (i: int)
    requires
        assoc(s).contains_key(k),
    ensures
        0 <= i < s.len(),
        s[i].0 == k,
{
    choose|i: int| 0 <= i < s.len() && s[i].0 == k
}

/// The empty sequence describes the empty map.
pub proof fn lemma_assoc_empty<K, V>(s: Seq<(K, V)>)
    requires
        s.len() == 0,
    ensures
        assoc(s) == Map::<K, V>::empty(),
{
    assert(assoc(s) =~= Map::<K, V>::empty());
}

/// Replacing the value of entry `i` replaces the value of its key.
pub proof fn lemma_assoc_set<K, V>(s: Seq<(K, V)>, lt: spec_fn(K, K) -> bool, i: int, v: V)
    requires
        strict_total(lt),
        strictly_sorted(s, lt),
        0 <= i < s.len(),
    ensures
        strictly_sorted(s.update(i, (s[i].0, v)), lt),
        assoc(s.update(i, (s[i].0, v))) == assoc(s).insert(s[i].0, v),
{
    let t = s.update(i, (s[i].0, v));
    assert(strictly_sorted(t, lt)) by {
        assert forall|a: int, b: int| 0 <= a < b < t.len() implies lt(#[trigger] t[a].0, #[trigger] t[b].0) by {
            assert(t[a].0 == s[a].0);
            assert(t[b].0 == s[b].0);
        }
    }
    assert forall|k: K| #[trigger] assoc(t).contains_key(k) <==> assoc(s).insert(s[i].0, v).contains_key(k) by {
        if assoc(t).contains_key(k) {
            let j = lemma_assoc_key(t, k);
            assert(s[j].0 == k);
            assert(has_key(s, k));
        }
        if assoc(s).contains_key(k) {
            let j = lemma_assoc_key(s, k);
            assert(t[j].0 == k);
            assert(has_key(t, k));
        }
        if k == s[i].0 {
            assert(t[i].0 == k);
            assert(has_key(t, k));
        }
    }
    assert forall|k: K| #[trigger] assoc(t).contains_key(k) implies assoc(t)[k] == assoc(s).insert(s[i].0, v)[k] by {
        let j = lemma_assoc_key(t, k);
        lemma_assoc_index(t, lt, j);
        if j != i {
            lemma_assoc_index(s, lt, j);
            if k == s[i].0 {
                lemma_assoc_index(s, lt, i);
                if j < i {
                    assert(lt(s[j].0, s[i].0));
                } else {
                    assert(lt(s[i].0, s[j].0));
                }
            }
        }
    }
    assert(assoc(t) =~= assoc(s).insert(s[i].0, v));
}

/// Inserting a new key at its place in the order keeps the entries sorted and
/// adds the key to the map.
pub proof fn lemma_assoc_insert<K, V>(
    s: Seq<(K, V)>,
    lt: spec_fn(K, K) -> bool,
    pos: int,
    k: K,
    v: V,
)
    requires
        strict_total(lt),
        strictly_sorted(s, lt),
        0 <= pos <= s.len(),
        forall|i: int| 0 <= i < pos ==> lt(#[trigger] s[i].0, k),
        forall|i: int| pos <= i < s.len() ==> lt(k, #[trigger] s[i].0),
    ensures
        strictly_sorted(s.insert(pos, (k, v)), lt),
        assoc(s.insert(pos, (k, v))) == assoc(s).insert(k, v),
{
    let t = s.insert(pos, (k, v));
    assert forall|a: int, b: int| 0 <= a < b < t.len() implies lt(#[trigger] t[a].0, #[trigger] t[b].0) by {
        if a < pos && b < pos {
        } else if a < pos && b == pos {
        } else if a < pos {
            assert(t[b].0 == s[b - 1].0);
        } else if a == pos {
            assert(t[b].0 == s[b - 1].0);
        } else {
            assert(t[a].0 == s[a - 1].0);
            assert(t[b].0 == s[b - 1].0);
        }
    }
    assert forall|q: K| #[trigger] assoc(t).contains_key(q) <==> assoc(s).insert(k, v).contains_key(q) by {
        if assoc(t).contains_key(q) {
            let j = lemma_assoc_key(t, q);
            if j < pos {
                assert(s[j].0 == q);
                assert(has_key(s, q));
            } else if j > pos {
                assert(s[j - 1].0 == q);
                assert(has_key(s, q));
            }
        }
        if assoc(s).contains_key(q) {
            let j = lemma_assoc_key(s, q);
            if j < pos {
                assert(t[j].0 == q);
            } else {
                assert(t[j + 1].0 == q);
            }
            assert(has_key(t, q));
        }
        if q == k {
            assert(t[pos].0 == q);
            assert(has_key(t, q));
        }
    }
    assert forall|q: K| #[trigger] assoc(t).contains_key(q) implies assoc(t)[q] == assoc(s).insert(k, v)[q] by {
        let j = lemma_assoc_key(t, q);
        lemma_assoc_index(t, lt, j);
        if j < pos {
            lemma_assoc_index(s, lt, j);
            assert(lt(s[j].0, k));
        } else if j > pos {
            lemma_assoc_index(s, lt, j - 1);
            assert(lt(k, s[j - 1].0));
        }
    }
    assert(assoc(t) =~= assoc(s).insert(k, v));
}

/// The key of the last entry of a sorted sequence is the largest key.
pub proof fn lemma_assoc_last_max<K, V>(s: Seq<(K, V)>, lt: spec_fn(K, K) -> bool)
    requires
        strict_total(lt),
        strictly_sorted(s, lt),
        s.len() > 0,
    ensures
        is_max_key(assoc(s), s.last().0, lt),
        max_key(assoc(s), lt) == s.last().0,
        assoc(s)[s.last().0] == s.last().1,
{
    let n = s.len() - 1;
    lemma_assoc_index(s, lt, n);
    assert forall|k2: K| #[trigger] assoc(s).contains_key(k2) implies k2 == s.last().0 || lt(k2, s.last().0) by {
        let j = lemma_assoc_key(s, k2);
        if j < n {
            assert(lt(s[j].0, s[n].0));
        }
    }
    lemma_max_key_unique(assoc(s), lt, s.last().0);
}

/// Removing the last entry removes the largest key.
pub proof fn lemma_assoc_drop_last<K, V>(s: Seq<(K, V)>, lt: spec_fn(K, K) -> bool)
    requires
        strict_total(lt),
        strictly_sorted(s, lt),
        s.len() > 0,
    ensures
        strictly_sorted(s.drop_last(), lt),
        assoc(s.drop_last()) == assoc(s).remove(s.last().0),
{
    let t = s.drop_last();
    let n = s.len() - 1;
    assert forall|q: K| #[trigger] assoc(t).contains_key(q) <==> assoc(s).remove(s.last().0).contains_key(q) by {
        if assoc(t).contains_key(q) {
            let j = lemma_assoc_key(t, q);
            assert(s[j].0 == q);
            assert(has_key(s, q));
            assert(lt(s[j].0, s[n].0));
        }
        if assoc(s).contains_key(q) && q != s.last().0 {
            let j = lemma_assoc_key(s, q);
            assert(j != n);
            assert(t[j].0 == q);
            assert(has_key(t, q));
        }
    }
    assert forall|q: K| #[trigger] assoc(t).contains_key(q) implies assoc(t)[q] == assoc(s)[q] by {
        let j = lemma_assoc_key(t, q);
        lemma_assoc_index(t, lt, j);
        lemma_assoc_index(s, lt, j);
    }
    assert(assoc(t) =~= assoc(s).remove(s.last().0));
}

/// A sequence with one entry describes a map with one key.
pub proof fn lemma_assoc_single<K, V>(k: K, v: V)
    ensures
        assoc(seq![(k, v)]) == map![k => v],
{
    let s = seq![(k, v)];
    assert(s[0].0 == k);
    assert(has_key(s, k));
    assert(assoc(s) =~= map![k => v]);
}

/// A finite non-empty map under a strict total order has exactly one largest key.
pub proof fn lemma_max_key_unique<K, V>(m: Map<K, V>, lt: spec_fn(K, K) -> bool, k: K)
    requires
        strict_total(lt),
        is_max_key(m, k, lt),
    ensures
        max_key(m, lt) == k,
{
    let c = max_key(m, lt);
    assert(is_max_key(m, c, lt));
    if c != k {
        assert(lt(c, k));
        assert(lt(k, c));
        assert(lt(c, c));
    }
}

} // verus!
