use vstd::prelude::*;

verus! {

/// The mathematical contents of an association list: a later entry for a key
/// overrides an earlier one.
pub(crate) open spec fn kv_map<K, V>(s: Seq<(K, V)>) -> Map<K, V>
    decreases s.len(),
{
    if s.len() == 0 {
        Map::empty()
    } else {
        kv_map(s.drop_last()).insert(s.last().0, s.last().1)
    }
}

/// No two entries of the list carry the same key.
pub(crate) open spec fn kv_unique<K, V>(s: Seq<(K, V)>) -> bool {
    forall|i: int, j: int| 0 <= i < j < s.len() ==> s[i].0 != s[j].0
}

pub(crate) proof fn lemma_kv_unique_drop_last<K, V>(s: Seq<(K, V)>)
    requires
        kv_unique(s),
        s.len() > 0,
    ensures
        kv_unique(s.drop_last()),
{
    assert forall|i: int, j: int|
        0 <= i < j < s.drop_last().len() implies s.drop_last()[i].0 != s.drop_last()[j].0 by {
        assert(s.drop_last()[i] == s[i]);
        assert(s.drop_last()[j] == s[j]);
    }
}

/// A key is in the map exactly when some entry carries it.
pub(crate) proof fn lemma_kv_domain<K, V>(s: Seq<(K, V)>, k: K)
    ensures
        kv_map(s).contains_key(k) <==> (exists|i: int| 0 <= i < s.len() && s[i].0 == k),
    decreases s.len(),
{
    if s.len() == 0 {
    } else {
        lemma_kv_domain(s.drop_last(), k);
        if s.last().0 == k {
            assert(s[s.len() - 1].0 == k);
        } else {
            if exists|i: int| 0 <= i < s.len() && s[i].0 == k {
                let i = choose|i: int| 0 <= i < s.len() && s[i].0 == k;
                assert(s.drop_last()[i].0 == k);
            }
            if exists|i: int| 0 <= i < s.drop_last().len() && s.drop_last()[i].0 == k {
                let i = choose|i: int| 0 <= i < s.drop_last().len() && s.drop_last()[i].0 == k;
                assert(s[i].0 == k);
            }
        }
    }
}

/// With unique keys, the entry at index `i` is what the map holds for its key.
pub(crate) proof fn lemma_kv_get<K, V>(s: Seq<(K, V)>, i: int)
    requires
        kv_unique(s),
        0 <= i < s.len(),
    ensures
        kv_map(s).contains_key(s[i].0),
        kv_map(s)[s[i].0] == s[i].1,
    decreases s.len(),
{
    if i == s.len() - 1 {
    } else {
        lemma_kv_unique_drop_last(s);
        assert(s.drop_last()[i] == s[i]);
        lemma_kv_get(s.drop_last(), i);
        assert(s[i].0 != s[s.len() - 1].0);
    }
}

/// Appending an entry inserts its key.
pub(crate) proof fn lemma_kv_push<K, V>(s: Seq<(K, V)>, e: (K, V))
    ensures
        kv_map(s.push(e)) == kv_map(s).insert(e.0, e.1),
{
    assert(s.push(e).drop_last() =~= s);
    assert(s.push(e).last() == e);
}

/// Appending an entry whose key is fresh keeps the keys unique.
pub(crate) proof fn lemma_kv_push_unique<K, V>(s: Seq<(K, V)>, e: (K, V))
    requires
        kv_unique(s),
        forall|i: int| 0 <= i < s.len() ==> s[i].0 != e.0,
    ensures
        kv_unique(s.push(e)),
{
    assert forall|i: int, j: int|
        0 <= i < j < s.push(e).len() implies s.push(e)[i].0 != s.push(e)[j].0 by {
        assert(s.push(e)[i] == s[i]);
        if j < s.len() {
            assert(s.push(e)[j] == s[j]);
        } else {
            assert(s.push(e)[j] == e);
        }
    }
}

/// Overwriting the entry that carries a key updates the map at that key.
pub(crate) proof fn lemma_kv_update<K, V>(s: Seq<(K, V)>, i: int, e: (K, V))
    requires
        kv_unique(s),
        0 <= i < s.len(),
        s[i].0 == e.0,
    ensures
        kv_map(s.update(i, e)) == kv_map(s).insert(e.0, e.1),
        kv_unique(s.update(i, e)),
    decreases s.len(),
{
    let s2 = s.update(i, e);
    assert forall|p: int, q: int| 0 <= p < q < s2.len() implies s2[p].0 != s2[q].0 by {
        if p == i {
            assert(s2[p] == e);
        } else {
            assert(s2[p] == s[p]);
        }
        if q == i {
            assert(s2[q] == e);
        } else {
            assert(s2[q] == s[q]);
        }
    }
    if i == s.len() - 1 {
        assert(s2.drop_last() =~= s.drop_last());
        assert(s2.last() == e);
        assert(kv_map(s.drop_last()).insert(e.0, s[i].1).insert(e.0, e.1)
            =~= kv_map(s.drop_last()).insert(e.0, e.1));
    } else {
        lemma_kv_unique_drop_last(s);
        assert(s.drop_last()[i] == s[i]);
        lemma_kv_update(s.drop_last(), i, e);
        assert(s2.drop_last() =~= s.drop_last().update(i, e));
        assert(s2.last() == s.last());
        assert(s[i].0 != s[s.len() - 1].0);
        assert(kv_map(s.drop_last()).insert(e.0, e.1).insert(s.last().0, s.last().1)
            =~= kv_map(s.drop_last()).insert(s.last().0, s.last().1).insert(e.0, e.1));
    }
}

/// Deleting the entry that carries a key removes that key from the map.
pub(crate) proof fn lemma_kv_remove<K, V>(s: Seq<(K, V)>, i: int)
    requires
        kv_unique(s),
        0 <= i < s.len(),
    ensures
        kv_map(s.remove(i)) == kv_map(s).remove(s[i].0),
        kv_unique(s.remove(i)),
    decreases s.len(),
{
    let s2 = s.remove(i);
    let k = s[i].0;
    assert forall|p: int, q: int| 0 <= p < q < s2.len() implies s2[p].0 != s2[q].0 by {
        if p < i {
            assert(s2[p] == s[p]);
        } else {
            assert(s2[p] == s[p + 1]);
        }
        if q < i {
            assert(s2[q] == s[q]);
        } else {
            assert(s2[q] == s[q + 1]);
        }
    }
    if i == s.len() - 1 {
        assert(s2 =~= s.drop_last());
        lemma_kv_unique_drop_last(s);
        lemma_kv_domain(s.drop_last(), k);
        assert forall|j: int| 0 <= j < s.drop_last().len() implies s.drop_last()[j].0 != k by {
            assert(s.drop_last()[j] == s[j]);
        }
        assert(!kv_map(s.drop_last()).contains_key(k));
        assert(kv_map(s.drop_last()).insert(k, s[i].1).remove(k) =~= kv_map(s.drop_last()));
    } else {
        lemma_kv_unique_drop_last(s);
        assert(s.drop_last()[i] == s[i]);
        lemma_kv_remove(s.drop_last(), i);
        assert(s2.drop_last() =~= s.drop_last().remove(i));
        assert(s2.len() == s.len() - 1);
        assert(s2.last() == s.last());
        assert(s[i].0 != s[s.len() - 1].0);
        assert(kv_map(s.drop_last()).remove(k).insert(s.last().0, s.last().1)
            =~= kv_map(s.drop_last()).insert(s.last().0, s.last().1).remove(k));
    }
}

} // verus!
