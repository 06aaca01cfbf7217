use vstd::prelude::*;

verus! {

/// The map that a list of key-value pairs stands for: a later pair for a key
/// hides an earlier one.
pub open spec fn assoc_map<K, V>(l: Seq<(K, V)>) -> Map<K, V>
    decreases l.len(),
{
    if l.len() == 0 {
        Map::empty()
    } else {
        assoc_map(l.drop_last()).insert(l.last().0, l.last().1)
    }
}

/// The position of the last pair whose key is `k`.
pub open spec fn last_key_index<K, V>(l: Seq<(K, V)>, k: K) -> Option<int>
    decreases l.len(),
{
    if l.len() == 0 {
        None
    } else if l.last().0 == k {
        Some(l.len() - 1)
    } else {
        last_key_index(l.drop_last(), k)
    }
}

/// The last pair for a key carries the value the map gives for it, and a
/// key with no pair is not in the map.
pub proof fn lemma_assoc_lookup<K, V>(l: Seq<(K, V)>, k: K)
    ensures
        match last_key_index(l, k) {
            Some(j) => 0 <= j < l.len() && l[j].0 == k && assoc_map(l).contains_key(k) && assoc_map(l)[k]
                == l[j].1,
            None => !assoc_map(l).contains_key(k),
        },
    decreases l.len(),
{
    if l.len() > 0 && l.last().0 != k {
        lemma_assoc_lookup(l.drop_last(), k);
    }
}

/// Adding a pair at the end sets the key to the value.
pub proof fn lemma_assoc_push<K, V>(l: Seq<(K, V)>, k: K, v: V)
    ensures
        assoc_map(l.push((k, v))) == assoc_map(l).insert(k, v),
{
    assert(l.push((k, v)).drop_last() =~= l);
}

/// Replacing the last pair for a key sets the key to the new value.
pub proof fn lemma_assoc_update<K, V>(l: Seq<(K, V)>, k: K, v: V)
    requires
        last_key_index(l, k) is Some,
    ensures
        assoc_map(l.update(last_key_index(l, k)->0, (k, v))) == assoc_map(l).insert(k, v),
    decreases l.len(),
{
    let j = last_key_index(l, k)->0;
    let u = l.update(j, (k, v));
    if l.last().0 == k {
        assert(u.drop_last() =~= l.drop_last());
        assert(assoc_map(u) =~= assoc_map(l).insert(k, v));
    } else {
        lemma_assoc_lookup(l.drop_last(), k);
        lemma_assoc_update(l.drop_last(), k, v);
        assert(last_key_index(l.drop_last(), k) == Some(j));
        assert(u.drop_last() =~= l.drop_last().update(j, (k, v)));
        assert(u.last() == l.last());
        assert(assoc_map(u) =~= assoc_map(l).insert(k, v));
    }
}

} // verus!
