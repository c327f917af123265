//! The mathematical model of the descriptor's mapping-valued fields.
//!
//! A mapping field (`Ports`, `Envs`, `Commands`, ...) is stored as a vector
//! of key/value pairs with pairwise-distinct keys; its model is the `Map`
//! obtained by inserting the pairs in order, so that on duplicate keys in a
//! source document the last entry wins.

use vstd::prelude::*;

verus! {

/// The map described by a sequence of key/value pairs, later pairs winning.
pub open spec fn pairs_to_map<K, V>(s: Seq<(K, V)>) -> Map<K, V>
    decreases s.len(),
{
    if s.len() == 0 {
        Map::empty()
    } else {
        pairs_to_map(s.drop_last()).insert(s.last().0, s.last().1)
    }
}

/// All keys of the pair sequence are distinct.
pub open spec fn keys_unique<K, V>(s: Seq<(K, V)>) -> bool {
    forall|i: int, j: int| 0 <= i < j < s.len() ==> s[i].0 != s[j].0
}

/// Appending a pair inserts its key.
pub proof fn lemma_pairs_to_map_push<K, V>(s: Seq<(K, V)>, k: K, v: V)
    ensures
        pairs_to_map(s.push((k, v))) == pairs_to_map(s).insert(k, v),
{
    assert(s.push((k, v)).drop_last() =~= s);
}

/// Overwriting the value at an existing key, when keys are distinct,
/// re-inserts that key.
pub proof fn lemma_pairs_to_map_update<K, V>(s: Seq<(K, V)>, i: int, v: V)
    requires
        0 <= i < s.len(),
        keys_unique(s),
    ensures
        pairs_to_map(s.update(i, (s[i].0, v))) == pairs_to_map(s).insert(s[i].0, v),
    decreases s.len(),
{
    let k = s[i].0;
    let t = s.update(i, (k, v));
    if i == s.len() - 1 {
        assert(t.drop_last() =~= s.drop_last());
        assert(t.last() == (k, v));
        assert(pairs_to_map(s.drop_last()).insert(k, s.last().1).insert(k, v) =~= pairs_to_map(
            s.drop_last(),
        ).insert(k, v));
    } else {
        assert(t.drop_last() =~= s.drop_last().update(i, (k, v)));
        assert(t.last() == s.last());
        assert(s.drop_last()[i] == s[i]);
        lemma_pairs_to_map_update(s.drop_last(), i, v);
        assert(s.last().0 != k);
        assert(pairs_to_map(s.drop_last()).insert(k, v).insert(s.last().0, s.last().1)
            =~= pairs_to_map(s.drop_last()).insert(s.last().0, s.last().1).insert(k, v));
    }
}

/// Last write wins: the map described by a pair sequence binds a key to the
/// value of its last occurrence.
pub proof fn lemma_pairs_to_map_last_occurrence<K, V>(s: Seq<(K, V)>, i: int)
    requires
        0 <= i < s.len(),
        forall|j: int| i < j < s.len() ==> s[j].0 != s[i].0,
    ensures
        pairs_to_map(s).contains_key(s[i].0),
        pairs_to_map(s)[s[i].0] == s[i].1,
    decreases s.len(),
{
    if i < s.len() - 1 {
        assert(s.drop_last()[i] == s[i]);
        lemma_pairs_to_map_last_occurrence(s.drop_last(), i);
        assert(s.last().0 != s[i].0);
    }
}

} // verus!
