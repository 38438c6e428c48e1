//! Association lists: a sequence of key-value pairs read as a map.
use vstd::prelude::*;

verus! {

/// The map that a sequence of pairs stands for; of two pairs with one key the later one counts.
pub open spec fn pairs_map<V>(s: Seq<(Seq<char>, V)>) -> Map<Seq<char>, V>
    decreases s.len(),
{
    if s.len() == 0 {
        Map::empty()
    } else {
        pairs_map(s.drop_last()).insert(s.last().0, s.last().1)
    }
}

/// No key occurs twice.
pub open spec fn distinct_keys<V>(s: Seq<(Seq<char>, V)>) -> bool {
    forall|i: int, j: int| 0 <= i < j < s.len() ==> (#[trigger] s[i]).0 != (#[trigger] s[j]).0
}

/// Some pair of the sequence has the key.
pub open spec fn has_key<V>(s: Seq<(Seq<char>, V)>, key: Seq<char>) -> bool {
    exists|i: int| 0 <= i < s.len() && (#[trigger] s[i]).0 == key
}

/// A key is in the map exactly if some pair has it.
pub proof fn lemma_pairs_dom<V>(s: Seq<(Seq<char>, V)>, key: Seq<char>)
    ensures
        pairs_map(s).dom().contains(key) <==> has_key(s, key),
    decreases s.len(),
{
    if s.len() > 0 {
        let t = s.drop_last();
        lemma_pairs_dom(t, key);
        if has_key(s, key) {
            let i = choose|i: int| 0 <= i < s.len() && (#[trigger] s[i]).0 == key;
            if i < t.len() {
                assert(t[i].0 == key);
            }
        }
        if has_key(t, key) {
            let i = choose|i: int| 0 <= i < t.len() && (#[trigger] t[i]).0 == key;
            assert(s[i].0 == key);
        }
        if s.last().0 == key {
            assert(s[s.len() - 1].0 == key);
        }
    }
}

/// With distinct keys, the map holds at each pair's key that pair's value.
pub proof fn lemma_pairs_at<V>(s: Seq<(Seq<char>, V)>, i: int)
    requires
        distinct_keys(s),
        0 <= i < s.len(),
    ensures
        pairs_map(s).dom().contains(s[i].0),
        pairs_map(s)[s[i].0] == s[i].1,
    decreases s.len(),
{
    let t = s.drop_last();
    if i < s.len() - 1 {
        assert(distinct_keys(t)) by {
            assert forall|a: int, b: int| 0 <= a < b < t.len() implies (#[trigger] t[a]).0 != (
            #[trigger] t[b]).0 by {
                assert(s[a].0 != s[b].0);
            }
        }
        lemma_pairs_at(t, i);
        assert(t[i] == s[i]);
        assert(s[i].0 != s[s.len() - 1].0);
    }
}

/// Appending a pair inserts it into the map.
pub proof fn lemma_pairs_push<V>(s: Seq<(Seq<char>, V)>, key: Seq<char>, value: V)
    ensures
        pairs_map(s.push((key, value))) == pairs_map(s).insert(key, value),
{
    assert(s.push((key, value)).drop_last() =~= s);
}

/// Appending a pair with a new key keeps the keys distinct.
pub proof fn lemma_distinct_push<V>(s: Seq<(Seq<char>, V)>, key: Seq<char>, value: V)
    requires
        distinct_keys(s),
        !has_key(s, key),
    ensures
        distinct_keys(s.push((key, value))),
{
    let t = s.push((key, value));
    assert forall|a: int, b: int| 0 <= a < b < t.len() implies (#[trigger] t[a]).0 != (
    #[trigger] t[b]).0 by {
        if b < s.len() {
            assert(s[a].0 != s[b].0);
        } else {
            assert(t[a] == s[a]);
            if s[a].0 == key {
                assert(has_key(s, key));
            }
        }
    }
}

/// With distinct keys, dropping the pair at an index removes its key from the map.
pub proof fn lemma_pairs_remove<V>(s: Seq<(Seq<char>, V)>, i: int)
    requires
        distinct_keys(s),
        0 <= i < s.len(),
    ensures
        distinct_keys(s.remove(i)),
        pairs_map(s.remove(i)) =~= pairs_map(s).remove(s[i].0),
{
    let t = s.remove(i);
    assert forall|a: int, b: int| 0 <= a < b < t.len() implies (#[trigger] t[a]).0 != (
    #[trigger] t[b]).0 by {
        let a2 = if a < i { a } else { a + 1 };
        let b2 = if b < i { b } else { b + 1 };
        assert(t[a] == s[a2]);
        assert(t[b] == s[b2]);
        assert(s[a2].0 != s[b2].0);
    }
    assert forall|k: Seq<char>| pairs_map(t).dom().contains(k) <==> pairs_map(s).remove(
        s[i].0,
    ).dom().contains(k) by {
        lemma_pairs_dom(t, k);
        lemma_pairs_dom(s, k);
        if has_key(t, k) {
            let a = choose|a: int| 0 <= a < t.len() && (#[trigger] t[a]).0 == k;
            let a2 = if a < i { a } else { a + 1 };
            assert(t[a] == s[a2]);
            assert(s[a2].0 == k);
            if a2 < i {
                assert(s[a2].0 != s[i].0);
            } else {
                assert(s[i].0 != s[a2].0);
            }
        }
        if has_key(s, k) && k != s[i].0 {
            let a = choose|a: int| 0 <= a < s.len() && (#[trigger] s[a]).0 == k;
            let a2 = if a < i { a } else { a - 1 };
            assert(t[a2] == s[a]);
            assert(t[a2].0 == k);
        }
    }
    assert forall|k: Seq<char>| pairs_map(t).dom().contains(k) implies pairs_map(t)[k]
        == pairs_map(s).remove(s[i].0)[k] by {
        lemma_pairs_dom(t, k);
        let a = choose|a: int| 0 <= a < t.len() && (#[trigger] t[a]).0 == k;
        let a2 = if a < i { a } else { a + 1 };
        assert(t[a] == s[a2]);
        lemma_pairs_at(t, a);
        lemma_pairs_at(s, a2);
    }
}

/// With distinct keys, replacing the value of the pair at an index updates the map at its key.
pub proof fn lemma_pairs_update<V>(s: Seq<(Seq<char>, V)>, i: int, value: V)
    requires
        distinct_keys(s),
        0 <= i < s.len(),
    ensures
        distinct_keys(s.update(i, (s[i].0, value))),
        pairs_map(s.update(i, (s[i].0, value))) =~= pairs_map(s).insert(s[i].0, value),
{
    let key = s[i].0;
    let t = s.update(i, (key, value));
    assert forall|a: int, b: int| 0 <= a < b < t.len() implies (#[trigger] t[a]).0 != (
    #[trigger] t[b]).0 by {
        assert(t[a].0 == s[a].0);
        assert(t[b].0 == s[b].0);
        assert(s[a].0 != s[b].0);
    }
    assert forall|k: Seq<char>| pairs_map(t).dom().contains(k) <==> pairs_map(s).insert(
        key,
        value,
    ).dom().contains(k) by {
        lemma_pairs_dom(t, k);
        lemma_pairs_dom(s, k);
        if has_key(t, k) {
            let a = choose|a: int| 0 <= a < t.len() && (#[trigger] t[a]).0 == k;
            assert(s[a].0 == k);
        }
        if has_key(s, k) {
            let a = choose|a: int| 0 <= a < s.len() && (#[trigger] s[a]).0 == k;
            assert(t[a].0 == k);
        }
        if k == key {
            assert(t[i].0 == k);
        }
    }
    assert forall|k: Seq<char>| pairs_map(t).dom().contains(k) implies pairs_map(t)[k]
        == pairs_map(s).insert(key, value)[k] by {
        lemma_pairs_dom(t, k);
        let a = choose|a: int| 0 <= a < t.len() && (#[trigger] t[a]).0 == k;
        lemma_pairs_at(t, a);
        lemma_pairs_at(s, a);
        if a != i {
            assert(t[a] == s[a]);
            if a < i {
                assert(s[a].0 != s[i].0);
            } else {
                assert(s[i].0 != s[a].0);
            }
        }
    }
}

/// The map of a sequence of pairs has finitely many keys.
pub proof fn lemma_pairs_finite<V>(s: Seq<(Seq<char>, V)>)
    ensures
        pairs_map(s).dom().finite(),
    decreases s.len(),
{
    if s.len() > 0 {
        lemma_pairs_finite(s.drop_last());
    }
}

/// The map of the first `i + 1` pairs is the map of the first `i` with pair `i` inserted.
pub proof fn lemma_pairs_take<V>(s: Seq<(Seq<char>, V)>, i: int)
    requires
        0 <= i < s.len(),
    ensures
        pairs_map(s.take(i + 1)) == pairs_map(s.take(i)).insert(s[i].0, s[i].1),
{
    assert(s.take(i + 1).drop_last() =~= s.take(i));
}

/// The first no pairs are the empty sequence, the first `len` pairs the whole.
pub proof fn lemma_take_ends<V>(s: Seq<(Seq<char>, V)>)
    ensures
        s.take(0) == Seq::<(Seq<char>, V)>::empty(),
        s.take(s.len() as int) == s,
{
    assert(s.take(0) =~= Seq::<(Seq<char>, V)>::empty());
    assert(s.take(s.len() as int) =~= s);
}

/// The map holds at a key the value of the last pair that has the key.
pub proof fn lemma_pairs_last<V>(s: Seq<(Seq<char>, V)>, i: int)
    requires
        0 <= i < s.len(),
        forall|j: int| i < j < s.len() ==> (#[trigger] s[j]).0 != s[i].0,
    ensures
        pairs_map(s).dom().contains(s[i].0),
        pairs_map(s)[s[i].0] == s[i].1,
    decreases s.len(),
{
    if i < s.len() - 1 {
        let t = s.drop_last();
        assert forall|j: int| i < j < t.len() implies (#[trigger] t[j]).0 != t[i].0 by {
            assert(s[j].0 != s[i].0);
        }
        lemma_pairs_last(t, i);
        assert(s[s.len() - 1].0 != s[i].0);
    }
}

/// With distinct keys, the map has as many keys as the sequence has pairs.
pub proof fn lemma_pairs_len<V>(s: Seq<(Seq<char>, V)>)
    requires
        distinct_keys(s),
    ensures
        pairs_map(s).dom().finite(),
        pairs_map(s).dom().len() == s.len(),
    decreases s.len(),
{
    if s.len() > 0 {
        let t = s.drop_last();
        assert(distinct_keys(t)) by {
            assert forall|a: int, b: int| 0 <= a < b < t.len() implies (#[trigger] t[a]).0 != (
            #[trigger] t[b]).0 by {
                assert(s[a].0 != s[b].0);
            }
        }
        lemma_pairs_len(t);
        lemma_pairs_dom(t, s.last().0);
        if has_key(t, s.last().0) {
            let a = choose|a: int| 0 <= a < t.len() && (#[trigger] t[a]).0 == s.last().0;
            assert(s[a].0 != s[s.len() - 1].0);
        }
        assert(pairs_map(s).dom() =~= pairs_map(t).dom().insert(s.last().0));
    } else {
        assert(pairs_map(s).dom() =~= Set::<Seq<char>>::empty());
    }
}

} // verus!
