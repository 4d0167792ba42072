//! Association lists: sequences of `(key, value)` pairs in which each key
//! occurs at most once, kept in the order in which the keys first appeared.
//! They stand in for hash maps whose keys are strings.

use vstd::prelude::*;

verus! {

/// The position of the first pair whose key is `k`, or `-1`.
pub open spec fn key_index<K, V>(s: Seq<(K, V)>, k: K) -> int
    decreases s.len(),
{
    if s.len() == 0 {
        -1
    } else if s[0].0 == k {
        0
    } else {
        let r = key_index(s.drop_first(), k);
        if r < 0 {
            -1
        } else {
            r + 1
        }
    }
}

/// The value of the first pair whose key is `k`.
pub open spec fn lookup<K, V>(s: Seq<(K, V)>, k: K) -> Option<V> {
    let j = key_index(s, k);
    if j < 0 {
        None
    } else {
        Some(s[j].1)
    }
}

/// No key occurs twice.
pub open spec fn keys_unique<K, V>(s: Seq<(K, V)>) -> bool {
    forall|i: int, j: int| 0 <= i < j < s.len() ==> s[i].0 != s[j].0
}

/// The pairs of `pairs` grouped by key: one entry per key, in order of the
/// key's first appearance, holding the key's values in order
/// (`map.entry(k).or_default().push(v)` for each pair in turn).
pub open spec fn group_pairs<K, V>(pairs: Seq<(K, V)>) -> Seq<(K, Seq<V>)>
    decreases pairs.len(),
{
    if pairs.len() == 0 {
        Seq::empty()
    } else {
        group_step(group_pairs(pairs.drop_last()), pairs.last().0, pairs.last().1)
    }
}

/// `g` with `v` recorded under the key `k`: appended to the entry for `k`,
/// or in a new entry at the end when there is none.
pub open spec fn group_step<K, V>(g: Seq<(K, Seq<V>)>, k: K, v: V) -> Seq<(K, Seq<V>)> {
    let j = key_index(g, k);
    if j < 0 {
        g.push((k, seq![v]))
    } else {
        g.update(j, (k, g[j].1.push(v)))
    }
}

/// `key_index` finds the first pair with the key, and `-1` means that no
/// pair has it.
pub proof fn lemma_key_index<K, V>(s: Seq<(K, V)>, k: K)
    ensures
        -1 <= key_index(s, k) < s.len(),
        key_index(s, k) == -1 <==> forall|i: int| 0 <= i < s.len() ==> s[i].0 != k,
        key_index(s, k) >= 0 ==> s[key_index(s, k)].0 == k,
        forall|i: int| 0 <= i < key_index(s, k) ==> s[i].0 != k,
    decreases s.len(),
{
    if s.len() > 0 && s[0].0 != k {
        lemma_key_index(s.drop_first(), k);
        assert forall|i: int| 0 < i < s.len() implies s[i] == s.drop_first()[i - 1] by {}
        if key_index(s.drop_first(), k) == -1 {
            assert forall|i: int| 0 <= i < s.len() implies s[i].0 != k by {
                if i > 0 {
                    assert(s[i] == s.drop_first()[i - 1]);
                }
            }
        }
    }
}

/// The position at which a linear search stops is `key_index`.
pub proof fn lemma_key_index_at<K, V>(s: Seq<(K, V)>, k: K, j: int)
    requires
        0 <= j < s.len(),
        s[j].0 == k,
        forall|i: int| 0 <= i < j ==> s[i].0 != k,
    ensures
        key_index(s, k) == j,
{
    lemma_key_index(s, k);
}

/// A linear search that finds no pair means `key_index` is `-1`.
pub proof fn lemma_key_index_absent<K, V>(s: Seq<(K, V)>, k: K)
    requires
        forall|i: int| 0 <= i < s.len() ==> s[i].0 != k,
    ensures
        key_index(s, k) == -1,
{
    lemma_key_index(s, k);
}

/// Grouping yields one entry per key, and the keys are those of the pairs.
pub proof fn lemma_group_pairs_keys<K, V>(pairs: Seq<(K, V)>)
    ensures
        keys_unique(group_pairs(pairs)),
        forall|k: K|
            key_index(group_pairs(pairs), k) >= 0 <==> exists|i: int|
                0 <= i < pairs.len() && #[trigger] pairs[i].0 == k,
    decreases pairs.len(),
{
    if pairs.len() > 0 {
        let p = pairs.drop_last();
        lemma_group_pairs_keys(p);
        let g = group_pairs(p);
        let k = pairs.last().0;
        lemma_key_index(g, k);
        let r = group_pairs(pairs);
        assert forall|kk: K| key_index(r, kk) >= 0 <==> exists|i: int|
            0 <= i < pairs.len() && #[trigger] pairs[i].0 == kk by {
            lemma_key_index(g, kk);
            lemma_key_index(r, kk);
            if key_index(r, kk) >= 0 {
                let w = key_index(r, kk);
                if kk == k {
                    assert(pairs[pairs.len() - 1].0 == kk);
                } else {
                    assert(r[w].0 == g[w].0);
                    let i = choose|i: int| 0 <= i < p.len() && #[trigger] p[i].0 == kk;
                    assert(pairs[i] == p[i]);
                }
            } else {
                assert forall|i: int| 0 <= i < pairs.len() implies #[trigger] pairs[i].0 != kk by {
                    if i < p.len() {
                        assert(pairs[i] == p[i]);
                        if p[i].0 == kk {
                            let w = key_index(g, kk);
                            assert(r[w].0 == kk);
                        }
                    } else {
                        if kk == k {
                            if key_index(g, k) < 0 {
                                assert(r[g.len() as int].0 == kk);
                            } else {
                                assert(r[key_index(g, k)].0 == kk);
                            }
                        }
                    }
                }
            }
        }
    }
}

/// Appending a pair leaves the positions of the keys already present, and
/// gives a new key the last position.
pub proof fn lemma_key_index_push<K, V>(g: Seq<(K, V)>, p: (K, V), k: K)
    ensures
        key_index(g.push(p), k) == if key_index(g, k) >= 0 {
            key_index(g, k)
        } else if p.0 == k {
            g.len() as int
        } else {
            -1
        },
{
    let h = g.push(p);
    lemma_key_index(g, k);
    lemma_key_index(h, k);
    assert forall|i: int| 0 <= i < g.len() implies h[i] == g[i] by {}
    if key_index(g, k) >= 0 {
        lemma_key_index_at(h, k, key_index(g, k));
    } else if p.0 == k {
        lemma_key_index_at(h, k, g.len() as int);
    } else {
        lemma_key_index_absent(h, k);
    }
}

} // verus!
