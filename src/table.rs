//! Tables as sequences of `(key, value)` entries with distinct keys, and the
//! map from keys to values that such a sequence stands for.
use vstd::prelude::*;

verus! {

/// No two entries share a key.
pub open spec fn keys_distinct<K, M>(s: Seq<(K, M)>) -> bool {
    forall|i: int, j: int|
        0 <= i < s.len() && 0 <= j < s.len() && i != j ==> #[trigger] s[i].0 != #[trigger] s[j].0
}

/// Some entry has key `k`.
pub open spec fn has_key<K, M>(s: Seq<(K, M)>, k: K) -> bool {
    exists|i: int| 0 <= i < s.len() && #[trigger] s[i].0 == k
}

/// The map from each key to the value of an entry with that key.
pub open spec fn keyed<K, M>(s: Seq<(K, M)>) -> Map<K, M> {
    Map::new(
        |k: K| has_key(s, k),
        |k: K| s[choose|i: int| 0 <= i < s.len() && #[trigger] s[i].0 == k].1,
    )
}

/// The entries of `m` whose value satisfies `p`.
pub open spec fn keep_where<K, M>(m: Map<K, M>, p: spec_fn(M) -> bool) -> Map<K, M> {
    Map::new(|k: K| m.contains_key(k) && p(m[k]), |k: K| m[k])
}

/// With distinct keys, entry `i` gives the value of its key.
pub proof fn lemma_keyed_index<K, M>(s: Seq<(K, M)>, i: int)
    requires
        keys_distinct(s),
        0 <= i < s.len(),
    ensures
        keyed(s).contains_key(s[i].0),
        keyed(s)[s[i].0] == s[i].1,
{
    let k = s[i].0;
    assert(has_key(s, k));
    let j = choose|j: int| 0 <= j < s.len() && #[trigger] s[j].0 == k;
    assert(j == i);
}

/// Appending an entry with a fresh key inserts it into the map.
pub proof fn lemma_keyed_push<K, M>(s: Seq<(K, M)>, e: (K, M))
    requires
        keys_distinct(s),
        !has_key(s, e.0),
    ensures
        keys_distinct(s.push(e)),
        keyed(s.push(e)) == keyed(s).insert(e.0, e.1),
{
    let t = s.push(e);
    assert forall|i: int, j: int|
        0 <= i < t.len() && 0 <= j < t.len() && i != j implies #[trigger] t[i].0
        != #[trigger] t[j].0 by {
        if i < s.len() && j < s.len() {
            assert(s[i].0 != s[j].0);
        } else if i < s.len() {
            assert(s[i].0 == t[i].0);
        } else {
            assert(s[j].0 == t[j].0);
        }
    }
    assert forall|k: K| #[trigger] keyed(t).contains_key(k) == keyed(s).insert(
        e.0,
        e.1,
    ).contains_key(k) by {
        if has_key(s, k) {
            let i = choose|i: int| 0 <= i < s.len() && #[trigger] s[i].0 == k;
            assert(t[i].0 == k);
        }
        if k == e.0 {
            assert(t[s.len() as int].0 == k);
        }
        if has_key(t, k) && k != e.0 {
            let i = choose|i: int| 0 <= i < t.len() && #[trigger] t[i].0 == k;
            assert(s[i].0 == k);
        }
    }
    assert forall|k: K| #[trigger] keyed(t).contains_key(k) implies keyed(t)[k] == keyed(s).insert(
        e.0,
        e.1,
    )[k] by {
        let i = choose|i: int| 0 <= i < t.len() && #[trigger] t[i].0 == k;
        lemma_keyed_index(t, i);
        if i < s.len() {
            lemma_keyed_index(s, i);
        }
    }
    assert(keyed(t) =~= keyed(s).insert(e.0, e.1));
}

/// Replacing the value of entry `i` updates its key in the map.
pub proof fn lemma_keyed_update<K, M>(s: Seq<(K, M)>, i: int, v: M)
    requires
        keys_distinct(s),
        0 <= i < s.len(),
    ensures
        keys_distinct(s.update(i, (s[i].0, v))),
        keyed(s.update(i, (s[i].0, v))) == keyed(s).insert(s[i].0, v),
{
    let t = s.update(i, (s[i].0, v));
    assert forall|a: int, b: int|
        0 <= a < t.len() && 0 <= b < t.len() && a != b implies #[trigger] t[a].0
        != #[trigger] t[b].0 by {
        assert(s[a].0 != s[b].0);
    }
    assert forall|k: K| #[trigger] keyed(t).contains_key(k) == keyed(s).insert(
        s[i].0,
        v,
    ).contains_key(k) by {
        if has_key(s, k) {
            let j = choose|j: int| 0 <= j < s.len() && #[trigger] s[j].0 == k;
            assert(t[j].0 == k);
        }
        if has_key(t, k) {
            let j = choose|j: int| 0 <= j < t.len() && #[trigger] t[j].0 == k;
            assert(s[j].0 == k);
        }
    }
    assert forall|k: K| #[trigger] keyed(t).contains_key(k) implies keyed(t)[k] == keyed(s).insert(
        s[i].0,
        v,
    )[k] by {
        let j = choose|j: int| 0 <= j < t.len() && #[trigger] t[j].0 == k;
        lemma_keyed_index(t, j);
        if j != i {
            lemma_keyed_index(s, j);
        }
    }
    assert(keyed(t) =~= keyed(s).insert(s[i].0, v));
}

/// Removing entry `i` removes its key from the map.
pub proof fn lemma_keyed_remove<K, M>(s: Seq<(K, M)>, i: int)
    requires
        keys_distinct(s),
        0 <= i < s.len(),
    ensures
        keys_distinct(s.remove(i)),
        keyed(s.remove(i)) == keyed(s).remove(s[i].0),
{
    let t = s.remove(i);
    assert forall|a: int, b: int|
        0 <= a < t.len() && 0 <= b < t.len() && a != b implies #[trigger] t[a].0
        != #[trigger] t[b].0 by {
        let a2 = if a < i { a } else { a + 1 };
        let b2 = if b < i { b } else { b + 1 };
        assert(t[a] == s[a2] && t[b] == s[b2]);
        assert(s[a2].0 != s[b2].0);
    }
    assert forall|k: K| #[trigger] keyed(t).contains_key(k) == keyed(s).remove(
        s[i].0,
    ).contains_key(k) by {
        if has_key(s, k) && k != s[i].0 {
            let j = choose|j: int| 0 <= j < s.len() && #[trigger] s[j].0 == k;
            if j < i {
                assert(t[j].0 == k);
            } else {
                assert(t[j - 1].0 == k);
            }
        }
        if has_key(t, k) {
            let j = choose|j: int| 0 <= j < t.len() && #[trigger] t[j].0 == k;
            let j2 = if j < i { j } else { j + 1 };
            assert(s[j2].0 == k);
        }
    }
    assert forall|k: K| #[trigger] keyed(t).contains_key(k) implies keyed(t)[k] == keyed(
        s,
    ).remove(s[i].0)[k] by {
        let j = choose|j: int| 0 <= j < t.len() && #[trigger] t[j].0 == k;
        let j2 = if j < i { j } else { j + 1 };
        assert(t[j] == s[j2]);
        lemma_keyed_index(t, j);
        lemma_keyed_index(s, j2);
    }
    assert(keyed(t) =~= keyed(s).remove(s[i].0));
}

/// The first `j + 1` entries map as the first `j` with entry `j` inserted,
/// and entry `j`'s key is not among the first `j`.
pub proof fn lemma_keyed_take_step<K, M>(s: Seq<(K, M)>, j: int)
    requires
        keys_distinct(s),
        0 <= j < s.len(),
    ensures
        keys_distinct(s.take(j)),
        !has_key(s.take(j), s[j].0),
        s.take(j + 1) == s.take(j).push(s[j]),
        keyed(s.take(j + 1)) == keyed(s.take(j)).insert(s[j].0, s[j].1),
{
    let t = s.take(j);
    assert(s.take(j + 1) =~= t.push(s[j]));
    assert forall|a: int, b: int|
        0 <= a < t.len() && 0 <= b < t.len() && a != b implies #[trigger] t[a].0
        != #[trigger] t[b].0 by {
        assert(s[a].0 != s[b].0);
    }
    if has_key(t, s[j].0) {
        let a = choose|a: int| 0 <= a < t.len() && #[trigger] t[a].0 == s[j].0;
        assert(s[a].0 != s[j].0);
    }
    lemma_keyed_push(t, s[j]);
}

} // verus!
