//! Small association tables kept as key/value vectors with unique keys, and
//! the lemmas that relate in-place updates to lookups.

use vstd::prelude::*;

verus! {

/// The value stored under `k`: the first (and, with unique keys, only) match.
pub open spec fn assoc_get<K, V>(t: Seq<(K, V)>, k: K) -> Option<V>
    decreases t.len(),
{
    if t.len() == 0 {
        None
    } else if t[0].0 == k {
        Some(t[0].1)
    } else {
        assoc_get(t.drop_first(), k)
    }
}

/// No two entries share a key.
pub open spec fn assoc_unique<K, V>(t: Seq<(K, V)>) -> bool {
    forall|i: int, j: int| 0 <= i < j < t.len() ==> (#[trigger] t[i]).0 != (#[trigger] t[j]).0
}

/// With unique keys, an entry at any index is what lookup finds.
pub proof fn lemma_assoc_get_at<K, V>(t: Seq<(K, V)>, i: int)
    requires
        assoc_unique(t),
        0 <= i < t.len(),
    ensures
        assoc_get(t, t[i].0) == Some(t[i].1),
    decreases t.len(),
{
    if i > 0 {
        assert(t[0].0 != t[i].0);
        assert(t.drop_first()[i - 1] == t[i]);
        assert(assoc_unique(t.drop_first())) by {
            assert forall|a: int, b: int|
                0 <= a < b < t.drop_first().len() implies (#[trigger] t.drop_first()[a]).0 != (
            #[trigger] t.drop_first()[b]).0 by {
                assert(t.drop_first()[a] == t[a + 1]);
                assert(t.drop_first()[b] == t[b + 1]);
            }
        }
        lemma_assoc_get_at(t.drop_first(), i - 1);
    }
}

/// A key matching no entry is absent from lookup.
pub proof fn lemma_assoc_get_absent<K, V>(t: Seq<(K, V)>, k: K)
    requires
        forall|i: int| 0 <= i < t.len() ==> (#[trigger] t[i]).0 != k,
    ensures
        assoc_get(t, k) is None,
    decreases t.len(),
{
    if t.len() > 0 {
        assert forall|i: int|
            0 <= i < t.drop_first().len() implies (#[trigger] t.drop_first()[i]).0 != k by {
            assert(t.drop_first()[i] == t[i + 1]);
        }
        lemma_assoc_get_absent(t.drop_first(), k);
    }
}

/// Overwriting the entry at `i` leaves every other key's lookup unchanged.
pub proof fn lemma_assoc_get_update<K, V>(t: Seq<(K, V)>, i: int, v: (K, V), k: K)
    requires
        0 <= i < t.len(),
        t[i].0 == v.0,
        k != v.0,
    ensures
        assoc_get(t.update(i, v), k) == assoc_get(t, k),
    decreases t.len(),
{
    let u = t.update(i, v);
    if i == 0 {
        assert(u.drop_first() =~= t.drop_first());
    } else {
        assert(u[0] == t[0]);
        if t[0].0 == k {
        } else {
            assert(u.drop_first() =~= t.drop_first().update(i - 1, v));
            lemma_assoc_get_update(t.drop_first(), i - 1, v, k);
        }
    }
}

/// Appending a fresh key leaves every other key's lookup unchanged.
pub proof fn lemma_assoc_get_push<K, V>(t: Seq<(K, V)>, v: (K, V), k: K)
    requires
        k != v.0,
    ensures
        assoc_get(t.push(v), k) == assoc_get(t, k),
    decreases t.len(),
{
    let u = t.push(v);
    if t.len() == 0 {
        assert(u[0] == v);
        lemma_assoc_get_absent(u.drop_first(), k);
    } else {
        assert(u[0] == t[0]);
        if t[0].0 == k {
        } else {
            assert(u.drop_first() =~= t.drop_first().push(v));
            lemma_assoc_get_push(t.drop_first(), v, k);
        }
    }
}

/// A successful lookup names an actual entry of the table.
pub proof fn lemma_assoc_get_some_index<K, V>(t: Seq<(K, V)>, k: K)
    requires
        assoc_get(t, k) is Some,
    ensures
        exists|i: int| 0 <= i < t.len() && #[trigger] t[i] == (k, assoc_get(t, k)->0),
    decreases t.len(),
{
    if t.len() > 0 {
        if t[0].0 == k {
            assert(t[0] == (k, assoc_get(t, k)->0));
        } else {
            lemma_assoc_get_some_index(t.drop_first(), k);
            let i = choose|i: int|
                0 <= i < t.drop_first().len() && #[trigger] t.drop_first()[i] == (
                k,
                assoc_get(t.drop_first(), k)->0,
            );
            assert(t[i + 1] == t.drop_first()[i]);
        }
    }
}

/// A pushed entry is found under its own key.
pub proof fn lemma_assoc_get_push_same<K, V>(t: Seq<(K, V)>, v: (K, V))
    requires
        forall|i: int| 0 <= i < t.len() ==> (#[trigger] t[i]).0 != v.0,
    ensures
        assoc_get(t.push(v), v.0) == Some(v.1),
    decreases t.len(),
{
    let u = t.push(v);
    if t.len() == 0 {
        assert(u[0] == v);
    } else {
        assert(u[0] == t[0]);
        assert(u.drop_first() =~= t.drop_first().push(v));
        assert forall|i: int|
            0 <= i < t.drop_first().len() implies (#[trigger] t.drop_first()[i]).0 != v.0 by {
            assert(t.drop_first()[i] == t[i + 1]);
        }
        lemma_assoc_get_push_same(t.drop_first(), v);
    }
}

} // verus!
