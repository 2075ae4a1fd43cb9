//! A table is a sequence of key–value pairs with pairwise-distinct keys:
//! the unique index that gives each record kind its
//! one-record-per-key-tuple guarantee.
//!
//! The spec functions define membership and lookup; the lemmas say how
//! both behave under the two ways a table ever changes, appending a
//! fresh key and rewriting the value at an existing key.

use vstd::prelude::*;

verus! {

/// No two positions hold the same key.
pub open spec fn keys_unique<K, V>(s: Seq<(K, V)>) -> bool {
    forall|i: int, j: int|
        #![trigger s[i], s[j]]
        0 <= i < s.len() && 0 <= j < s.len() && s[i].0 == s[j].0 ==> i == j
}

/// Some position holds `k`.
pub open spec fn has_key<K, V>(s: Seq<(K, V)>, k: K) -> bool {
    exists|i: int| #![trigger s[i]] 0 <= i < s.len() && s[i].0 == k
}

/// The position holding `k` (meaningful only when `has_key` and keys
/// are unique).
pub open spec fn idx_of<K, V>(s: Seq<(K, V)>, k: K) -> int {
    choose|i: int| #![trigger s[i]] 0 <= i < s.len() && s[i].0 == k
}

/// The value stored under `k`.
pub open spec fn value_of<K, V>(s: Seq<(K, V)>, k: K) -> V {
    s[idx_of(s, k)].1
}

/// In a unique-key table, the position of any pair is found by its key.
pub proof fn lemma_idx_at<K, V>(s: Seq<(K, V)>, i: int)
    requires
        keys_unique(s),
        0 <= i < s.len(),
    ensures
        has_key(s, s[i].0),
        idx_of(s, s[i].0) == i,
        value_of(s, s[i].0) == s[i].1,
{
    assert(0 <= i < s.len() && s[i].0 == s[i].0);
    let j = idx_of(s, s[i].0);
    assert(0 <= j < s.len() && s[j].0 == s[i].0);
}

/// A key missing from every position is not in the table.
pub proof fn lemma_not_has<K, V>(s: Seq<(K, V)>, k: K)
    requires
        forall|i: int| #![trigger s[i]] 0 <= i < s.len() ==> s[i].0 != k,
    ensures
        !has_key(s, k),
{
}

/// Appending a fresh key keeps the keys unique, binds the new key to
/// the new value, and leaves every other key's membership and value as
/// they were.
pub proof fn lemma_push<K, V>(s: Seq<(K, V)>, k: K, v: V)
    requires
        keys_unique(s),
        !has_key(s, k),
    ensures
        keys_unique(s.push((k, v))),
        has_key(s.push((k, v)), k),
        idx_of(s.push((k, v)), k) == s.len(),
        value_of(s.push((k, v)), k) == v,
        forall|k2: K| k2 != k ==> (has_key(s.push((k, v)), k2) <==> has_key(s, k2)),
        forall|k2: K|
            has_key(s, k2) ==> has_key(s.push((k, v)), k2) && value_of(s.push((k, v)), k2)
                == value_of(s, k2),
{
    let s2 = s.push((k, v));
    assert forall|i: int, j: int|
        0 <= i < s2.len() && 0 <= j < s2.len() && (#[trigger] s2[i]).0 == (#[trigger] s2[j]).0
        implies i == j by {
        if i < s.len() && j < s.len() {
            assert(s2[i] == s[i]);
            assert(s2[j] == s[j]);
        } else if i < s.len() && j == s.len() {
            assert(s2[i] == s[i]);
            assert(s[i].0 == k);
        } else if i == s.len() && j < s.len() {
            assert(s2[j] == s[j]);
            assert(s[j].0 == k);
        }
    }
    assert(s2[s.len() as int] == (k, v));
    let jk = idx_of(s2, k);
    assert(0 <= jk < s2.len() && s2[jk].0 == k);
    assert(jk == s.len()) by {
        if jk < s.len() {
            assert(s2[jk] == s[jk]);
        }
    }
    assert forall|k2: K| k2 != k && has_key(s2, k2) implies has_key(s, k2) by {
        let i = choose|i: int| #![trigger s2[i]] 0 <= i < s2.len() && s2[i].0 == k2;
        assert(i < s.len());
        assert(s2[i] == s[i]);
    }
    assert forall|k2: K| k2 != k && has_key(s, k2) implies has_key(s2, k2) by {
        let i = choose|i: int| #![trigger s[i]] 0 <= i < s.len() && s[i].0 == k2;
        assert(s2[i] == s[i]);
    }
    assert forall|k2: K| has_key(s, k2) implies has_key(s2, k2) && value_of(s2, k2) == value_of(
        s,
        k2,
    ) by {
        let i = idx_of(s, k2);
        assert(0 <= i < s.len() && s[i].0 == k2);
        assert(k2 != k);
        assert(s2[i] == s[i]);
        let j = idx_of(s2, k2);
        assert(0 <= j < s2.len() && s2[j].0 == k2);
        assert(j < s.len());
        assert(s2[j] == s[j]);
        assert(j == i);
    }
}

/// Rewriting the value at an existing position keeps the keys unique,
/// binds that position's key to the new value, and leaves every other
/// key's membership and value as they were.
pub proof fn lemma_update<K, V>(s: Seq<(K, V)>, i: int, v: V)
    requires
        keys_unique(s),
        0 <= i < s.len(),
    ensures
        keys_unique(s.update(i, (s[i].0, v))),
        has_key(s.update(i, (s[i].0, v)), s[i].0),
        idx_of(s.update(i, (s[i].0, v)), s[i].0) == i,
        value_of(s.update(i, (s[i].0, v)), s[i].0) == v,
        forall|k2: K| has_key(s.update(i, (s[i].0, v)), k2) <==> has_key(s, k2),
        forall|k2: K|
            k2 != s[i].0 && has_key(s, k2) ==> value_of(s.update(i, (s[i].0, v)), k2) == value_of(
                s,
                k2,
            ),
{
    let k = s[i].0;
    let s2 = s.update(i, (k, v));
    assert forall|a: int, b: int|
        0 <= a < s2.len() && 0 <= b < s2.len() && (#[trigger] s2[a]).0 == (#[trigger] s2[b]).0
        implies a == b by {
        assert(s2[a].0 == s[a].0);
        assert(s2[b].0 == s[b].0);
    }
    assert(s2[i].0 == k);
    let jk = idx_of(s2, k);
    assert(0 <= jk < s2.len() && s2[jk].0 == k);
    assert(s[jk].0 == s2[jk].0);
    assert(jk == i);
    assert forall|k2: K| has_key(s2, k2) implies has_key(s, k2) by {
        let a = choose|a: int| #![trigger s2[a]] 0 <= a < s2.len() && s2[a].0 == k2;
        assert(s[a].0 == s2[a].0);
    }
    assert forall|k2: K| has_key(s, k2) implies has_key(s2, k2) by {
        let a = choose|a: int| #![trigger s[a]] 0 <= a < s.len() && s[a].0 == k2;
        assert(s2[a].0 == s[a].0);
    }
    assert forall|k2: K| k2 != k && has_key(s, k2) implies value_of(s2, k2) == value_of(
        s,
        k2,
    ) by {
        let a = idx_of(s, k2);
        assert(0 <= a < s.len() && s[a].0 == k2);
        let b = idx_of(s2, k2);
        assert(0 <= b < s2.len() && s2[b].0 == k2);
        assert(s[b].0 == s2[b].0);
        assert(b == a);
        assert(a != i);
        assert(s2[a] == s[a]);
    }
}

} // verus!
