//! A small association-list repository keyed by `u64`, the explicit store
//! that backs the dungeon registry, the currency ledger and the asset
//! registry.  Lookups are specified by a recursive first-match function;
//! the lemmas below say how lookups react to updating one slot in place or
//! appending a fresh key.

use vstd::prelude::*;

verus! {

/// First value bound to `key` in `s[i..]`, scanning forward.
pub open spec fn find_from<V>(s: Seq<(u64, V)>, key: u64, i: int) -> Option<V>
    decreases s.len() - i,
{
    if i < 0 || i >= s.len() {
        None
    } else if s[i].0 == key {
        Some(s[i].1)
    } else {
        find_from(s, key, i + 1)
    }
}

/// First value bound to `key` in `s`.
pub open spec fn find<V>(s: Seq<(u64, V)>, key: u64) -> Option<V> {
    find_from(s, key, 0)
}

/// No two slots bind the same key.
pub open spec fn keys_unique<V>(s: Seq<(u64, V)>) -> bool {
    forall|i: int, j: int| 0 <= i < j < s.len() ==> s[i].0 != s[j].0
}

/// A scan that has passed `i` slots without a match may as well have
/// started at slot `i`.
pub proof fn lemma_find_skip_prefix<V>(s: Seq<(u64, V)>, key: u64, i: int)
    requires
        0 <= i <= s.len(),
        forall|k: int| 0 <= k < i ==> s[k].0 != key,
    ensures
        find(s, key) == find_from(s, key, i),
    decreases i,
{
    if i > 0 {
        lemma_find_skip_prefix(s, key, i - 1);
    }
}

/// A lookup misses exactly when no slot from `i` on binds the key.
pub proof fn lemma_find_from_none<V>(s: Seq<(u64, V)>, key: u64, i: int)
    requires
        0 <= i <= s.len(),
    ensures
        find_from(s, key, i) is None <==> (forall|k: int| i <= k < s.len() ==> s[k].0 != key),
    decreases s.len() - i,
{
    if i < s.len() {
        lemma_find_from_none(s, key, i + 1);
    }
}

proof fn lemma_find_from_update<V>(s: Seq<(u64, V)>, i: int, nv: V, key: u64, j: int)
    requires
        keys_unique(s),
        0 <= i < s.len(),
        0 <= j <= s.len(),
    ensures
        find_from(s.update(i, (s[i].0, nv)), key, j) == if key == s[i].0 {
            if j <= i {
                Some(nv)
            } else {
                find_from(s, key, j)
            }
        } else {
            find_from(s, key, j)
        },
    decreases s.len() - j,
{
    if j < s.len() {
        lemma_find_from_update(s, i, nv, key, j + 1);
    }
}

/// Replacing the value in slot `i` changes the lookup of that slot's key to
/// the new value and no other lookup; keys stay unique.
pub proof fn lemma_find_update<V>(s: Seq<(u64, V)>, i: int, nv: V)
    requires
        keys_unique(s),
        0 <= i < s.len(),
    ensures
        find(s.update(i, (s[i].0, nv)), s[i].0) == Some(nv),
        forall|key: u64| key != s[i].0 ==> find(s.update(i, (s[i].0, nv)), key) == find(s, key),
        keys_unique(s.update(i, (s[i].0, nv))),
    decreases s.len(),
{
    assert forall|key: u64| key != s[i].0 implies find(s.update(i, (s[i].0, nv)), key) == find(
        s,
        key,
    ) by {
        lemma_find_from_update(s, i, nv, key, 0);
    }
    lemma_find_from_update(s, i, nv, s[i].0, 0);
}

proof fn lemma_find_from_push<V>(s: Seq<(u64, V)>, k0: u64, v: V, key: u64, j: int)
    requires
        0 <= j <= s.len(),
    ensures
        find_from(s.push((k0, v)), key, j) == if find_from(s, key, j) is Some {
            find_from(s, key, j)
        } else if key == k0 {
            Some(v)
        } else {
            None
        },
    decreases s.len() - j,
{
    if j < s.len() {
        lemma_find_from_push(s, k0, v, key, j + 1);
    } else {
        assert(find_from(s.push((k0, v)), key, j + 1) is None);
    }
}

/// Appending a key that is not yet bound makes its lookup hit the new value,
/// leaves every other lookup alone, and keeps keys unique.
pub proof fn lemma_find_push<V>(s: Seq<(u64, V)>, k0: u64, v: V)
    requires
        keys_unique(s),
        find(s, k0) is None,
    ensures
        find(s.push((k0, v)), k0) == Some(v),
        forall|key: u64| key != k0 ==> find(s.push((k0, v)), key) == find(s, key),
        keys_unique(s.push((k0, v))),
{
    assert forall|key: u64| find(s.push((k0, v)), key) == if find(s, key) is Some {
        find(s, key)
    } else if key == k0 {
        Some(v)
    } else {
        None
    } by {
        lemma_find_from_push(s, k0, v, key, 0);
    }
    lemma_find_from_none(s, k0, 0);
    assert forall|i: int, j: int|
        0 <= i < j < s.push((k0, v)).len() implies s.push((k0, v))[i].0 != s.push(
        (k0, v),
    )[j].0 by {
        if j == s.len() {
            assert(s[i].0 != k0);
        }
    }
}

/// Index of the first slot binding `key`, or the length if none does.
pub fn find_index<V>(v: &Vec<(u64, V)>, key: u64) -> (r: Option<usize>)
    ensures
        match r {
            Some(i) => i < v.len() && v@[i as int].0 == key && find(v@, key) == Some(
                v@[i as int].1,
            ),
            None => find(v@, key) is None,
        },
{
    let n = v.len();
    let mut i: usize = 0;
    while i < n
        invariant
            n == v.len(),
            0 <= i <= n,
            forall|k: int| 0 <= k < i ==> v@[k].0 != key,
        decreases n - i,
    {
        if v[i].0 == key {
            proof {
                lemma_find_skip_prefix(v@, key, i as int);
            }
            return Some(i);
        }
        i = i + 1;
    }
    proof {
        lemma_find_from_none(v@, key, 0);
    }
    None
}

} // verus!
