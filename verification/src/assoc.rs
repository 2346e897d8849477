//! Association lists: sequences of key/value pairs with distinct keys, and
//! lookup by key.

use vstd::prelude::*;

verus! {

/// No key occurs twice.
pub open spec fn unique_keys<K, V>(e: Seq<(K, V)>) -> bool {
    forall|i: int, j: int| 0 <= i < e.len() && 0 <= j < e.len() && i != j ==> #[trigger] e[i].0 != #[trigger] e[j].0
}

/// Whether some pair has key `k`.
pub open spec fn has_key<K, V>(e: Seq<(K, V)>, k: K) -> bool {
    exists|i: int| 0 <= i < e.len() && #[trigger] e[i].0 == k
}

/// The position of the pair with key `k`, or -1 when there is none.
pub open spec fn index_of<K, V>(e: Seq<(K, V)>, k: K) -> int {
    if has_key(e, k) {
        choose|i: int| 0 <= i < e.len() && #[trigger] e[i].0 == k
    } else {
        -1
    }
}

/// The value stored under `k`, if any.
pub open spec fn lookup<K, V>(e: Seq<(K, V)>, k: K) -> Option<V> {
    if has_key(e, k) {
        Some(e[index_of(e, k)].1)
    } else {
        None
    }
}

/// The keys of the pairs, as a set.
pub open spec fn key_set<K, V>(e: Seq<(K, V)>) -> Set<K> {
    Set::new(|k: K| has_key(e, k))
}

/// Storing `v` under `k`: the pair of `k` gets the new value in place, or a pair is appended.
pub open spec fn assoc_put<K, V>(e: Seq<(K, V)>, k: K, v: V) -> Seq<(K, V)> {
    let i = index_of(e, k);
    if i >= 0 {
        e.update(i, (k, v))
    } else {
        e.push((k, v))
    }
}

/// Storing a value keeps the keys distinct and changes only the stored key.
pub proof fn lemma_assoc_put<K, V>(e: Seq<(K, V)>, k: K, v: V)
    requires
        unique_keys(e),
    ensures
        unique_keys(assoc_put(e, k, v)),
        forall|x: K| #[trigger] lookup(assoc_put(e, k, v), x) == if x == k { Some(v) } else { lookup(e, x) },
        key_set(assoc_put(e, k, v)) == key_set(e).insert(k),
{
    if has_key(e, k) {
        let i = index_of(e, k);
        lemma_index_of_at(e, i);
        lemma_update_value(e, i, v);
        assert(key_set(e).insert(k) =~= key_set(e)) by {
            assert(key_set(e).contains(k));
        }
    } else {
        lemma_push_new(e, k, v);
    }
}

/// Two sequences with the same keys in the same positions find keys at the same positions.
pub proof fn lemma_same_keys<K, V, W>(e: Seq<(K, V)>, f: Seq<(K, W)>)
    requires
        unique_keys(e),
        e.len() == f.len(),
        forall|i: int| 0 <= i < e.len() ==> #[trigger] e[i].0 == f[i].0,
    ensures
        unique_keys(f),
        forall|k: K| #[trigger] has_key(f, k) == has_key(e, k),
        forall|k: K| has_key(e, k) ==> #[trigger] index_of(f, k) == index_of(e, k),
        key_set(f) == key_set(e),
{
    assert forall|i: int, j: int| 0 <= i < f.len() && 0 <= j < f.len() && i != j implies #[trigger] f[i].0
        != #[trigger] f[j].0 by {
        assert(e[i].0 == f[i].0 && e[j].0 == f[j].0);
    }
    assert forall|k: K| #[trigger] has_key(f, k) == has_key(e, k) by {
        if has_key(f, k) {
            let i = choose|i: int| 0 <= i < f.len() && #[trigger] f[i].0 == k;
            assert(e[i].0 == k);
        }
        if has_key(e, k) {
            let i = choose|i: int| 0 <= i < e.len() && #[trigger] e[i].0 == k;
            assert(f[i].0 == k);
        }
    }
    assert forall|k: K| has_key(e, k) implies #[trigger] index_of(f, k) == index_of(e, k) by {
        let i = index_of(e, k);
        lemma_index_of_at(e, i);
        assert(f[i].0 == k);
        lemma_index_of_at(f, i);
    }
    assert(key_set(f) =~= key_set(e));
}

/// With distinct keys, the pair found at `i` is the one `index_of` names.
pub proof fn lemma_index_of_at<K, V>(e: Seq<(K, V)>, i: int)
    requires
        unique_keys(e),
        0 <= i < e.len(),
    ensures
        has_key(e, e[i].0),
        index_of(e, e[i].0) == i,
        lookup(e, e[i].0) == Some(e[i].1),
{
    assert(e[i].0 == e[i].0);
    let j = index_of(e, e[i].0);
    assert(0 <= j < e.len() && e[j].0 == e[i].0);
}

/// When no pair has key `k`, `index_of` is -1.
pub proof fn lemma_index_of_absent<K, V>(e: Seq<(K, V)>, k: K)
    requires
        forall|i: int| 0 <= i < e.len() ==> e[i].0 != k,
    ensures
        !has_key(e, k),
        index_of(e, k) == -1,
        lookup(e, k) is None,
{
}

/// Replacing the value at a position keeps the keys distinct and changes only that key.
pub proof fn lemma_update_value<K, V>(e: Seq<(K, V)>, i: int, v: V)
    requires
        unique_keys(e),
        0 <= i < e.len(),
    ensures
        unique_keys(e.update(i, (e[i].0, v))),
        forall|k: K| #[trigger] lookup(e.update(i, (e[i].0, v)), k) == if k == e[i].0 { Some(v) } else { lookup(e, k) },
        key_set(e.update(i, (e[i].0, v))) == key_set(e),
{
    let e2 = e.update(i, (e[i].0, v));
    assert forall|k: K| #[trigger] lookup(e2, k) == if k == e[i].0 { Some(v) } else { lookup(e, k) } by {
        if k == e[i].0 {
            lemma_index_of_at(e2, i);
        } else if has_key(e, k) {
            let j = index_of(e, k);
            lemma_index_of_at(e, j);
            assert(e2[j].0 == k);
            lemma_index_of_at(e2, j);
        } else {
            assert forall|j: int| 0 <= j < e2.len() implies e2[j].0 != k by {
                if j != i {
                    assert(e2[j] == e[j]);
                }
            }
            lemma_index_of_absent(e2, k);
        }
    }
    assert forall|k: K| key_set(e2).contains(k) <==> key_set(e).contains(k) by {
        if has_key(e, k) {
            let j = choose|j: int| 0 <= j < e.len() && #[trigger] e[j].0 == k;
            assert(e2[j].0 == k);
        }
        if has_key(e2, k) {
            let j = choose|j: int| 0 <= j < e2.len() && #[trigger] e2[j].0 == k;
            assert(e[j].0 == k);
        }
    }
    assert(key_set(e2) =~= key_set(e));
}

/// Appending a pair with a new key keeps the keys distinct and adds only that key.
pub proof fn lemma_push_new<K, V>(e: Seq<(K, V)>, k: K, v: V)
    requires
        unique_keys(e),
        !has_key(e, k),
    ensures
        unique_keys(e.push((k, v))),
        forall|x: K| #[trigger] lookup(e.push((k, v)), x) == if x == k { Some(v) } else { lookup(e, x) },
        key_set(e.push((k, v))) == key_set(e).insert(k),
{
    let e2 = e.push((k, v));
    assert forall|i: int, j: int| 0 <= i < e2.len() && 0 <= j < e2.len() && i != j implies #[trigger] e2[i].0
        != #[trigger] e2[j].0 by {
        if i < e.len() && j < e.len() {
            assert(e2[i] == e[i] && e2[j] == e[j]);
        } else if i < e.len() {
            assert(e2[i] == e[i]);
            assert(e[i].0 != k);
        } else if j < e.len() {
            assert(e2[j] == e[j]);
            assert(e[j].0 != k);
        }
    }
    assert forall|x: K| #[trigger] lookup(e2, x) == if x == k { Some(v) } else { lookup(e, x) } by {
        if x == k {
            lemma_index_of_at(e2, e.len() as int);
        } else if has_key(e, x) {
            let j = index_of(e, x);
            lemma_index_of_at(e, j);
            assert(e2[j] == e[j]);
            lemma_index_of_at(e2, j);
        } else {
            assert forall|j: int| 0 <= j < e2.len() implies e2[j].0 != x by {
                if j < e.len() {
                    assert(e2[j] == e[j]);
                }
            }
            lemma_index_of_absent(e2, x);
        }
    }
    assert forall|x: K| key_set(e2).contains(x) <==> key_set(e).insert(k).contains(x) by {
        if has_key(e, x) {
            let j = choose|j: int| 0 <= j < e.len() && #[trigger] e[j].0 == x;
            assert(e2[j].0 == x);
        }
        if has_key(e2, x) && x != k {
            let j = choose|j: int| 0 <= j < e2.len() && #[trigger] e2[j].0 == x;
            assert(j < e.len());
            assert(e[j].0 == x);
        }
        if x == k {
            assert(e2[e.len() as int].0 == k);
        }
    }
    assert(key_set(e2) =~= key_set(e).insert(k));
}

/// Removing the pair at a position keeps the keys distinct and removes only that key.
pub proof fn lemma_remove_at<K, V>(e: Seq<(K, V)>, i: int)
    requires
        unique_keys(e),
        0 <= i < e.len(),
    ensures
        unique_keys(e.remove(i)),
        forall|x: K| #[trigger] lookup(e.remove(i), x) == if x == e[i].0 { None } else { lookup(e, x) },
        key_set(e.remove(i)) == key_set(e).remove(e[i].0),
{
    let e2 = e.remove(i);
    let k = e[i].0;
    assert forall|a: int, b: int| 0 <= a < e2.len() && 0 <= b < e2.len() && a != b implies #[trigger] e2[a].0
        != #[trigger] e2[b].0 by {
        let a1 = if a < i { a } else { a + 1 };
        let b1 = if b < i { b } else { b + 1 };
        assert(e2[a] == e[a1]);
        assert(e2[b] == e[b1]);
    }
    assert forall|x: K| #[trigger] lookup(e2, x) == if x == k { None } else { lookup(e, x) } by {
        if x == k {
            assert forall|j: int| 0 <= j < e2.len() implies e2[j].0 != x by {
                let j1 = if j < i { j } else { j + 1 };
                assert(e2[j] == e[j1]);
            }
            lemma_index_of_absent(e2, x);
        } else if has_key(e, x) {
            let j = index_of(e, x);
            lemma_index_of_at(e, j);
            let j2 = if j < i { j } else { j - 1 };
            assert(e2[j2] == e[j]);
            lemma_index_of_at(e2, j2);
        } else {
            assert forall|j: int| 0 <= j < e2.len() implies e2[j].0 != x by {
                let j1 = if j < i { j } else { j + 1 };
                assert(e2[j] == e[j1]);
            }
            lemma_index_of_absent(e2, x);
        }
    }
    assert forall|x: K| key_set(e2).contains(x) <==> key_set(e).remove(k).contains(x) by {
        if has_key(e2, x) {
            let j = choose|j: int| 0 <= j < e2.len() && #[trigger] e2[j].0 == x;
            let j1 = if j < i { j } else { j + 1 };
            assert(e2[j] == e[j1]);
            assert(e[j1].0 == x);
            if x == k {
                assert(j1 != i);
            }
        }
        if has_key(e, x) && x != k {
            let j = choose|j: int| 0 <= j < e.len() && #[trigger] e[j].0 == x;
            assert(j != i);
            let j2 = if j < i { j } else { j - 1 };
            assert(e2[j2] == e[j]);
        }
    }
    assert(key_set(e2) =~= key_set(e).remove(k));
}

/// Removing key `k`: the pair of `k` is taken out, the others keep their order.
pub open spec fn assoc_remove<K, V>(e: Seq<(K, V)>, k: K) -> Seq<(K, V)> {
    let i = index_of(e, k);
    if i >= 0 {
        e.remove(i)
    } else {
        e
    }
}

/// Removing a key keeps the keys distinct and takes out only that key.
pub proof fn lemma_assoc_remove<K, V>(e: Seq<(K, V)>, k: K)
    requires
        unique_keys(e),
    ensures
        unique_keys(assoc_remove(e, k)),
        forall|x: K| #[trigger] lookup(assoc_remove(e, k), x) == if x == k { None } else { lookup(e, x) },
        key_set(assoc_remove(e, k)) == key_set(e).remove(k),
{
    if has_key(e, k) {
        let i = index_of(e, k);
        lemma_index_of_at(e, i);
        lemma_remove_at(e, i);
    } else {
        assert forall|x: K| #[trigger] lookup(e, x) == if x == k { None } else { lookup(e, x) } by {}
        assert(key_set(e) =~= key_set(e).remove(k));
    }
}

/// The keys of a sequence with distinct keys form a finite set of its length.
pub proof fn lemma_key_set_finite_len<K, V>(e: Seq<(K, V)>)
    requires
        unique_keys(e),
    ensures
        key_set(e).finite(),
        key_set(e).len() == e.len(),
    decreases e.len(),
{
    if e.len() == 0 {
        assert(key_set(e) =~= Set::<K>::empty());
    } else {
        let p = e.drop_last();
        assert(unique_keys(p)) by {
            assert forall|x: int, y: int| 0 <= x < p.len() && 0 <= y < p.len() && x != y implies #[trigger] p[x].0
                != #[trigger] p[y].0 by {
                assert(e[x].0 != e[y].0);
            }
        }
        lemma_key_set_finite_len(p);
        let a = e.last().0;
        assert(!key_set(p).contains(a)) by {
            if has_key(p, a) {
                let j = choose|j: int| 0 <= j < p.len() && #[trigger] p[j].0 == a;
                assert(e[j].0 == e[e.len() - 1].0);
            }
        }
        assert(key_set(e) =~= key_set(p).insert(a)) by {
            assert forall|x: K| key_set(e).contains(x) implies key_set(p).insert(a).contains(x) by {
                if has_key(e, x) {
                    let j = choose|j: int| 0 <= j < e.len() && #[trigger] e[j].0 == x;
                    if j < p.len() {
                        assert(p[j] == e[j]);
                    }
                }
            }
            assert forall|x: K| key_set(p).insert(a).contains(x) implies key_set(e).contains(x) by {
                if has_key(p, x) {
                    let j = choose|j: int| 0 <= j < p.len() && #[trigger] p[j].0 == x;
                    assert(e[j] == p[j]);
                }
                if x == a {
                    assert(e[e.len() - 1].0 == a);
                }
            }
        }
    }
}

} // verus!
