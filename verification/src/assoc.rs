//! Specification helpers for association lists: sequences of key/value
//! pairs in which every key appears at most once. The executable state of
//! the model keeps several such lists (per-user queues, per-channel vote
//! trackers, the stopped-channel set), all reasoned about through these
//! functions.

use vstd::prelude::*;

verus! {

/// Some pair in `s` carries the key `k`.
pub open spec fn has_key<K, V>(s: Seq<(K, V)>, k: K) -> bool {
    exists|i: int| 0 <= i < s.len() && s[i].0 == k
}

/// Every key appears at most once.
pub open spec fn distinct_keys<K, V>(s: Seq<(K, V)>) -> bool {
    forall|i: int, j: int|
        0 <= i < s.len() && 0 <= j < s.len() && i != j ==> s[i].0 != s[j].0
}

/// No element appears twice.
pub open spec fn distinct<A>(s: Seq<A>) -> bool {
    forall|i: int, j: int| 0 <= i < s.len() && 0 <= j < s.len() && i != j ==> s[i] != s[j]
}

/// The index of the pair carrying `k`; meaningful only when `has_key(s, k)`.
pub open spec fn key_index<K, V>(s: Seq<(K, V)>, k: K) -> int {
    choose|i: int| 0 <= i < s.len() && s[i].0 == k
}

/// The value stored under `k`; meaningful only when `has_key(s, k)`.
pub open spec fn value_of<K, V>(s: Seq<(K, V)>, k: K) -> V {
    s[key_index(s, k)].1
}

/// With distinct keys, an index holding `k` is the index `key_index` names.
pub proof fn lemma_key_index<K, V>(s: Seq<(K, V)>, k: K, i: int)
    requires
        distinct_keys(s),
        0 <= i < s.len(),
        s[i].0 == k,
    ensures
        has_key(s, k),
        key_index(s, k) == i,
        value_of(s, k) == s[i].1,
{
    assert(has_key(s, k));
    let j = key_index(s, k);
    assert(0 <= j < s.len() && s[j].0 == k);
}

/// Replacing the value at index `i` while keeping its key changes only the
/// binding of that key.
pub proof fn lemma_update_value<K, V>(s: Seq<(K, V)>, i: int, v: V)
    requires
        distinct_keys(s),
        0 <= i < s.len(),
    ensures
        distinct_keys(s.update(i, (s[i].0, v))),
        has_key(s.update(i, (s[i].0, v)), s[i].0),
        value_of(s.update(i, (s[i].0, v)), s[i].0) == v,
        forall|k2: K| k2 != s[i].0 ==>
            has_key(s.update(i, (s[i].0, v)), k2) == has_key(s, k2),
        forall|k2: K| k2 != s[i].0 && has_key(s, k2) ==>
            value_of(s.update(i, (s[i].0, v)), k2) == value_of(s, k2),
{
    let s2 = s.update(i, (s[i].0, v));
    assert(forall|j: int| 0 <= j < s.len() ==> s2[j].0 == s[j].0);
    lemma_key_index(s2, s[i].0, i);
    assert forall|k2: K| k2 != s[i].0 implies
        has_key(s2, k2) == has_key(s, k2) by {
        if has_key(s, k2) {
            let j = key_index(s, k2);
            assert(0 <= j < s.len() && s[j].0 == k2);
            assert(s2[j].0 == k2);
            assert(has_key(s2, k2));
        }
        if has_key(s2, k2) {
            let j = choose|j: int| 0 <= j < s2.len() && s2[j].0 == k2;
            assert(s[j].0 == k2);
            assert(has_key(s, k2));
        }
    }
    assert forall|k2: K| k2 != s[i].0 && has_key(s, k2) implies
        value_of(s2, k2) == value_of(s, k2) by {
        let j = key_index(s, k2);
        assert(0 <= j < s.len() && s[j].0 == k2);
        assert(j != i);
        lemma_key_index(s2, k2, j);
    }
}

/// Appending a pair with a fresh key binds that key and no other.
pub proof fn lemma_push_key<K, V>(s: Seq<(K, V)>, k: K, v: V)
    requires
        distinct_keys(s),
        !has_key(s, k),
    ensures
        distinct_keys(s.push((k, v))),
        has_key(s.push((k, v)), k),
        value_of(s.push((k, v)), k) == v,
        forall|k2: K| k2 != k ==> has_key(s.push((k, v)), k2) == has_key(s, k2),
        forall|k2: K| k2 != k && has_key(s, k2) ==>
            value_of(s.push((k, v)), k2) == value_of(s, k2),
{
    let s2 = s.push((k, v));
    assert(forall|j: int| 0 <= j < s.len() ==> s2[j] == s[j]);
    assert(s2[s.len() as int].0 == k);
    assert(forall|j: int| 0 <= j < s.len() ==> s[j].0 != k);
    lemma_key_index(s2, k, s.len() as int);
    assert forall|k2: K| k2 != k implies has_key(s2, k2) == has_key(s, k2) by {
        if has_key(s, k2) {
            let j = key_index(s, k2);
            assert(s2[j].0 == k2);
        }
        if has_key(s2, k2) {
            let j = choose|j: int| 0 <= j < s2.len() && s2[j].0 == k2;
            assert(j != s.len());
            assert(s[j].0 == k2);
        }
    }
    assert forall|k2: K| k2 != k && has_key(s, k2) implies
        value_of(s2, k2) == value_of(s, k2) by {
        let j = key_index(s, k2);
        lemma_key_index(s2, k2, j);
    }
}

/// Removing the pair at index `i` unbinds its key and no other.
pub proof fn lemma_remove_key<K, V>(s: Seq<(K, V)>, i: int)
    requires
        distinct_keys(s),
        0 <= i < s.len(),
    ensures
        distinct_keys(s.remove(i)),
        !has_key(s.remove(i), s[i].0),
        forall|k2: K| k2 != s[i].0 ==> has_key(s.remove(i), k2) == has_key(s, k2),
        forall|k2: K| k2 != s[i].0 && has_key(s, k2) ==>
            value_of(s.remove(i), k2) == value_of(s, k2),
{
    let s2 = s.remove(i);
    assert(forall|j: int| 0 <= j < i ==> s2[j] == s[j]);
    assert(forall|j: int| i <= j < s2.len() ==> s2[j] == s[j + 1]);
    assert forall|j: int| 0 <= j < s2.len() implies s2[j].0 != s[i].0 by {
        if j < i {
            assert(s2[j] == s[j]);
        } else {
            assert(s2[j] == s[j + 1]);
        }
    }
    assert forall|k2: K| k2 != s[i].0 implies has_key(s2, k2) == has_key(s, k2) by {
        if has_key(s, k2) {
            let j = key_index(s, k2);
            if j < i {
                assert(s2[j].0 == k2);
            } else {
                assert(j != i);
                assert(s2[j - 1].0 == k2);
            }
            assert(has_key(s2, k2));
        }
        if has_key(s2, k2) {
            let j = choose|j: int| 0 <= j < s2.len() && s2[j].0 == k2;
            if j < i {
                assert(s[j].0 == k2);
            } else {
                assert(s[j + 1].0 == k2);
            }
            assert(has_key(s, k2));
        }
    }
    assert forall|k2: K| k2 != s[i].0 && has_key(s, k2) implies
        value_of(s2, k2) == value_of(s, k2) by {
        let j = key_index(s, k2);
        assert(0 <= j < s.len() && s[j].0 == k2);
        if j < i {
            lemma_key_index(s2, k2, j);
        } else {
            assert(j != i);
            assert(s2[j - 1] == s[j]);
            lemma_key_index(s2, k2, j - 1);
        }
    }
}

/// Appending a fresh element to a duplicate-free sequence adds that
/// element and no other.
pub proof fn lemma_push_elem<A>(s: Seq<A>, x: A)
    requires
        distinct(s),
        !s.contains(x),
    ensures
        distinct(s.push(x)),
        s.push(x).contains(x),
        forall|a: A| a != x ==> s.push(x).contains(a) == s.contains(a),
{
    let s2 = s.push(x);
    assert(s2[s.len() as int] == x);
    assert forall|a: A| a != x implies s2.contains(a) == s.contains(a) by {
        if s.contains(a) {
            let j = choose|j: int| 0 <= j < s.len() && s[j] == a;
            assert(s2[j] == a);
        }
        if s2.contains(a) {
            let j = choose|j: int| 0 <= j < s2.len() && s2[j] == a;
            assert(j != s.len());
            assert(s[j] == a);
        }
    }
}

/// Removing the element at `i` from a duplicate-free sequence removes
/// that element and no other.
pub proof fn lemma_remove_elem<A>(s: Seq<A>, i: int)
    requires
        distinct(s),
        0 <= i < s.len(),
    ensures
        distinct(s.remove(i)),
        !s.remove(i).contains(s[i]),
        forall|a: A| a != s[i] ==> s.remove(i).contains(a) == s.contains(a),
{
    let s2 = s.remove(i);
    assert(forall|j: int| 0 <= j < i ==> s2[j] == s[j]);
    assert(forall|j: int| i <= j < s2.len() ==> s2[j] == s[j + 1]);
    assert forall|j: int| 0 <= j < s2.len() implies s2[j] != s[i] by {
        if j < i {
            assert(s2[j] == s[j]);
        } else {
            assert(s2[j] == s[j + 1]);
        }
    }
    assert forall|a: A| a != s[i] implies s2.contains(a) == s.contains(a) by {
        if s.contains(a) {
            let j = choose|j: int| 0 <= j < s.len() && s[j] == a;
            if j < i {
                assert(s2[j] == a);
            } else {
                assert(j != i);
                assert(s2[j - 1] == a);
            }
            assert(s2.contains(a));
        }
        if s2.contains(a) {
            let j = choose|j: int| 0 <= j < s2.len() && s2[j] == a;
            if j < i {
                assert(s[j] == a);
            } else {
                assert(s[j + 1] == a);
            }
            assert(s.contains(a));
        }
    }
}

/// Removing at `i` and inserting a pair back at `i` is an update.
pub proof fn lemma_remove_insert_is_update<A>(s: Seq<A>, i: int, x: A)
    requires
        0 <= i < s.len(),
    ensures
        s.remove(i).insert(i, x) =~= s.update(i, x),
{
}

} // verus!
