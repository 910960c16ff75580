use vstd::prelude::*;

verus! {

/// No two entries of `s` have the same key.
pub open spec fn unique_keys<T: View, K>(s: Seq<T>, key: spec_fn(T::V) -> K) -> bool {
    forall|i: int, j: int|
        0 <= i < s.len() && 0 <= j < s.len() && i != j ==> key(#[trigger] s[i]@) != key(
            #[trigger] s[j]@,
        )
}

/// Some entry of `s` has key `k`.
pub open spec fn has_key<T: View, K>(s: Seq<T>, key: spec_fn(T::V) -> K, k: K) -> bool {
    exists|i: int| 0 <= i < s.len() && key(#[trigger] s[i]@) == k
}

/// The entries of `s` by key.
pub open spec fn keyed_map<T: View, K>(s: Seq<T>, key: spec_fn(T::V) -> K) -> Map<K, T::V> {
    Map::new(
        |k: K| has_key(s, key, k),
        |k: K| s[choose|i: int| 0 <= i < s.len() && key(#[trigger] s[i]@) == k]@,
    )
}

/// The map that inserting the entries of `s` one after the other gives: a later entry
/// replaces an earlier one of the same key.
pub open spec fn last_wins<T: View, K>(s: Seq<T>, key: spec_fn(T::V) -> K) -> Map<K, T::V>
    decreases s.len(),
{
    if s.len() == 0 {
        Map::empty()
    } else {
        last_wins(s.drop_last(), key).insert(key(s.last()@), s.last()@)
    }
}

pub proof fn lemma_keyed_lookup<T: View, K>(s: Seq<T>, key: spec_fn(T::V) -> K, i: int)
    requires
        unique_keys(s, key),
        0 <= i < s.len(),
    ensures
        keyed_map(s, key).dom().contains(key(s[i]@)),
        keyed_map(s, key)[key(s[i]@)] == s[i]@,
{
    let k = key(s[i]@);
    assert(has_key(s, key, k));
    let j = choose|j: int| 0 <= j < s.len() && key(#[trigger] s[j]@) == k;
    assert(j == i);
}

pub proof fn lemma_keyed_push<T: View, K>(s: Seq<T>, key: spec_fn(T::V) -> K, x: T)
    requires
        unique_keys(s, key),
        !has_key(s, key, key(x@)),
    ensures
        unique_keys(s.push(x), key),
        keyed_map(s.push(x), key) == keyed_map(s, key).insert(key(x@), x@),
{
    let t = s.push(x);
    assert(forall|i: int| 0 <= i < s.len() ==> t[i] == s[i]);
    assert forall|i: int, j: int|
        0 <= i < t.len() && 0 <= j < t.len() && i != j implies key(#[trigger] t[i]@) != key(
        #[trigger] t[j]@,
    ) by {
        if i < s.len() && j < s.len() {
        } else if i < s.len() {
            assert(key(s[i]@) != key(x@));
        } else if j < s.len() {
            assert(key(s[j]@) != key(x@));
        }
    }
    assert forall|k: K| #[trigger] has_key(t, key, k) == (has_key(s, key, k) || k == key(x@)) by {
        if has_key(s, key, k) {
            let a = choose|a: int| 0 <= a < s.len() && key(#[trigger] s[a]@) == k;
            assert(key(t[a]@) == k);
        }
        if k == key(x@) {
            assert(key(t[s.len() as int]@) == k);
        }
        if has_key(t, key, k) {
            let a = choose|a: int| 0 <= a < t.len() && key(#[trigger] t[a]@) == k;
            if a < s.len() {
                assert(key(s[a]@) == k);
            }
        }
    }
    assert forall|k: K| #[trigger] keyed_map(t, key).dom().contains(k) implies keyed_map(t, key)[k]
        == keyed_map(s, key).insert(key(x@), x@)[k] by {
        let a = choose|a: int| 0 <= a < t.len() && key(#[trigger] t[a]@) == k;
        lemma_keyed_lookup(t, key, a);
        if a < s.len() {
            lemma_keyed_lookup(s, key, a);
        }
    }
    assert(keyed_map(t, key) =~= keyed_map(s, key).insert(key(x@), x@));
}

pub proof fn lemma_keyed_update<T: View, K>(s: Seq<T>, key: spec_fn(T::V) -> K, i: int, x: T)
    requires
        unique_keys(s, key),
        0 <= i < s.len(),
        key(s[i]@) == key(x@),
    ensures
        unique_keys(s.update(i, x), key),
        keyed_map(s.update(i, x), key) == keyed_map(s, key).insert(key(x@), x@),
{
    let t = s.update(i, x);
    assert forall|k: K| #[trigger] has_key(t, key, k) == has_key(s, key, k) by {
        if has_key(s, key, k) {
            let a = choose|a: int| 0 <= a < s.len() && key(#[trigger] s[a]@) == k;
            assert(key(t[a]@) == k);
        }
        if has_key(t, key, k) {
            let a = choose|a: int| 0 <= a < t.len() && key(#[trigger] t[a]@) == k;
            assert(key(s[a]@) == k);
        }
    }
    assert forall|k: K| #[trigger] keyed_map(t, key).dom().contains(k) implies keyed_map(t, key)[k]
        == keyed_map(s, key).insert(key(x@), x@)[k] by {
        let a = choose|a: int| 0 <= a < t.len() && key(#[trigger] t[a]@) == k;
        lemma_keyed_lookup(t, key, a);
        if a != i {
            lemma_keyed_lookup(s, key, a);
        }
    }
    lemma_keyed_lookup(s, key, i);
    assert(keyed_map(t, key) =~= keyed_map(s, key).insert(key(x@), x@));
}

pub proof fn lemma_keyed_remove<T: View, K>(s: Seq<T>, key: spec_fn(T::V) -> K, i: int)
    requires
        unique_keys(s, key),
        0 <= i < s.len(),
    ensures
        unique_keys(s.remove(i), key),
        keyed_map(s.remove(i), key) == keyed_map(s, key).remove(key(s[i]@)),
{
    let t = s.remove(i);
    let w = key(s[i]@);
    assert forall|a: int| 0 <= a < t.len() implies #[trigger] t[a] == (if a < i {
        s[a]
    } else {
        s[a + 1]
    }) by {}
    assert forall|a: int, b: int|
        0 <= a < t.len() && 0 <= b < t.len() && a != b implies key(#[trigger] t[a]@) != key(
        #[trigger] t[b]@,
    ) by {
        let a2 = if a < i { a } else { a + 1 };
        let b2 = if b < i { b } else { b + 1 };
        assert(t[a] == s[a2] && t[b] == s[b2]);
    }
    assert forall|k: K| #[trigger] has_key(t, key, k) == (has_key(s, key, k) && k != w) by {
        if has_key(t, key, k) {
            let a = choose|a: int| 0 <= a < t.len() && key(#[trigger] t[a]@) == k;
            if a < i {
                assert(key(s[a]@) == k);
            } else {
                assert(key(s[a + 1]@) == k);
            }
        }
        if has_key(s, key, k) && k != w {
            let a = choose|a: int| 0 <= a < s.len() && key(#[trigger] s[a]@) == k;
            if a < i {
                assert(key(t[a]@) == k);
            } else {
                assert(a != i);
                assert(key(t[a - 1]@) == k);
            }
        }
    }
    assert forall|k: K| #[trigger] keyed_map(t, key).dom().contains(k) implies keyed_map(t, key)[k]
        == keyed_map(s, key)[k] by {
        let a = choose|a: int| 0 <= a < t.len() && key(#[trigger] t[a]@) == k;
        lemma_keyed_lookup(t, key, a);
        if a < i {
            lemma_keyed_lookup(s, key, a);
        } else {
            lemma_keyed_lookup(s, key, a + 1);
        }
    }
    assert(keyed_map(t, key) =~= keyed_map(s, key).remove(w));
}

} // verus!
