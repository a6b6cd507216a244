use vstd::prelude::*;

verus! {

/// `s` with `x` put behind the last item whose key is not larger than that of
/// `x`.
pub open spec fn inserted<T>(s: Seq<T>, x: T, key: spec_fn(T) -> int) -> Seq<T>
    decreases s.len(),
{
    if s.len() == 0 {
        seq![x]
    } else if key(s.last()) <= key(x) {
        s.push(x)
    } else {
        inserted(s.drop_last(), x, key).push(s.last())
    }
}

/// The items of `s` in the order of their keys; items with equal keys keep the
/// order they had in `s`.
pub open spec fn stable_sorted<T>(s: Seq<T>, key: spec_fn(T) -> int) -> Seq<T>
    decreases s.len(),
{
    if s.len() == 0 {
        s
    } else {
        inserted(stable_sorted(s.drop_last(), key), s.last(), key)
    }
}

/// No item has a larger key than one behind it.
pub open spec fn ordered<T>(s: Seq<T>, key: spec_fn(T) -> int) -> bool {
    forall|i: int, j: int| 0 <= i < j < s.len() ==> key(s[i]) <= key(s[j])
}

/// Each item has a smaller key than the one behind it.
pub open spec fn strictly_ordered<T>(s: Seq<T>, key: spec_fn(T) -> int) -> bool {
    forall|i: int, j: int| 0 <= i < j < s.len() ==> key(s[i]) < key(s[j])
}

/// No two items share a key.
pub open spec fn distinct_keys<T>(s: Seq<T>, key: spec_fn(T) -> int) -> bool {
    forall|i: int, j: int| 0 <= i < j < s.len() ==> key(s[i]) != key(s[j])
}

/// Where `x` goes in an ordered list: `at` is behind every item whose key is
/// not larger and before every item whose key is larger.
pub proof fn lemma_inserted_at<T>(s: Seq<T>, x: T, key: spec_fn(T) -> int, at: int)
    requires
        0 <= at <= s.len(),
        forall|i: int| 0 <= i < at ==> key(s[i]) <= key(x),
        forall|i: int| at <= i < s.len() ==> key(s[i]) > key(x),
    ensures
        inserted(s, x, key) == s.take(at).push(x) + s.skip(at),
    decreases s.len(),
{
    if s.len() == 0 {
        assert(inserted(s, x, key) =~= s.take(at).push(x) + s.skip(at));
    } else if at == s.len() {
        assert(key(s.last()) <= key(x));
        assert(s.push(x) =~= s.take(at).push(x) + s.skip(at));
    } else {
        assert(key(s.last()) > key(x));
        lemma_inserted_at(s.drop_last(), x, key, at);
        assert(s.drop_last().take(at) =~= s.take(at));
        assert((s.drop_last().take(at).push(x) + s.drop_last().skip(at)).push(s.last()) =~= s.take(
            at,
        ).push(x) + s.skip(at));
    }
}

/// Inserting keeps every item and adds the new one.
pub proof fn lemma_inserted_holds<T>(s: Seq<T>, x: T, key: spec_fn(T) -> int)
    ensures
        inserted(s, x, key).len() == s.len() + 1,
        inserted(s, x, key).to_multiset() == s.to_multiset().insert(x),
    decreases s.len(),
{
    broadcast use vstd::seq_lib::group_to_multiset_ensures;

    if s.len() == 0 {
    } else if key(s.last()) <= key(x) {
    } else {
        let rest = s.drop_last();
        lemma_inserted_holds(rest, x, key);
        assert(rest.push(s.last()) =~= s);
        assert(inserted(s, x, key).to_multiset() =~= s.to_multiset().insert(x));
    }
}

/// Inserting into an ordered list gives an ordered list.
pub proof fn lemma_inserted_ordered<T>(s: Seq<T>, x: T, key: spec_fn(T) -> int)
    requires
        ordered(s, key),
    ensures
        ordered(inserted(s, x, key), key),
        forall|k: int|
            0 <= k < inserted(s, x, key).len() ==> (#[trigger] inserted(s, x, key)[k] == x || exists|
                i: int,
            |
                0 <= i < s.len() && s[i] == inserted(s, x, key)[k]),
    decreases s.len(),
{
    let r = inserted(s, x, key);
    if s.len() == 0 {
    } else if key(s.last()) <= key(x) {
        assert forall|k: int| 0 <= k < r.len() implies (#[trigger] r[k] == x || exists|i: int|
            0 <= i < s.len() && s[i] == r[k]) by {
            if k < s.len() {
                assert(s[k] == r[k]);
            }
        }
    } else {
        let rest = s.drop_last();
        assert(ordered(rest, key)) by {
            assert forall|i: int, j: int| 0 <= i < j < rest.len() implies key(rest[i]) <= key(
                rest[j],
            ) by {
                assert(rest[i] == s[i] && rest[j] == s[j]);
            }
        }
        lemma_inserted_ordered(rest, x, key);
        lemma_inserted_holds(rest, x, key);
        let head = inserted(rest, x, key);
        assert forall|k: int| 0 <= k < r.len() implies (#[trigger] r[k] == x || exists|i: int|
            0 <= i < s.len() && s[i] == r[k]) by {
            if k < head.len() {
                assert(r[k] == head[k]);
                if head[k] != x {
                    let i = choose|i: int| 0 <= i < rest.len() && rest[i] == head[k];
                    assert(s[i] == r[k]);
                }
            } else {
                assert(s[s.len() - 1] == r[k]);
            }
        }
        assert forall|i: int, j: int| 0 <= i < j < r.len() implies key(r[i]) <= key(r[j]) by {
            if j < head.len() {
                assert(r[i] == head[i] && r[j] == head[j]);
            } else {
                assert(r[i] == head[i]);
                if head[i] != x {
                    let k = choose|k: int| 0 <= k < rest.len() && rest[k] == head[i];
                    assert(s[k] == head[i]);
                }
            }
        }
    }
}

/// Sorting keeps every item and puts the items in the order of their keys.
pub proof fn lemma_stable_sorted<T>(s: Seq<T>, key: spec_fn(T) -> int)
    ensures
        stable_sorted(s, key).len() == s.len(),
        stable_sorted(s, key).to_multiset() == s.to_multiset(),
        ordered(stable_sorted(s, key), key),
    decreases s.len(),
{
    broadcast use vstd::seq_lib::group_to_multiset_ensures;

    if s.len() > 0 {
        let rest = stable_sorted(s.drop_last(), key);
        lemma_stable_sorted(s.drop_last(), key);
        lemma_inserted_holds(rest, s.last(), key);
        lemma_inserted_ordered(rest, s.last(), key);
        assert(s.drop_last().push(s.last()) =~= s);
    }
}

/// An item of `s` has the key `v`.
pub open spec fn has_key<T>(s: Seq<T>, key: spec_fn(T) -> int, v: int) -> bool {
    exists|i: int| 0 <= i < s.len() && #[trigger] key(s[i]) == v
}

/// Every key of `r` is a key of `s`.
pub open spec fn keys_among<T>(r: Seq<T>, s: Seq<T>, key: spec_fn(T) -> int) -> bool {
    forall|k: int| 0 <= k < r.len() ==> has_key(s, key, key(#[trigger] r[k]))
}

/// Inserting an item whose key no item has keeps the keys different.
pub proof fn lemma_inserted_distinct<T>(s: Seq<T>, x: T, key: spec_fn(T) -> int)
    requires
        distinct_keys(s, key),
        forall|i: int| 0 <= i < s.len() ==> key(s[i]) != key(x),
    ensures
        distinct_keys(inserted(s, x, key), key),
        keys_among(inserted(s, x, key), s.push(x), key),
    decreases s.len(),
{
    let r = inserted(s, x, key);
    let all = s.push(x);
    if s.len() == 0 {
        assert forall|k: int| 0 <= k < r.len() implies has_key(all, key, key(#[trigger] r[k])) by {
            assert(key(all[0]) == key(r[k]));
        }
    } else if key(s.last()) <= key(x) {
        assert forall|k: int| 0 <= k < r.len() implies has_key(all, key, key(#[trigger] r[k])) by {
            assert(key(all[k]) == key(r[k]));
        }
    } else {
        let rest = s.drop_last();
        assert(distinct_keys(rest, key)) by {
            assert forall|i: int, j: int| 0 <= i < j < rest.len() implies key(rest[i]) != key(
                rest[j],
            ) by {
                assert(key(rest[i]) == key(s[i]) && key(rest[j]) == key(s[j]));
            }
        }
        assert forall|i: int| 0 <= i < rest.len() implies key(rest[i]) != key(x) by {
            assert(key(rest[i]) == key(s[i]));
        }
        lemma_inserted_distinct(rest, x, key);
        lemma_inserted_holds(rest, x, key);
        let head = inserted(rest, x, key);
        assert forall|k: int| 0 <= k < r.len() implies has_key(all, key, key(#[trigger] r[k])) by {
            if k < head.len() {
                assert(r[k] == head[k]);
                assert(has_key(rest.push(x), key, key(head[k])));
                let i = choose|i: int|
                    0 <= i < rest.push(x).len() && #[trigger] key(rest.push(x)[i]) == key(head[k]);
                if i < rest.len() {
                    assert(key(all[i]) == key(r[k]));
                } else {
                    assert(key(all[s.len() as int]) == key(r[k]));
                }
            } else {
                assert(key(all[s.len() - 1]) == key(r[k]));
            }
        }
        assert forall|i: int, j: int| 0 <= i < j < r.len() implies key(r[i]) != key(r[j]) by {
            if j < head.len() {
                assert(r[i] == head[i] && r[j] == head[j]);
            } else {
                assert(r[i] == head[i]);
                assert(has_key(rest.push(x), key, key(head[i])));
                let m = choose|m: int|
                    0 <= m < rest.push(x).len() && #[trigger] key(rest.push(x)[m]) == key(head[i]);
                if m < rest.len() {
                    assert(key(rest.push(x)[m]) == key(s[m]));
                }
            }
        }
    }
}

/// Sorting items whose keys all differ gives items whose keys all differ, so
/// that each has a smaller key than the one behind it.
pub proof fn lemma_sorted_strict<T>(s: Seq<T>, key: spec_fn(T) -> int)
    requires
        distinct_keys(s, key),
    ensures
        distinct_keys(stable_sorted(s, key), key),
        keys_among(stable_sorted(s, key), s, key),
        strictly_ordered(stable_sorted(s, key), key),
    decreases s.len(),
{
    if s.len() > 0 {
        let rest = s.drop_last();
        assert(distinct_keys(rest, key)) by {
            assert forall|i: int, j: int| 0 <= i < j < rest.len() implies key(rest[i]) != key(
                rest[j],
            ) by {
                assert(key(rest[i]) == key(s[i]) && key(rest[j]) == key(s[j]));
            }
        }
        lemma_sorted_strict(rest, key);
        let sorted = stable_sorted(rest, key);
        assert forall|i: int| 0 <= i < sorted.len() implies key(sorted[i]) != key(s.last()) by {
            assert(has_key(rest, key, key(sorted[i])));
            let m = choose|m: int| 0 <= m < rest.len() && #[trigger] key(rest[m]) == key(sorted[i]);
            assert(key(rest[m]) == key(s[m]));
        }
        lemma_inserted_distinct(sorted, s.last(), key);
        let r = stable_sorted(s, key);
        assert forall|k: int| 0 <= k < r.len() implies has_key(s, key, key(#[trigger] r[k])) by {
            assert(has_key(sorted.push(s.last()), key, key(r[k])));
            let m = choose|m: int|
                0 <= m < sorted.push(s.last()).len() && #[trigger] key(sorted.push(s.last())[m])
                    == key(r[k]);
            if m < sorted.len() {
                assert(has_key(rest, key, key(sorted[m])));
                let i = choose|i: int| 0 <= i < rest.len() && #[trigger] key(rest[i]) == key(
                    sorted[m],
                );
                assert(key(s[i]) == key(r[k]));
            } else {
                assert(key(s[s.len() - 1]) == key(r[k]));
            }
        }
    }
    lemma_stable_sorted(s, key);
}

} // verus!
