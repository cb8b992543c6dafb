//! Stable insertion order by an integer key: the specification that the
//! library's sorting loops are proved against.

use vstd::prelude::*;

verus! {

/// Inserts `x` into `s` just after the last element whose key is not greater
/// than the key of `x`, scanning from the back (so equal keys keep their order).
pub open spec fn insert_by_key<A>(s: Seq<A>, x: A, key: spec_fn(A) -> int) -> Seq<A>
    decreases s.len(),
{
    if s.len() == 0 {
        seq![x]
    } else if key(s.last()) <= key(x) {
        s.push(x)
    } else {
        insert_by_key(s.drop_last(), x, key).push(s.last())
    }
}

/// The stable sort of `s` by `key`.
pub open spec fn sort_by_key<A>(s: Seq<A>, key: spec_fn(A) -> int) -> Seq<A>
    decreases s.len(),
{
    if s.len() == 0 {
        s
    } else {
        insert_by_key(sort_by_key(s.drop_last(), key), s.last(), key)
    }
}

/// A sequence is ordered by `key` when keys never decrease.
pub open spec fn sorted_by_key<A>(s: Seq<A>, key: spec_fn(A) -> int) -> bool {
    forall|i: int, j: int| 0 <= i <= j < s.len() ==> key(s[i]) <= key(s[j])
}

/// Inserting at the position found by scanning back over larger keys is
/// exactly `insert_by_key`.
pub proof fn lemma_insert_by_key_at<A>(s: Seq<A>, x: A, key: spec_fn(A) -> int, j: int)
    requires
        0 <= j <= s.len(),
        forall|k: int| j <= k < s.len() ==> key(#[trigger] s[k]) > key(x),
        j > 0 ==> key(s[j - 1]) <= key(x),
    ensures
        insert_by_key(s, x, key) == s.insert(j, x),
    decreases s.len(),
{
    if s.len() == 0 {
        assert(s.insert(j, x) =~= seq![x]);
    } else if j == s.len() {
        assert(s.insert(j, x) =~= s.push(x));
    } else {
        assert(key(s[s.len() - 1]) > key(x));
        lemma_insert_by_key_at(s.drop_last(), x, key, j);
        assert(s.drop_last().insert(j, x).push(s.last()) =~= s.insert(j, x));
    }
}

/// `insert_by_key` keeps the elements and adds `x` once.
pub proof fn lemma_insert_by_key_multiset<A>(s: Seq<A>, x: A, key: spec_fn(A) -> int)
    ensures
        insert_by_key(s, x, key).to_multiset() == s.to_multiset().insert(x),
        insert_by_key(s, x, key).len() == s.len() + 1,
    decreases s.len(),
{
    broadcast use vstd::seq_lib::group_to_multiset_ensures;
    if s.len() == 0 {
        assert(seq![x] =~= Seq::<A>::empty().push(x));
    } else if key(s.last()) <= key(x) {
    } else {
        lemma_insert_by_key_multiset(s.drop_last(), x, key);
        assert(s.drop_last().push(s.last()) =~= s);
        assert(s.to_multiset() == s.drop_last().to_multiset().insert(s.last()));
        assert(s.to_multiset().insert(x) =~= s.drop_last().to_multiset().insert(x).insert(s.last()));
    }
}

/// Inserting into an ordered sequence keeps it ordered.
pub proof fn lemma_insert_by_key_sorted<A>(s: Seq<A>, x: A, key: spec_fn(A) -> int)
    requires
        sorted_by_key(s, key),
    ensures
        sorted_by_key(insert_by_key(s, x, key), key),
    decreases s.len(),
{
    if s.len() == 0 {
    } else if key(s.last()) <= key(x) {
        let r = s.push(x);
        assert forall|i: int, j: int| 0 <= i <= j < r.len() implies key(r[i]) <= key(r[j]) by {
            if j == s.len() {
                if i < s.len() {
                    assert(key(s[i]) <= key(s[s.len() - 1]));
                }
            }
        }
    } else {
        let t = s.drop_last();
        assert(sorted_by_key(t, key));
        lemma_insert_by_key_sorted(t, x, key);
        lemma_insert_by_key_multiset(t, x, key);
        let u = insert_by_key(t, x, key);
        let r = u.push(s.last());
        assert forall|k: int| 0 <= k < u.len() implies key(#[trigger] u[k]) <= key(s.last()) by {
            lemma_insert_by_key_elements(t, x, key, k);
            if u[k] != x {
                let m = choose|m: int| 0 <= m < t.len() && t[m] == u[k];
                assert(key(s[m]) <= key(s[s.len() - 1]));
            }
        }
        assert forall|i: int, j: int| 0 <= i <= j < r.len() implies key(r[i]) <= key(r[j]) by {
            if j == u.len() {
                if i < u.len() {
                    assert(key(u[i]) <= key(s.last()));
                }
            }
        }
    }
}

/// Each element of `insert_by_key(s, x, key)` is `x` or an element of `s`.
pub proof fn lemma_insert_by_key_elements<A>(s: Seq<A>, x: A, key: spec_fn(A) -> int, k: int)
    requires
        0 <= k < s.len() + 1,
    ensures
        insert_by_key(s, x, key).len() == s.len() + 1,
        insert_by_key(s, x, key)[k] == x || exists|m: int|
            0 <= m < s.len() && s[m] == #[trigger] insert_by_key(s, x, key)[k],
    decreases s.len(),
{
    if s.len() == 0 {
    } else if key(s.last()) <= key(x) {
        if k < s.len() {
            assert(s[k] == insert_by_key(s, x, key)[k]);
        }
    } else {
        let t = s.drop_last();
        if k < s.len() {
            lemma_insert_by_key_elements(t, x, key, k);
            if insert_by_key(s, x, key)[k] != x {
                let m2 = choose|m: int| 0 <= m < t.len() && t[m] == #[trigger] insert_by_key(t, x, key)[k];
                assert(s[m2] == insert_by_key(s, x, key)[k]);
            }
        } else {
            lemma_insert_by_key_multiset(t, x, key);
            assert(s[s.len() - 1] == insert_by_key(s, x, key)[k]);
        }
    }
}

/// The stable sort is an ordered permutation of its input.
pub proof fn lemma_sort_by_key_props<A>(s: Seq<A>, key: spec_fn(A) -> int)
    ensures
        sorted_by_key(sort_by_key(s, key), key),
        sort_by_key(s, key).to_multiset() == s.to_multiset(),
        sort_by_key(s, key).len() == s.len(),
    decreases s.len(),
{
    broadcast use vstd::seq_lib::group_to_multiset_ensures;
    if s.len() == 0 {
    } else {
        lemma_sort_by_key_props(s.drop_last(), key);
        lemma_insert_by_key_sorted(sort_by_key(s.drop_last(), key), s.last(), key);
        lemma_insert_by_key_multiset(sort_by_key(s.drop_last(), key), s.last(), key);
        assert(s.drop_last().push(s.last()) =~= s);
    }
}

} // verus!
