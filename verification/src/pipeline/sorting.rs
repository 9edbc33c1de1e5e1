//! Stable sorting by an integer key: what it means, and the step that an insertion sort
//! takes.

use vstd::prelude::*;

verus! {

/// Whether the keys of the elements never decrease.
pub open spec fn keys_ascending<T>(s: Seq<T>, key: spec_fn(T) -> int) -> bool {
    forall|i: int, j: int| 0 <= i < j < s.len() ==> key(s[i]) <= key(s[j])
}

/// The elements whose key is `k`.
pub open spec fn with_key<T>(key: spec_fn(T) -> int, k: int) -> spec_fn(T) -> bool {
    |x: T| key(x) == k
}

/// Whether `r` is `s` sorted by key, stably: the keys ascend, and the elements of each key
/// keep their order in `s`.
pub open spec fn stably_sorted<T>(r: Seq<T>, s: Seq<T>, key: spec_fn(T) -> int) -> bool {
    &&& keys_ascending(r, key)
    &&& forall|k: int| #[trigger] r.filter(with_key(key, k)) == s.filter(with_key(key, k))
}

/// Nothing passes a filter that none of the elements pass.
pub proof fn lemma_filter_none<T>(b: Seq<T>, pred: spec_fn(T) -> bool)
    requires
        forall|k: int| 0 <= k < b.len() ==> !pred(#[trigger] b[k]),
    ensures
        b.filter(pred) =~= Seq::<T>::empty(),
    decreases b.len(),
{
    reveal(Seq::filter);
    if b.len() > 0 {
        let t = b.drop_last();
        assert forall|k: int| 0 <= k < t.len() implies !pred(#[trigger] t[k]) by {
            assert(t[k] == b[k]);
        }
        lemma_filter_none(t, pred);
        assert(!pred(b[b.len() - 1]));
    }
}

/// Inserting an element after the elements of smaller or equal key and before those of
/// larger key adds it to the end of the elements of its key, and changes no other key's
/// elements.
pub proof fn lemma_insert_filter<T>(s: Seq<T>, j: int, x: T, key: spec_fn(T) -> int, k: int)
    requires
        0 <= j <= s.len(),
        forall|i: int| 0 <= i < j ==> key(#[trigger] s[i]) <= key(x),
        forall|i: int| j <= i < s.len() ==> key(#[trigger] s[i]) > key(x),
    ensures
        s.insert(j, x).filter(with_key(key, k)) == if key(x) == k {
            s.filter(with_key(key, k)).push(x)
        } else {
            s.filter(with_key(key, k))
        },
{
    let a = s.take(j);
    let b = s.skip(j);
    let pred = with_key(key, k);
    assert(s =~= a + b);
    assert(s.insert(j, x) =~= a.push(x) + b);
    Seq::filter_distributes_over_add(a, b, pred);
    Seq::filter_distributes_over_add(a.push(x), b, pred);
    a.lemma_filter_push(x, pred);
    if key(x) == k {
        assert forall|i: int| 0 <= i < b.len() implies !pred(#[trigger] b[i]) by {
            assert(b[i] == s[j + i]);
        }
        lemma_filter_none(b, pred);
        assert(a.filter(pred) + b.filter(pred) =~= a.filter(pred));
        assert(a.filter(pred).push(x) + b.filter(pred) =~= a.filter(pred).push(x));
    }
}

/// One step of an insertion sort: the sorted prefix with the next element inserted after
/// the elements of smaller or equal key is the longer prefix, sorted.
pub proof fn lemma_insertion_step<T>(out: Seq<T>, s: Seq<T>, i: int, j: int, key: spec_fn(T) -> int)
    requires
        0 <= i < s.len(),
        stably_sorted(out, s.take(i), key),
        0 <= j <= out.len(),
        forall|m: int| 0 <= m < j ==> key(#[trigger] out[m]) <= key(s[i]),
        j < out.len() ==> key(out[j]) > key(s[i]),
    ensures
        stably_sorted(out.insert(j, s[i]), s.take(i + 1), key),
{
    let x = s[i];
    let n = out.insert(j, x);
    assert forall|m: int| j <= m < out.len() implies key(#[trigger] out[m]) > key(x) by {
        assert(key(out[j]) <= key(out[m]));
    }
    assert(s.take(i + 1) =~= s.take(i).push(x));
    assert forall|k: int| #[trigger] n.filter(with_key(key, k)) == s.take(i + 1).filter(with_key(key, k)) by {
        lemma_insert_filter(out, j, x, key, k);
        s.take(i).lemma_filter_push(x, with_key(key, k));
    }
    assert forall|a: int, b: int| 0 <= a < b < n.len() implies key(n[a]) <= key(n[b]) by {
        if b < j {
            assert(n[a] == out[a] && n[b] == out[b]);
        } else if b == j {
            assert(n[a] == out[a]);
        } else if a < j {
            assert(n[a] == out[a] && n[b] == out[b - 1]);
        } else if a == j {
            assert(n[b] == out[b - 1]);
        } else {
            assert(n[a] == out[a - 1] && n[b] == out[b - 1]);
        }
    }
}

} // verus!
