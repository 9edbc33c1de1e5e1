//! A map from integer keys to values, kept as a vector sorted by key, so that it is
//! walked in key order.

use vstd::prelude::*;

verus! {

/// Whether the keys strictly increase.
pub open spec fn keys_sorted<V>(s: Seq<(i64, V)>) -> bool {
    forall|i: int, j: int| 0 <= i < j < s.len() ==> s[i].0 < s[j].0
}

/// The map that the entries hold.
pub open spec fn key_map<V>(s: Seq<(i64, V)>) -> Map<i64, V>
    decreases s.len(),
{
    if s.len() == 0 {
        Map::empty()
    } else {
        key_map(s.drop_last()).insert(s.last().0, s.last().1)
    }
}

/// In sorted entries, the map holds exactly the entries' keys with their values.
pub proof fn lemma_key_map<V>(s: Seq<(i64, V)>)
    requires
        keys_sorted(s),
    ensures
        forall|i: int| 0 <= i < s.len() ==> #[trigger] key_map(s).contains_key(s[i].0) && key_map(s)[s[i].0] == s[i].1,
        forall|k: i64| #[trigger] key_map(s).contains_key(k) ==> exists|i: int| 0 <= i < s.len() && s[i].0 == k,
    decreases s.len(),
{
    if s.len() > 0 {
        let t = s.drop_last();
        assert(t.len() == s.len() - 1);
        assert(keys_sorted(t));
        lemma_key_map(t);
        assert forall|i: int| 0 <= i < s.len() implies #[trigger] key_map(s).contains_key(s[i].0) && key_map(s)[s[i].0] == s[i].1 by {
            if i < s.len() - 1 {
                assert(t[i] == s[i]);
                assert(s[i].0 < s.last().0);
                assert(0 <= i < t.len());
                assert(key_map(t).contains_key(t[i].0));
                assert(key_map(t)[t[i].0] == t[i].1);
            }
        }
        assert forall|k: i64| #[trigger] key_map(s).contains_key(k) implies exists|i: int| 0 <= i < s.len() && s[i].0 == k by {
            if k != s.last().0 {
                assert(key_map(t).contains_key(k));
                let i = choose|i: int| 0 <= i < t.len() && t[i].0 == k;
                assert(s[i].0 == k);
            } else {
                assert(s[s.len() - 1].0 == k);
            }
        }
    }
}

/// Replacing the value of an entry keeps the keys sorted and changes only that key.
pub proof fn lemma_key_map_set<V>(s: Seq<(i64, V)>, i: int, v: V)
    requires
        keys_sorted(s),
        0 <= i < s.len(),
    ensures
        keys_sorted(s.update(i, (s[i].0, v))),
        key_map(s.update(i, (s[i].0, v))) == key_map(s).insert(s[i].0, v),
{
    let n = s.update(i, (s[i].0, v));
    assert(keys_sorted(n));
    lemma_key_map(s);
    lemma_key_map(n);
    assert(key_map(n) =~= key_map(s).insert(s[i].0, v)) by {
        assert forall|k: i64| #[trigger] key_map(n).contains_key(k) implies key_map(s).insert(s[i].0, v).contains_key(k) by {
            let x = choose|x: int| 0 <= x < n.len() && n[x].0 == k;
            if x != i {
                assert(n[x] == s[x]);
                assert(key_map(s).contains_key(s[x].0));
            }
        }
        assert forall|k: i64| #[trigger] key_map(s).insert(s[i].0, v).contains_key(k) implies key_map(n).contains_key(k)
            && key_map(n)[k] == key_map(s).insert(s[i].0, v)[k] by {
            if k == s[i].0 {
                assert(n[i].0 == k);
                assert(key_map(n).contains_key(n[i].0));
            } else {
                let x = choose|x: int| 0 <= x < s.len() && s[x].0 == k;
                assert(n[x] == s[x]);
                assert(key_map(n).contains_key(n[x].0));
                assert(key_map(s).contains_key(s[x].0));
            }
        }
    }
}

/// Two sorted entry sequences with the same map are equal.
pub proof fn lemma_sorted_unique<V>(s: Seq<(i64, V)>, t: Seq<(i64, V)>)
    requires
        keys_sorted(s),
        keys_sorted(t),
        key_map(s) == key_map(t),
    ensures
        s == t,
    decreases s.len() + t.len(),
{
    lemma_key_map(s);
    lemma_key_map(t);
    if s.len() == 0 || t.len() == 0 {
        if s.len() > 0 {
            assert(key_map(s).contains_key(s[0].0));
            assert(key_map(t).contains_key(s[0].0));
        }
        if t.len() > 0 {
            assert(key_map(t).contains_key(t[0].0));
            assert(key_map(s).contains_key(t[0].0));
        }
        assert(s =~= t);
    } else {
        let a = s.last();
        let b = t.last();
        assert(key_map(s).contains_key(s[s.len() - 1].0));
        assert(key_map(t).contains_key(a.0));
        let j = choose|j: int| 0 <= j < t.len() && t[j].0 == a.0;
        assert(key_map(t).contains_key(t[t.len() - 1].0));
        assert(key_map(s).contains_key(b.0));
        let i = choose|i: int| 0 <= i < s.len() && s[i].0 == b.0;
        assert(a.0 == b.0) by {
            if a.0 < b.0 {
                assert(s[i].0 <= a.0);
            } else if a.0 > b.0 {
                assert(t[j].0 <= b.0);
            }
        }
        assert(a.1 == b.1);
        let s2 = s.drop_last();
        let t2 = t.drop_last();
        assert(keys_sorted(s2));
        assert(keys_sorted(t2));
        lemma_key_map(s2);
        lemma_key_map(t2);
        assert(key_map(s2) =~= key_map(t2)) by {
            assert forall|k: i64| key_map(s2).contains_key(k) implies key_map(t2).contains_key(k) && key_map(s2)[k] == key_map(t2)[k] by {
                let x = choose|x: int| 0 <= x < s2.len() && s2[x].0 == k;
                assert(s[x] == s2[x]);
                assert(key_map(s).contains_key(s[x].0));
                assert(key_map(t).contains_key(k));
                let y = choose|y: int| 0 <= y < t.len() && t[y].0 == k;
                assert(k < a.0);
                assert(y < t.len() - 1);
                assert(t2[y] == t[y]);
                assert(key_map(t2).contains_key(t2[y].0));
                assert(key_map(t).contains_key(t[y].0));
                assert(key_map(s2).contains_key(s2[x].0));
            }
            assert forall|k: i64| key_map(t2).contains_key(k) implies key_map(s2).contains_key(k) by {
                let y = choose|y: int| 0 <= y < t2.len() && t2[y].0 == k;
                assert(t[y] == t2[y]);
                assert(key_map(t).contains_key(t[y].0));
                assert(key_map(s).contains_key(k));
                let x = choose|x: int| 0 <= x < s.len() && s[x].0 == k;
                assert(k < b.0);
                assert(x < s.len() - 1);
                assert(s2[x] == s[x]);
                assert(key_map(s2).contains_key(s2[x].0));
            }
        }
        lemma_sorted_unique(s2, t2);
        assert(s =~= s2.push(a));
        assert(t =~= t2.push(b));
    }
}

/// Index of the first entry whose key is at least `key`.
pub fn lower_bound<V>(entries: &Vec<(i64, V)>, key: i64) -> (j: usize)
    requires
        keys_sorted(entries@),
    ensures
        j <= entries@.len(),
        forall|i: int| 0 <= i < j ==> entries@[i].0 < key,
        forall|i: int| j <= i < entries@.len() ==> entries@[i].0 >= key,
{
    let mut j: usize = 0;
    while j < entries.len() && entries[j].0 < key
        invariant
            j <= entries@.len(),
            keys_sorted(entries@),
            forall|i: int| 0 <= i < j ==> entries@[i].0 < key,
        decreases entries@.len() - j,
    {
        j += 1;
    }
    proof {
        assert forall|i: int| j <= i < entries@.len() implies entries@[i].0 >= key by {
            if i > j {
                assert(entries@[j as int].0 < entries@[i].0);
            }
        }
    }
    j
}

/// Insert or replace the value of `key`, keeping the keys sorted.
pub fn sorted_insert<V>(entries: &mut Vec<(i64, V)>, key: i64, value: V)
    requires
        keys_sorted(old(entries)@),
    ensures
        keys_sorted(final(entries)@),
        key_map(final(entries)@) == key_map(old(entries)@).insert(key, value),
{
    let ghost s = entries@;
    proof {
        lemma_key_map(s);
    }
    let j = lower_bound(entries, key);
    if j < entries.len() && entries[j].0 == key {
        entries.set(j, (key, value));
        proof {
            lemma_key_map_set(s, j as int, value);
        }
    } else {
        entries.insert(j, (key, value));
        proof {
            let n = entries@;
            assert forall|a: int, b: int| 0 <= a < b < n.len() implies n[a].0 < n[b].0 by {
                if b < j {
                } else if a > j {
                    assert(n[a] == s[a - 1] && n[b] == s[b - 1]);
                } else if a == j {
                    assert(n[b] == s[b - 1]);
                    assert(s[b - 1].0 >= key);
                } else if b == j {
                } else {
                    assert(n[b] == s[b - 1]);
                    assert(n[a] == s[a]);
                }
            }
            lemma_key_map(n);
            assert(key_map(n) =~= key_map(s).insert(key, value)) by {
                assert forall|k: i64| #[trigger] key_map(n).contains_key(k) implies key_map(s).insert(key, value).contains_key(k) by {
                    let x = choose|x: int| 0 <= x < n.len() && n[x].0 == k;
                    if x < j {
                        assert(n[x] == s[x]);
                        assert(key_map(s).contains_key(s[x].0));
                    } else if x > j {
                        assert(n[x] == s[x - 1]);
                        assert(key_map(s).contains_key(s[x - 1].0));
                    }
                }
                assert forall|k: i64| #[trigger] key_map(s).insert(key, value).contains_key(k) implies key_map(n).contains_key(k)
                    && key_map(n)[k] == key_map(s).insert(key, value)[k] by {
                    if k == key {
                        assert(n[j as int].0 == k);
                        assert(key_map(n).contains_key(n[j as int].0));
                    } else {
                        let x = choose|x: int| 0 <= x < s.len() && s[x].0 == k;
                        assert(key_map(s).contains_key(s[x].0));
                        if x < j {
                            assert(n[x] == s[x]);
                            assert(key_map(n).contains_key(n[x].0));
                        } else {
                            assert(n[x + 1] == s[x]);
                            assert(key_map(n).contains_key(n[x + 1].0));
                        }
                    }
                }
            }
        }
    }
}

/// The index of `key`, if present.
pub fn find_key<V>(entries: &Vec<(i64, V)>, key: i64) -> (r: Option<usize>)
    requires
        keys_sorted(entries@),
    ensures
        match r {
            Some(i) => i < entries@.len() && entries@[i as int].0 == key && key_map(entries@).contains_key(key),
            None => !key_map(entries@).contains_key(key),
        },
{
    proof {
        lemma_key_map(entries@);
    }
    let j = lower_bound(entries, key);
    if j < entries.len() && entries[j].0 == key {
        Some(j)
    } else {
        proof {
            if key_map(entries@).contains_key(key) {
                let x = choose|x: int| 0 <= x < entries@.len() && entries@[x].0 == key;
                if x < j {
                } else {
                    assert(entries@[j as int].0 <= entries@[x].0);
                }
            }
        }
        None
    }
}

/// Dropping entries keeps the remaining keys sorted.
pub proof fn lemma_subsequence_sorted<V>(s: Seq<(i64, V)>, i: int)
    requires
        keys_sorted(s),
        0 <= i < s.len(),
    ensures
        keys_sorted(s.remove(i)),
{
    let n = s.remove(i);
    assert forall|a: int, b: int| 0 <= a < b < n.len() implies n[a].0 < n[b].0 by {
        if b < i {
        } else if a >= i {
            assert(n[a] == s[a + 1] && n[b] == s[b + 1]);
        } else {
            assert(n[a] == s[a] && n[b] == s[b + 1]);
        }
    }
}

} // verus!
