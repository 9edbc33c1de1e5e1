//! Volume profiles: volume traded at each price bucket, kept sorted by bucket.

use vstd::prelude::*;

verus! {

/// Whether the buckets of the entries strictly increase.
pub open spec fn buckets_sorted(s: Seq<(i64, u64)>) -> bool {
    forall|i: int, j: int| 0 <= i < j < s.len() ==> s[i].0 < s[j].0
}

/// The volume of each bucket in the entries.
pub open spec fn volume_map(s: Seq<(i64, u64)>) -> Map<i64, u64>
    decreases s.len(),
{
    if s.len() == 0 {
        Map::empty()
    } else {
        volume_map(s.drop_last()).insert(s.last().0, s.last().1)
    }
}

/// Sum of the volumes of the entries.
pub open spec fn total_volume(s: Seq<(i64, u64)>) -> int
    decreases s.len(),
{
    if s.len() == 0 {
        0
    } else {
        total_volume(s.drop_last()) + s.last().1
    }
}

/// In sorted entries, the map holds exactly the entries' buckets with their volumes.
pub proof fn lemma_volume_map(s: Seq<(i64, u64)>)
    requires
        buckets_sorted(s),
    ensures
        forall|i: int| 0 <= i < s.len() ==> #[trigger] volume_map(s).contains_key(s[i].0) && volume_map(s)[s[i].0] == s[i].1,
        forall|k: i64| #[trigger] volume_map(s).contains_key(k) ==> exists|i: int| 0 <= i < s.len() && s[i].0 == k,
    decreases s.len(),
{
    if s.len() > 0 {
        let t = s.drop_last();
        assert(t.len() == s.len() - 1);
        assert(buckets_sorted(t));
        lemma_volume_map(t);
        assert forall|i: int| 0 <= i < s.len() implies #[trigger] volume_map(s).contains_key(s[i].0) && volume_map(s)[s[i].0] == s[i].1 by {
            if i < s.len() - 1 {
                assert(t[i] == s[i]);
                assert(s[i].0 < s.last().0);
                assert(0 <= i < t.len());
                assert(volume_map(t).contains_key(t[i].0));
                assert(volume_map(t)[t[i].0] == t[i].1);
            }
        }
        assert forall|k: i64| #[trigger] volume_map(s).contains_key(k) implies exists|i: int| 0 <= i < s.len() && s[i].0 == k by {
            if k != s.last().0 {
                assert(volume_map(t).contains_key(k));
                let i = choose|i: int| 0 <= i < t.len() && t[i].0 == k;
                assert(s[i].0 == k);
            } else {
                assert(s[s.len() - 1].0 == k);
            }
        }
    }
}

/// The sorted entries of a profile map, where the map has such entries.
pub open spec fn sorted_entries(m: Map<i64, u64>) -> Seq<(i64, u64)> {
    choose|s: Seq<(i64, u64)>| buckets_sorted(s) && volume_map(s) == m
}

/// Sorted entries are the sorted entries of their map.
pub proof fn lemma_sorted_entries(s: Seq<(i64, u64)>)
    requires
        buckets_sorted(s),
    ensures
        sorted_entries(volume_map(s)) == s,
{
    assert(exists|x: Seq<(i64, u64)>| buckets_sorted(x) && volume_map(x) == volume_map(s)) by {
        assert(buckets_sorted(s) && volume_map(s) == volume_map(s));
    }
    lemma_sorted_entries_unique(sorted_entries(volume_map(s)), s);
}

/// Two sorted entry sequences with the same map are equal.
pub proof fn lemma_sorted_entries_unique(s: Seq<(i64, u64)>, t: Seq<(i64, u64)>)
    requires
        buckets_sorted(s),
        buckets_sorted(t),
        volume_map(s) == volume_map(t),
    ensures
        s == t,
    decreases s.len() + t.len(),
{
    lemma_volume_map(s);
    lemma_volume_map(t);
    if s.len() == 0 || t.len() == 0 {
        if s.len() > 0 {
            assert(volume_map(s).contains_key(s[0].0));
            assert(volume_map(t).contains_key(s[0].0));
        }
        if t.len() > 0 {
            assert(volume_map(t).contains_key(t[0].0));
            assert(volume_map(s).contains_key(t[0].0));
        }
        assert(s =~= t);
    } else {
        // The largest bucket is the last entry of both.
        let a = s.last();
        let b = t.last();
        assert(volume_map(t).contains_key(a.0));
        let j = choose|j: int| 0 <= j < t.len() && t[j].0 == a.0;
        assert(volume_map(s).contains_key(b.0));
        let i = choose|i: int| 0 <= i < s.len() && s[i].0 == b.0;
        assert(a.0 == b.0) by {
            if a.0 < b.0 {
                assert(s[i].0 <= a.0);
            } else if a.0 > b.0 {
                assert(t[j].0 <= b.0);
            }
        }
        assert(a.1 == b.1);
        let s2 = s.drop_last();
        let t2 = t.drop_last();
        assert(buckets_sorted(s2));
        assert(buckets_sorted(t2));
        lemma_volume_map(s2);
        lemma_volume_map(t2);
        assert(volume_map(s2) =~= volume_map(t2)) by {
            assert forall|k: i64| volume_map(s2).contains_key(k) implies volume_map(t2).contains_key(k) && volume_map(s2)[k] == volume_map(t2)[k] by {
                let x = choose|x: int| 0 <= x < s2.len() && s2[x].0 == k;
                assert(s[x] == s2[x]);
                assert(volume_map(s).contains_key(k));
                assert(volume_map(t).contains_key(k));
                let y = choose|y: int| 0 <= y < t.len() && t[y].0 == k;
                assert(k < a.0);
                assert(y < t.len() - 1);
                assert(t2[y] == t[y]);
            }
            assert forall|k: i64| volume_map(t2).contains_key(k) implies volume_map(s2).contains_key(k) by {
                let y = choose|y: int| 0 <= y < t2.len() && t2[y].0 == k;
                assert(t[y] == t2[y]);
                assert(volume_map(t).contains_key(k));
                assert(volume_map(s).contains_key(k));
                let x = choose|x: int| 0 <= x < s.len() && s[x].0 == k;
                assert(k < b.0);
                assert(x < s.len() - 1);
                assert(s2[x] == s[x]);
            }
        }
        lemma_sorted_entries_unique(s2, t2);
        assert(s =~= s2.push(a));
        assert(t =~= t2.push(b));
    }
}

/// The volume already in bucket `k`.
pub open spec fn volume_in(m: Map<i64, u64>, k: i64) -> int {
    if m.contains_key(k) {
        m[k] as int
    } else {
        0
    }
}

pub proof fn lemma_total_update(s: Seq<(i64, u64)>, j: int, e: (i64, u64))
    requires
        0 <= j < s.len(),
    ensures
        total_volume(s.update(j, e)) == total_volume(s) - s[j].1 + e.1,
    decreases s.len(),
{
    if j == s.len() - 1 {
        assert(s.update(j, e).drop_last() =~= s.drop_last());
    } else {
        lemma_total_update(s.drop_last(), j, e);
        assert(s.update(j, e).drop_last() =~= s.drop_last().update(j, e));
    }
}

pub proof fn lemma_total_insert(s: Seq<(i64, u64)>, j: int, e: (i64, u64))
    requires
        0 <= j <= s.len(),
    ensures
        total_volume(s.insert(j, e)) == total_volume(s) + e.1,
    decreases s.len(),
{
    if j == s.len() {
        assert(s.insert(j, e).drop_last() =~= s);
    } else {
        lemma_total_insert(s.drop_last(), j, e);
        assert(s.insert(j, e).drop_last() =~= s.drop_last().insert(j, e));
    }
}

/// Volume at price buckets.
pub struct VolumeProfile {
    /// Buckets sorted by price with no price twice: the profile is read in price order
    /// (the value area, the LVN scan), which a hash map's walk does not give
    entries: Vec<(i64, u64)>,
    total: u64,
}

impl View for VolumeProfile {
    type V = Seq<(i64, u64)>;

    closed spec fn view(&self) -> Seq<(i64, u64)> {
        self.entries@
    }
}

impl VolumeProfile {
    /// Whether the entries are sorted by bucket.
    pub open spec fn wf(&self) -> bool {
        buckets_sorted(self@)
    }

    /// The total volume, kept alongside the entries.
    pub closed spec fn total_spec(&self) -> int {
        self.total as int
    }

    /// Whether the kept total matches the entries.
    pub closed spec fn wf_total(&self) -> bool {
        self.total == total_volume(self.entries@)
    }

    /// An empty profile.
    pub fn new() -> (p: VolumeProfile)
        ensures
            p.wf(),
            p.wf_total(),
            p@.len() == 0,
            p.total_spec() == 0,
    {
        VolumeProfile { entries: Vec::new(), total: 0 }
    }

    /// Add `volume` to bucket `bucket`.
    pub fn add(&mut self, bucket: i64, volume: u64)
        requires
            old(self).wf(),
            old(self).wf_total(),
            old(self).total_spec() + volume <= u64::MAX,
        ensures
            final(self).wf(),
            final(self).wf_total(),
            final(self).total_spec() == old(self).total_spec() + volume,
            volume_map(final(self)@) == volume_map(old(self)@).insert(
                bucket,
                (volume_in(volume_map(old(self)@), bucket) + volume) as u64,
            ),
    {
        let ghost s = self@;
        proof {
            lemma_volume_map(s);
            lemma_volume_in_bounded(s, bucket);
        }
        self.total = self.total + volume;
        let mut j: usize = 0;
        while j < self.entries.len() && self.entries[j].0 < bucket
            invariant
                self@ == s,
                j <= s.len(),
                forall|i: int| 0 <= i < j ==> s[i].0 < bucket,
            decreases s.len() - j,
        {
            j += 1;
        }
        if j < self.entries.len() && self.entries[j].0 == bucket {
            let e = self.entries[j];
            proof {
                assert(volume_map(s).contains_key(bucket));
            }
            self.entries.set(j, (bucket, e.1 + volume));
            proof {
                lemma_total_update(s, j as int, (bucket, (e.1 + volume) as u64));
                let n = self@;
                assert(buckets_sorted(n));
                lemma_volume_map(n);
                assert(volume_map(n) =~= volume_map(s).insert(bucket, (e.1 + volume) as u64)) by {
                    assert forall|k: i64| #[trigger] volume_map(n).contains_key(k) implies volume_map(s).insert(bucket, (e.1 + volume) as u64).contains_key(k) by {
                        let x = choose|x: int| 0 <= x < n.len() && n[x].0 == k;
                        if x != j {
                            assert(n[x] == s[x]);
                        }
                    }
                    assert forall|k: i64| #[trigger] volume_map(s).insert(bucket, (e.1 + volume) as u64).contains_key(k) implies volume_map(n).contains_key(k) && volume_map(n)[k] == volume_map(s).insert(bucket, (e.1 + volume) as u64)[k] by {
                        if k == bucket {
                            assert(n[j as int].0 == k);
                            assert(volume_map(n).contains_key(n[j as int].0));
                        } else {
                            let x = choose|x: int| 0 <= x < s.len() && s[x].0 == k;
                            assert(n[x] == s[x]);
                            assert(volume_map(n).contains_key(n[x].0));
                            assert(volume_map(s).contains_key(s[x].0));
                        }
                    }
                }
            }
        } else {
            proof {
                assert(!volume_map(s).contains_key(bucket)) by {
                    if volume_map(s).contains_key(bucket) {
                        let x = choose|x: int| 0 <= x < s.len() && s[x].0 == bucket;
                        if x < j {
                        } else {
                            assert(s[j as int].0 <= s[x].0);
                        }
                    }
                }
            }
            self.entries.insert(j, (bucket, volume));
            proof {
                lemma_total_insert(s, j as int, (bucket, volume));
                let n = self@;
                assert forall|a: int, b: int| 0 <= a < b < n.len() implies n[a].0 < n[b].0 by {
                    if b < j {
                    } else if a > j {
                        assert(n[a] == s[a - 1] && n[b] == s[b - 1]);
                    } else if a == j {
                        assert(n[b] == s[b - 1]);
                        assert(s[j as int].0 >= bucket);
                        if b - 1 > j {
                            assert(s[j as int].0 < s[b - 1].0);
                        }
                    } else if b == j {
                    } else {
                        assert(n[b] == s[b - 1]);
                        assert(n[a] == s[a]);
                    }
                }
                lemma_volume_map(n);
                assert(volume_map(n) =~= volume_map(s).insert(bucket, volume)) by {
                    assert forall|k: i64| #[trigger] volume_map(n).contains_key(k) implies volume_map(s).insert(bucket, volume).contains_key(k) by {
                        let x = choose|x: int| 0 <= x < n.len() && n[x].0 == k;
                        if x < j {
                            assert(n[x] == s[x]);
                        } else if x > j {
                            assert(n[x] == s[x - 1]);
                        }
                    }
                    assert forall|k: i64| #[trigger] volume_map(s).insert(bucket, volume).contains_key(k) implies volume_map(n).contains_key(k) && volume_map(n)[k] == volume_map(s).insert(bucket, volume)[k] by {
                        if k == bucket {
                            assert(n[j as int].0 == k);
                            assert(volume_map(n).contains_key(n[j as int].0));
                        } else {
                            let x = choose|x: int| 0 <= x < s.len() && s[x].0 == k;
                            assert(volume_map(s).contains_key(s[x].0));
                            if x < j {
                                assert(n[x] == s[x]);
                                assert(volume_map(n).contains_key(n[x].0));
                            } else {
                                assert(n[x + 1] == s[x]);
                                assert(volume_map(n).contains_key(n[x + 1].0));
                            }
                        }
                    }
                }
            }
        }
    }

    /// The entries, sorted by bucket.
    pub fn entries(&self) -> (r: &[(i64, u64)])
        ensures
            r@ == self@,
    {
        self.entries.as_slice()
    }

    /// The number of buckets.
    pub fn len(&self) -> (r: usize)
        ensures
            r == self@.len(),
    {
        self.entries.len()
    }

    /// The total volume of the profile.
    pub fn total(&self) -> (r: u64)
        requires
            self.wf_total(),
        ensures
            r == total_volume(self@),
            r == self.total_spec(),
    {
        self.total
    }
}

/// The volume in one bucket is at most the total.
pub proof fn lemma_volume_in_bounded(s: Seq<(i64, u64)>, k: i64)
    requires
        buckets_sorted(s),
    ensures
        volume_in(volume_map(s), k) <= total_volume(s),
    decreases s.len(),
{
    lemma_total_nonneg(s);
    if s.len() > 0 {
        let t = s.drop_last();
        assert(buckets_sorted(t));
        lemma_volume_in_bounded(t, k);
        lemma_total_nonneg(t);
    }
}

/// The total of a prefix is at most the total.
pub proof fn lemma_total_prefix_bounded(s: Seq<(i64, u64)>, k: int)
    requires
        0 <= k <= s.len(),
    ensures
        total_volume(s.take(k)) <= total_volume(s),
        total_volume(s.take(k)) >= 0,
    decreases s.len(),
{
    if k == s.len() {
        assert(s.take(k) =~= s);
        lemma_total_nonneg(s);
    } else {
        lemma_total_prefix_bounded(s.drop_last(), k);
        assert(s.drop_last().take(k) =~= s.take(k));
        lemma_total_nonneg(s.drop_last());
    }
}

pub proof fn lemma_total_nonneg(s: Seq<(i64, u64)>)
    ensures
        total_volume(s) >= 0,
    decreases s.len(),
{
    if s.len() > 0 {
        lemma_total_nonneg(s.drop_last());
    }
}

} // verus!
