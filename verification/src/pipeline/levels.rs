//! Daily reference levels: session statistics, the prior day's levels, and the volume
//! profile's point of control and value area.

use vstd::prelude::*;

use crate::pipeline::bars::{day_of, utc_day, Bar};
use crate::pipeline::keyed::{key_map, keys_sorted, lemma_key_map, sorted_insert};
use crate::pipeline::lvn::{round_div, round_div_exec};
use crate::pipeline::profile::{buckets_sorted, total_volume, volume_in, volume_map, VolumeProfile};
use crate::units::{abs, Price};

verus! {

/// Kind of key level.
#[derive(Debug, Clone, Copy, PartialEq, Eq, Structural)]
pub enum LevelType {
    /// Point of control
    POC,
    /// Value area high
    VAH,
    /// Value area low
    VAL,
    /// Prior day high
    PDH,
    /// Prior day low
    PDL,
    /// Overnight high
    ONH,
    /// Overnight low
    ONL,
    /// Low volume node
    LVN,
}

impl LevelType {
    /// The level type's short name.
    pub fn label(&self) -> (r: &'static str)
        ensures
            *self == LevelType::POC ==> r@ == "POC"@,
            *self == LevelType::VAH ==> r@ == "VAH"@,
            *self == LevelType::VAL ==> r@ == "VAL"@,
            *self == LevelType::PDH ==> r@ == "PDH"@,
            *self == LevelType::PDL ==> r@ == "PDL"@,
            *self == LevelType::ONH ==> r@ == "ONH"@,
            *self == LevelType::ONL ==> r@ == "ONL"@,
            *self == LevelType::LVN ==> r@ == "LVN"@,
    {
        match self {
            LevelType::POC => "POC",
            LevelType::VAH => "VAH",
            LevelType::VAL => "VAL",
            LevelType::PDH => "PDH",
            LevelType::PDL => "PDL",
            LevelType::ONH => "ONH",
            LevelType::ONL => "ONL",
            LevelType::LVN => "LVN",
        }
    }
}

/// Bucket size of daily profiles: one point.
pub const PRICE_BUCKET_SIZE: Price = 100;

/// The value area holds 70% of the volume.
pub const VALUE_AREA_PERCENT: u64 = 70;

/// Whether a price is within a tolerance of a level.
pub fn is_near_level(price: Price, level: Price, tolerance: Price) -> (r: bool)
    ensures
        r == (abs(price - level) <= tolerance),
{
    crate::units::price_distance(price, level) <= tolerance as i128
}

/// The daily-profile bucket of a bar: its mid price rounded to the point.
pub open spec fn bar_bucket(high: Price, low: Price) -> int {
    round_div(high + low, 2 * PRICE_BUCKET_SIZE)
}

/// The daily profile of bars: each bar's volume in the bucket of its mid price.
pub open spec fn bars_profile(bars: Seq<Bar>) -> Map<i64, u64>
    decreases bars.len(),
{
    if bars.len() == 0 {
        Map::empty()
    } else {
        let m = bars_profile(bars.drop_last());
        let b = bars.last();
        let k = bar_bucket(b.high, b.low) as i64;
        m.insert(k, (volume_in(m, k) + b.volume) as u64)
    }
}

/// Total volume of the bars.
pub open spec fn bars_volume(bars: Seq<Bar>) -> int
    decreases bars.len(),
{
    if bars.len() == 0 {
        0
    } else {
        bars_volume(bars.drop_last()) + bars.last().volume
    }
}

/// Whether every prefix of the bars' volume fits in a `u64`.
pub open spec fn bars_volume_fits(bars: Seq<Bar>) -> bool {
    forall|k: int| 0 <= k <= bars.len() ==> #[trigger] bars_volume(bars.take(k)) <= u64::MAX
}

/// Whether each bar's high plus low fits in an `i64`.
pub open spec fn bar_prices_fit(bars: Seq<Bar>) -> bool {
    forall|i: int| 0 <= i < bars.len() ==> i64::MIN <= (#[trigger] bars[i]).high + bars[i].low <= i64::MAX
}

/// Build the daily profile of bars.
pub fn bar_volume_profile(bars: &[Bar]) -> (p: VolumeProfile)
    requires
        bars_volume_fits(bars@),
        bar_prices_fit(bars@),
    ensures
        p.wf(),
        p.wf_total(),
        volume_map(p@) == bars_profile(bars@),
        p.total_spec() == bars_volume(bars@),
{
    let mut profile = VolumeProfile::new();
    let mut i: usize = 0;
    while i < bars.len()
        invariant
            i <= bars@.len(),
            bars_volume_fits(bars@),
            bar_prices_fit(bars@),
            profile.wf(),
            profile.wf_total(),
            volume_map(profile@) == bars_profile(bars@.take(i as int)),
            profile.total_spec() == bars_volume(bars@.take(i as int)),
        decreases bars@.len() - i,
    {
        proof {
            assert(bars@.take(i + 1).drop_last() =~= bars@.take(i as int));
            assert(bars_volume(bars@.take(i + 1)) <= u64::MAX);
            assert(i64::MIN <= bars@[i as int].high + bars@[i as int].low <= i64::MAX);
        }
        let b = &bars[i];
        let bucket = round_div_exec(b.high + b.low, 2 * PRICE_BUCKET_SIZE);
        profile.add(bucket, b.volume);
        i += 1;
    }
    proof {
        assert(bars@.take(i as int) =~= bars@);
    }
    profile
}

/// Index of the first entry with the largest volume.
pub open spec fn max_index(s: Seq<(i64, u64)>) -> int
    decreases s.len(),
{
    if s.len() <= 1 {
        0
    } else {
        let i = max_index(s.drop_last());
        if s.last().1 > s[i].1 {
            s.len() - 1
        } else {
            i
        }
    }
}

pub proof fn lemma_max_index(s: Seq<(i64, u64)>)
    requires
        s.len() > 0,
    ensures
        0 <= max_index(s) < s.len(),
        forall|j: int| 0 <= j < s.len() ==> (#[trigger] s[j]).1 <= s[max_index(s)].1,
        forall|j: int| 0 <= j < max_index(s) ==> (#[trigger] s[j]).1 < s[max_index(s)].1,
    decreases s.len(),
{
    if s.len() > 1 {
        lemma_max_index(s.drop_last());
        assert(forall|j: int| 0 <= j < s.len() - 1 ==> s.drop_last()[j] == s[j]);
    }
}

/// The value area grown from the point of control: while the volume gathered is below
/// the target and the area can grow, it takes the next bucket below when that one has at
/// least the volume of the next one above (or there is none above), else the next one
/// above. Returns the lowest and highest index of the area.
pub open spec fn value_area(vols: Seq<int>, lo: int, hi: int, acc: int, target: int) -> (int, int)
    decreases vols.len() - (hi - lo),
{
    if acc >= target || !(0 <= lo <= hi < vols.len()) {
        (lo, hi)
    } else {
        let can_lower = lo > 0;
        let can_higher = hi < vols.len() - 1;
        if !can_lower && !can_higher {
            (lo, hi)
        } else {
            let lower = if can_lower { vols[lo - 1] } else { 0 };
            let upper = if can_higher { vols[hi + 1] } else { 0 };
            if lower >= upper && can_lower {
                value_area(vols, lo - 1, hi, acc + lower, target)
            } else if can_higher {
                value_area(vols, lo, hi + 1, acc + upper, target)
            } else {
                value_area(vols, lo - 1, hi, acc + lower, target)
            }
        }
    }
}

/// The value area contains its starting range and stays within the buckets.
pub proof fn lemma_value_area_bounds(vols: Seq<int>, lo: int, hi: int, acc: int, target: int)
    requires
        0 <= lo <= hi < vols.len(),
    ensures
        0 <= value_area(vols, lo, hi, acc, target).0 <= lo,
        hi <= value_area(vols, lo, hi, acc, target).1 < vols.len(),
    decreases vols.len() - (hi - lo),
{
    if acc >= target {
    } else {
        let can_lower = lo > 0;
        let can_higher = hi < vols.len() - 1;
        if can_lower || can_higher {
            let lower = if can_lower { vols[lo - 1] } else { 0 };
            let upper = if can_higher { vols[hi + 1] } else { 0 };
            if lower >= upper && can_lower {
                lemma_value_area_bounds(vols, lo - 1, hi, acc + lower, target);
            } else if can_higher {
                lemma_value_area_bounds(vols, lo, hi + 1, acc + upper, target);
            } else {
                lemma_value_area_bounds(vols, lo - 1, hi, acc + lower, target);
            }
        }
    }
}

/// The volumes of profile entries.
pub open spec fn volumes(s: Seq<(i64, u64)>) -> Seq<int> {
    Seq::new(s.len(), |i: int| s[i].1 as int)
}

/// The target volume of the value area: 70% of the total, rounded down.
pub open spec fn value_area_target(total: int) -> int {
    total * VALUE_AREA_PERCENT / 100
}

/// Point of control, value area high and value area low of sorted profile entries, as
/// prices; all zero for an empty profile.
pub open spec fn profile_levels(s: Seq<(i64, u64)>) -> (Price, Price, Price) {
    if s.len() == 0 {
        (0, 0, 0)
    } else {
        let p = max_index(s);
        let area = value_area(volumes(s), p, p, s[p].1 as int, value_area_target(total_volume(s)));
        (
            (s[p].0 * PRICE_BUCKET_SIZE) as i64,
            (s[area.1].0 * PRICE_BUCKET_SIZE) as i64,
            (s[area.0].0 * PRICE_BUCKET_SIZE) as i64,
        )
    }
}

/// Whether every bucket's price fits in an `i64`.
pub open spec fn bucket_prices_fit(m: Map<i64, u64>) -> bool {
    forall|k: i64| #[trigger] m.contains_key(k) ==> i64::MIN <= k * PRICE_BUCKET_SIZE <= i64::MAX
}

/// The point of control, value area high and value area low of a day's bars: the
/// profile puts each bar's volume at its mid price rounded to the point; the point of
/// control is the lowest bucket with the largest volume; the value area grows from it as
/// `value_area` says until it holds 70% of the volume. All three are zero without bars.
pub fn compute_volume_profile(bars: &[Bar]) -> (r: (Price, Price, Price))
    requires
        bars_volume_fits(bars@),
        bar_prices_fit(bars@),
        bucket_prices_fit(bars_profile(bars@)),
    ensures
        bars@.len() == 0 ==> r == (0i64, 0i64, 0i64),
        forall|s: Seq<(i64, u64)>| buckets_sorted(s) && volume_map(s) == bars_profile(bars@) ==> r == profile_levels(s),
{
    if bars.len() == 0 {
        proof {
            assert forall|s: Seq<(i64, u64)>| buckets_sorted(s) && volume_map(s) == bars_profile(bars@) implies r_is_empty(s) by {
                crate::pipeline::profile::lemma_volume_map(s);
                if s.len() > 0 {
                    assert(volume_map(s).contains_key(s[0].0));
                }
            }
        }
        return (0, 0, 0);
    }
    let profile = bar_volume_profile(bars);
    let entries = profile.entries();
    let total = profile.total();
    proof {
        crate::pipeline::profile::lemma_volume_map(entries@);
        assert(bars_profile(bars@).contains_key(round_div(bars@[0].high + bars@[0].low, 2 * PRICE_BUCKET_SIZE) as i64)) by {
            lemma_bars_profile_keys(bars@, 0);
        }
    }
    let n = entries.len();
    proof {
        let k = round_div(bars@[0].high + bars@[0].low, 2 * PRICE_BUCKET_SIZE) as i64;
        assert(volume_map(entries@).contains_key(k));
        assert(exists|x: int| 0 <= x < entries@.len() && entries@[x].0 == k);
        assert(n > 0);
    }
    // Point of control: the first bucket with the largest volume.
    let mut poc_idx: usize = 0;
    let mut j: usize = 1;
    proof {
        assert(entries@.take(1).drop_last().len() == 0);
    }
    while j < n
        invariant
            1 <= j <= n,
            n == entries@.len(),
            poc_idx < j,
            poc_idx == max_index(entries@.take(j as int)),
        decreases n - j,
    {
        proof {
            assert(entries@.take(j + 1).drop_last() =~= entries@.take(j as int));
            assert(entries@.take(j + 1)[poc_idx as int] == entries@[poc_idx as int]);
        }
        if entries[j].1 > entries[poc_idx].1 {
            poc_idx = j;
        }
        j += 1;
    }
    proof {
        assert(entries@.take(n as int) =~= entries@);
    }
    let target: u64 = ((total as u128) * (VALUE_AREA_PERCENT as u128) / 100) as u64;
    let ghost vols = volumes(entries@);
    let mut val_idx: usize = poc_idx;
    let mut vah_idx: usize = poc_idx;
    let mut acc: u64 = entries[poc_idx].1;
    proof {
        lemma_area_volume_bounded(entries@, poc_idx as int, poc_idx as int);
        let one = entries@.subrange(poc_idx as int, poc_idx + 1);
        assert(one.drop_last().len() == 0);
        assert(total_volume(one.drop_last()) == 0);
        assert(one.last() == entries@[poc_idx as int]);
        assert(total_volume(one) == entries@[poc_idx as int].1);
    }
    while acc < target
        invariant
            n == entries@.len(),
            0 <= val_idx <= vah_idx < n,
            vols == volumes(entries@),
            total == total_volume(entries@),
            acc == area_volume(entries@, val_idx as int, vah_idx as int),
            acc <= total,
            value_area(vols, val_idx as int, vah_idx as int, acc as int, target as int)
                == value_area(vols, poc_idx as int, poc_idx as int, entries@[poc_idx as int].1 as int, target as int),
        ensures
            acc >= target || (val_idx == 0 && vah_idx == n - 1),
        decreases n - (vah_idx - val_idx),
    {
        let can_lower = val_idx > 0;
        let can_higher = vah_idx < n - 1;
        if !can_lower && !can_higher {
            break;
        }
        let lower: u64 = if can_lower { entries[val_idx - 1].1 } else { 0 };
        let upper: u64 = if can_higher { entries[vah_idx + 1].1 } else { 0 };
        proof {
            assert(can_lower ==> lower == vols[val_idx - 1]);
            assert(can_higher ==> upper == vols[vah_idx + 1]);
            lemma_area_volume_bounded(entries@, val_idx as int, vah_idx as int);
        }
        if lower >= upper && can_lower {
            proof {
                lemma_area_volume_bounded(entries@, val_idx - 1, vah_idx as int);
            }
            val_idx = val_idx - 1;
            acc = acc + lower;
        } else if can_higher {
            proof {
                lemma_area_volume_bounded(entries@, val_idx as int, vah_idx + 1);
            }
            vah_idx = vah_idx + 1;
            acc = acc + upper;
        } else {
            proof {
                lemma_area_volume_bounded(entries@, val_idx - 1, vah_idx as int);
            }
            val_idx = val_idx - 1;
            acc = acc + lower;
        }
    }
    proof {
        assert(value_area(vols, val_idx as int, vah_idx as int, acc as int, target as int) == (val_idx as int, vah_idx as int));
    }
    proof {
        lemma_max_index(entries@);
        assert forall|s: Seq<(i64, u64)>| buckets_sorted(s) && volume_map(s) == bars_profile(bars@) implies s == entries@ by {
            crate::pipeline::profile::lemma_sorted_entries_unique(s, entries@);
        }
        assert(volume_map(entries@).contains_key(entries@[poc_idx as int].0));
        assert(volume_map(entries@).contains_key(entries@[val_idx as int].0));
        assert(volume_map(entries@).contains_key(entries@[vah_idx as int].0));
        assert(value_area_target(total_volume(entries@)) == target);
    }
    (entries[poc_idx].0 * PRICE_BUCKET_SIZE, entries[vah_idx].0 * PRICE_BUCKET_SIZE, entries[val_idx].0 * PRICE_BUCKET_SIZE)
}

spec fn r_is_empty(s: Seq<(i64, u64)>) -> bool {
    profile_levels(s) == (0i64, 0i64, 0i64)
}

/// Each bar's bucket is in the profile of the bars.
pub proof fn lemma_bars_profile_keys(bars: Seq<Bar>, i: int)
    requires
        0 <= i < bars.len(),
    ensures
        bars_profile(bars).contains_key(bar_bucket(bars[i].high, bars[i].low) as i64),
    decreases bars.len(),
{
    if i < bars.len() - 1 {
        lemma_bars_profile_keys(bars.drop_last(), i);
        assert(bars.drop_last()[i] == bars[i]);
    }
}

/// Volume of the entries from index `lo` to index `hi`.
pub open spec fn area_volume(s: Seq<(i64, u64)>, lo: int, hi: int) -> int {
    total_volume(s.subrange(lo, hi + 1))
}

/// The volume of a range of entries is at most the total.
pub proof fn lemma_area_volume_bounded(s: Seq<(i64, u64)>, lo: int, hi: int)
    requires
        0 <= lo <= hi < s.len(),
    ensures
        0 <= area_volume(s, lo, hi) <= total_volume(s),
        lo > 0 ==> area_volume(s, lo - 1, hi) == area_volume(s, lo, hi) + s[lo - 1].1,
        hi + 1 < s.len() ==> area_volume(s, lo, hi + 1) == area_volume(s, lo, hi) + s[hi + 1].1,
{
    lemma_total_split(s, lo, hi + 1);
    crate::pipeline::profile::lemma_total_nonneg(s.subrange(0, lo));
    crate::pipeline::profile::lemma_total_nonneg(s.subrange(lo, hi + 1));
    crate::pipeline::profile::lemma_total_nonneg(s.subrange(hi + 1, s.len() as int));
    if lo > 0 {
        lemma_total_front(s.subrange(lo - 1, hi + 1));
        assert(s.subrange(lo - 1, hi + 1).subrange(1, hi + 2 - lo) =~= s.subrange(lo, hi + 1));
    }
    if hi + 1 < s.len() {
        assert(s.subrange(lo, hi + 2).drop_last() =~= s.subrange(lo, hi + 1));
    }
}

/// The total splits over a middle range.
pub proof fn lemma_total_split(s: Seq<(i64, u64)>, a: int, b: int)
    requires
        0 <= a <= b <= s.len(),
    ensures
        total_volume(s) == total_volume(s.subrange(0, a)) + total_volume(s.subrange(a, b)) + total_volume(s.subrange(b, s.len() as int)),
    decreases s.len(),
{
    if b < s.len() {
        lemma_total_split(s.drop_last(), a, b);
        assert(s.drop_last().subrange(0, a) =~= s.subrange(0, a));
        assert(s.drop_last().subrange(a, b) =~= s.subrange(a, b));
        assert(s.subrange(b, s.len() as int).drop_last() =~= s.drop_last().subrange(b, s.len() - 1));
    } else if a < b {
        lemma_total_split(s.drop_last(), a, b - 1);
        assert(s.drop_last().subrange(0, a) =~= s.subrange(0, a));
        assert(s.subrange(a, b).drop_last() =~= s.drop_last().subrange(a, b - 1));
        assert(s.subrange(b, s.len() as int).len() == 0);
        assert(s.drop_last().subrange(b - 1, s.len() - 1).len() == 0);
    } else {
        assert(s.subrange(0, a) =~= s);
        assert(s.subrange(a, b).len() == 0);
        assert(s.subrange(b, s.len() as int).len() == 0);
    }
}

/// The total of a sequence is its first volume plus the total of the rest.
pub proof fn lemma_total_front(s: Seq<(i64, u64)>)
    requires
        s.len() > 0,
    ensures
        total_volume(s) == s[0].1 + total_volume(s.subrange(1, s.len() as int)),
    decreases s.len(),
{
    if s.len() > 1 {
        lemma_total_front(s.drop_last());
        assert(s.drop_last().subrange(1, s.len() - 1) =~= s.subrange(1, s.len() as int).drop_last());
        assert(s.drop_last()[0] == s[0]);
        assert(s.subrange(1, s.len() as int).last() == s.last());
    } else {
        assert(s.drop_last().len() == 0);
        assert(total_volume(s.drop_last()) == 0);
        assert(s.subrange(1, s.len() as int).len() == 0);
        assert(total_volume(s.subrange(1, s.len() as int)) == 0);
    }
}

/// The value area contains the point of control: the value area low is at or below it
/// and the value area high at or above it.
pub proof fn lemma_value_area_contains_poc(s: Seq<(i64, u64)>)
    requires
        s.len() > 0,
        buckets_sorted(s),
    ensures
        ({
            let p = max_index(s);
            let area = value_area(volumes(s), p, p, s[p].1 as int, value_area_target(total_volume(s)));
            &&& area.0 <= p <= area.1
            &&& s[area.0].0 <= s[p].0 <= s[area.1].0
        }),
{
    lemma_max_index(s);
    let p = max_index(s);
    lemma_value_area_bounds(volumes(s), p, p, s[p].1 as int, value_area_target(total_volume(s)));
}


/// Whether every bar's high and low lie within plus or minus 2^60 price units.
pub open spec fn bar_prices_bounded(bars: Seq<Bar>) -> bool {
    forall|i: int| 0 <= i < bars.len() ==> -0x1000_0000_0000_0000 <= (#[trigger] bars[i]).high <= 0x1000_0000_0000_0000
        && -0x1000_0000_0000_0000 <= bars[i].low <= 0x1000_0000_0000_0000
}

pub proof fn lemma_bars_volume_nonneg(bars: Seq<Bar>)
    ensures
        bars_volume(bars) >= 0,
    decreases bars.len(),
{
    if bars.len() > 0 {
        lemma_bars_volume_nonneg(bars.drop_last());
    }
}

/// The volume of a prefix is at most the volume of all the bars.
pub proof fn lemma_bars_volume_prefix(bars: Seq<Bar>, k: int)
    requires
        0 <= k <= bars.len(),
    ensures
        bars_volume(bars.take(k)) <= bars_volume(bars),
    decreases bars.len(),
{
    if k == bars.len() {
        assert(bars.take(k) =~= bars);
    } else {
        lemma_bars_volume_prefix(bars.drop_last(), k);
        assert(bars.drop_last().take(k) =~= bars.take(k));
    }
}

/// Bars whose total volume fits in a `u64` have every prefix fit.
pub proof fn lemma_bars_volume_fits(bars: Seq<Bar>)
    requires
        bars_volume(bars) <= u64::MAX,
    ensures
        bars_volume_fits(bars),
{
    assert forall|k: int| 0 <= k <= bars.len() implies #[trigger] bars_volume(bars.take(k)) <= u64::MAX by {
        lemma_bars_volume_prefix(bars, k);
    }
}

/// The bars of a UTC day, in their order.
pub open spec fn bars_on(bars: Seq<Bar>, day: int) -> Seq<Bar>
    decreases bars.len(),
{
    if bars.len() == 0 {
        bars
    } else {
        let rest = bars_on(bars.drop_last(), day);
        if day_of(bars.last().timestamp as int) == day {
            rest.push(bars.last())
        } else {
            rest
        }
    }
}

/// The bars of a day are a selection of the bars: their volume is at most the total,
/// their prices keep the bounds of all the bars, and each one lies on that day.
pub proof fn lemma_bars_on(bars: Seq<Bar>, day: int)
    ensures
        bars_volume(bars_on(bars, day)) <= bars_volume(bars),
        bar_prices_bounded(bars) ==> bar_prices_bounded(bars_on(bars, day)),
        forall|i: int| 0 <= i < bars_on(bars, day).len() ==> day_of((#[trigger] bars_on(bars, day)[i]).timestamp as int) == day,
        bars_on(bars, day).len() <= bars.len(),
    decreases bars.len(),
{
    lemma_bars_volume_nonneg(bars);
    if bars.len() > 0 {
        let t = bars.drop_last();
        lemma_bars_on(t, day);
        lemma_bars_volume_nonneg(t);
        let r = bars_on(t, day);
        if day_of(bars.last().timestamp as int) == day {
            assert(r.push(bars.last()).drop_last() =~= r);
            assert forall|i: int| 0 <= i < r.len() + 1 implies day_of((#[trigger] r.push(bars.last())[i]).timestamp as int) == day by {
                if i < r.len() {
                    assert(r.push(bars.last())[i] == r[i]);
                }
            }
            if bar_prices_bounded(bars) {
                assert(bar_prices_bounded(t)) by {
                    assert forall|i: int| 0 <= i < t.len() implies -0x1000_0000_0000_0000 <= (#[trigger] t[i]).high <= 0x1000_0000_0000_0000
                        && -0x1000_0000_0000_0000 <= t[i].low <= 0x1000_0000_0000_0000 by {
                        assert(t[i] == bars[i]);
                    }
                }
                assert forall|i: int| 0 <= i < r.len() + 1 implies -0x1000_0000_0000_0000 <= (#[trigger] r.push(bars.last())[i]).high
                    <= 0x1000_0000_0000_0000 && -0x1000_0000_0000_0000 <= r.push(bars.last())[i].low <= 0x1000_0000_0000_0000 by {
                    if i < r.len() {
                        assert(r.push(bars.last())[i] == r[i]);
                    } else {
                        assert(bars[bars.len() - 1] == bars.last());
                    }
                }
            }
        } else {
            if bar_prices_bounded(bars) {
                assert(bar_prices_bounded(t)) by {
                    assert forall|i: int| 0 <= i < t.len() implies -0x1000_0000_0000_0000 <= (#[trigger] t[i]).high <= 0x1000_0000_0000_0000
                        && -0x1000_0000_0000_0000 <= t[i].low <= 0x1000_0000_0000_0000 by {
                        assert(t[i] == bars[i]);
                    }
                }
            }
        }
    }
}

/// Every bucket of a profile of bounded bars has a price that fits in an `i64`, and
/// each bar's high plus low fits too.
pub proof fn lemma_bounded_profile(bars: Seq<Bar>)
    requires
        bar_prices_bounded(bars),
    ensures
        bucket_prices_fit(bars_profile(bars)),
        bar_prices_fit(bars),
    decreases bars.len(),
{
    if bars.len() > 0 {
        let t = bars.drop_last();
        assert(bar_prices_bounded(t)) by {
            assert forall|i: int| 0 <= i < t.len() implies -0x1000_0000_0000_0000 <= (#[trigger] t[i]).high <= 0x1000_0000_0000_0000
                && -0x1000_0000_0000_0000 <= t[i].low <= 0x1000_0000_0000_0000 by {
                assert(t[i] == bars[i]);
            }
        }
        lemma_bounded_profile(t);
        let b = bars.last();
        assert(-0x1000_0000_0000_0000 <= b.high <= 0x1000_0000_0000_0000 && -0x1000_0000_0000_0000 <= b.low <= 0x1000_0000_0000_0000) by {
            assert(bars[bars.len() - 1] == b);
        }
        let n = b.high + b.low;
        assert(-0x2000_0000_0000_0000 <= round_div(n, 200) * 100 <= 0x2000_0000_0000_0000 + 100) by {
            if n >= 0 {
                assert((n + 100) / 200 * 100 <= n + 100) by (nonlinear_arith)
                    requires n >= 0;
            } else {
                assert((-n + 100) / 200 * 100 <= -n + 100) by (nonlinear_arith)
                    requires -n > 0;
                assert((-n + 100) / 200 >= 0) by (nonlinear_arith)
                    requires -n > 0;
            }
        }
        assert forall|i: int| 0 <= i < bars.len() implies i64::MIN <= (#[trigger] bars[i]).high + bars[i].low <= i64::MAX by {
            if i < t.len() {
                assert(t[i] == bars[i]);
            }
        }
    }
}

/// The highest high of the bars.
pub open spec fn max_high(bars: Seq<Bar>) -> int
    decreases bars.len(),
{
    if bars.len() <= 1 {
        if bars.len() == 0 { i64::MIN as int } else { bars[0].high as int }
    } else {
        let m = max_high(bars.drop_last());
        if bars.last().high > m { bars.last().high as int } else { m }
    }
}

/// The lowest low of the bars.
pub open spec fn min_low(bars: Seq<Bar>) -> int
    decreases bars.len(),
{
    if bars.len() <= 1 {
        if bars.len() == 0 { i64::MAX as int } else { bars[0].low as int }
    } else {
        let m = min_low(bars.drop_last());
        if bars.last().low < m { bars.last().low as int } else { m }
    }
}

/// Reference levels of a trading day. The date is a UTC day number; prices in price
/// units.
#[derive(Debug)]
pub struct DailyLevels {
    pub date: i64,
    pub symbol: String,
    /// Prior day high, low and close
    pub pdh: Price,
    pub pdl: Price,
    pub pdc: Price,
    /// Overnight high and low (zero: not computed)
    pub onh: Price,
    pub onl: Price,
    /// Point of control, value area high and low
    pub poc: Price,
    pub vah: Price,
    pub val: Price,
    pub session_high: Price,
    pub session_low: Price,
    pub session_open: Price,
    pub session_close: Price,
    pub total_volume: u64,
}

/// The day's levels for the bars `day_bars` of a day, after the bars `prev` of the
/// previous day in the data, if any.
pub open spec fn levels_match(l: DailyLevels, day: int, day_bars: Seq<Bar>, prev: Option<Seq<Bar>>) -> bool {
    let hi = max_high(day_bars);
    let lo = min_low(day_bars);
    let open = day_bars[0].open;
    &&& l.date == day
    &&& l.symbol@ == day_bars[0].symbol@
    &&& l.session_high == hi
    &&& l.session_low == lo
    &&& l.session_open == open
    &&& l.session_close == day_bars.last().close
    &&& l.total_volume == bars_volume(day_bars)
    &&& l.onh == 0
    &&& l.onl == 0
    &&& match prev {
        Some(p) => l.pdh == max_high(p) && l.pdl == min_low(p) && l.pdc == p.last().close,
        None => l.pdh == hi && l.pdl == lo && l.pdc == open,
    }
    &&& forall|s: Seq<(i64, u64)>| buckets_sorted(s) && volume_map(s) == bars_profile(day_bars) ==> (l.poc, l.vah, l.val) == profile_levels(s)
}

/// Whether some bar falls on the UTC day.
pub open spec fn has_bar_on(bars: Seq<Bar>, day: int) -> bool {
    exists|k: int| 0 <= k < bars.len() && day_of((#[trigger] bars[k]).timestamp as int) == day
}

/// Day numbers as integers.
pub open spec fn day_numbers(days: Seq<i64>) -> Seq<int> {
    days.map_values(|d: i64| d as int)
}

/// Whether the days are sorted, without repeats, and exactly the days of the bars.
pub open spec fn days_of_bars(days: Seq<int>, bars: Seq<Bar>) -> bool {
    &&& forall|i: int, j: int| 0 <= i < j < days.len() ==> days[i] < days[j]
    &&& forall|i: int| 0 <= i < days.len() ==> has_bar_on(bars, #[trigger] days[i])
    &&& forall|k: int| 0 <= k < bars.len() ==> days.contains(day_of((#[trigger] bars[k]).timestamp as int))
}

fn highest_high(bars: &[Bar]) -> (r: Price)
    ensures
        r == max_high(bars@),
{
    let mut m: Price = if bars.len() == 0 { i64::MIN } else { bars[0].high };
    let mut i: usize = 1;
    while i < bars.len()
        invariant
            1 <= i <= bars@.len() || bars@.len() == 0,
            bars@.len() > 0 ==> m == max_high(bars@.take(i as int)),
            bars@.len() == 0 ==> m == i64::MIN,
        decreases bars@.len() - i,
    {
        proof {
            assert(bars@.take(i + 1).drop_last() =~= bars@.take(i as int));
            assert(bars@.take(1)[0] == bars@[0]);
        }
        if bars[i].high > m {
            m = bars[i].high;
        }
        i += 1;
    }
    proof {
        if bars@.len() > 0 {
            assert(bars@.take(i as int) =~= bars@);
        }
    }
    m
}

fn lowest_low(bars: &[Bar]) -> (r: Price)
    ensures
        r == min_low(bars@),
{
    let mut m: Price = if bars.len() == 0 { i64::MAX } else { bars[0].low };
    let mut i: usize = 1;
    while i < bars.len()
        invariant
            1 <= i <= bars@.len() || bars@.len() == 0,
            bars@.len() > 0 ==> m == min_low(bars@.take(i as int)),
            bars@.len() == 0 ==> m == i64::MAX,
        decreases bars@.len() - i,
    {
        proof {
            assert(bars@.take(i + 1).drop_last() =~= bars@.take(i as int));
            assert(bars@.take(1)[0] == bars@[0]);
        }
        if bars[i].low < m {
            m = bars[i].low;
        }
        i += 1;
    }
    proof {
        if bars@.len() > 0 {
            assert(bars@.take(i as int) =~= bars@);
        }
    }
    m
}

fn volume_sum(bars: &[Bar]) -> (r: u64)
    requires
        bars_volume(bars@) <= u64::MAX,
    ensures
        r == bars_volume(bars@),
{
    let mut total: u64 = 0;
    let mut i: usize = 0;
    while i < bars.len()
        invariant
            i <= bars@.len(),
            bars_volume(bars@) <= u64::MAX,
            total == bars_volume(bars@.take(i as int)),
        decreases bars@.len() - i,
    {
        proof {
            assert(bars@.take(i + 1).drop_last() =~= bars@.take(i as int));
            lemma_bars_volume_prefix(bars@, i + 1);
        }
        total = total + bars[i].volume;
        i += 1;
    }
    proof {
        assert(bars@.take(i as int) =~= bars@);
    }
    total
}

/// The bars of a day, copied in order.
fn collect_day(bars: &[Bar], day: i64) -> (r: Vec<Bar>)
    ensures
        r@ == bars_on(bars@, day as int),
{
    let mut out: Vec<Bar> = Vec::new();
    let mut i: usize = 0;
    while i < bars.len()
        invariant
            i <= bars@.len(),
            out@ == bars_on(bars@.take(i as int), day as int),
        decreases bars@.len() - i,
    {
        proof {
            assert(bars@.take(i + 1).drop_last() =~= bars@.take(i as int));
        }
        if utc_day(bars[i].timestamp) == day {
            out.push(bars[i].duplicate());
        }
        i += 1;
    }
    proof {
        assert(bars@.take(i as int) =~= bars@);
    }
    out
}

/// The UTC days of the bars, sorted without repeats.
fn trading_days(bars: &[Bar]) -> (r: Vec<i64>)
    ensures
        days_of_bars(day_numbers(r@), bars@),
{
    let mut set: Vec<(i64, ())> = Vec::new();
    let mut i: usize = 0;
    while i < bars.len()
        invariant
            i <= bars@.len(),
            keys_sorted(set@),
            forall|k: i64| #[trigger] key_map(set@).contains_key(k) <==> exists|j: int|
                0 <= j < i && day_of(bars@[j].timestamp as int) == k,
        decreases bars@.len() - i,
    {
        let d = utc_day(bars[i].timestamp);
        sorted_insert(&mut set, d, ());
        proof {
            assert forall|k: i64| #[trigger] key_map(set@).contains_key(k) <==> exists|j: int|
                0 <= j < i + 1 && day_of(bars@[j].timestamp as int) == k by {
                if k == d {
                    assert(day_of(bars@[i as int].timestamp as int) == k);
                }
                if exists|j: int| 0 <= j < i + 1 && day_of(bars@[j].timestamp as int) == k {
                    let j = choose|j: int| 0 <= j < i + 1 && day_of(bars@[j].timestamp as int) == k;
                    if j < i {
                    }
                }
            }
        }
        i += 1;
    }
    let mut days: Vec<i64> = Vec::new();
    let mut j: usize = 0;
    proof {
        lemma_key_map(set@);
    }
    while j < set.len()
        invariant
            j <= set@.len(),
            days@.len() == j,
            forall|x: int| 0 <= x < j ==> days@[x] == set@[x].0,
        decreases set@.len() - j,
    {
        days.push(set[j].0);
        j += 1;
    }
    proof {
        let ds = day_numbers(days@);
        assert forall|a: int, b: int| 0 <= a < b < ds.len() implies ds[a] < ds[b] by {
            assert(set@[a].0 < set@[b].0);
        }
        assert forall|a: int| 0 <= a < ds.len() implies has_bar_on(bars@, #[trigger] ds[a]) by {
            assert(key_map(set@).contains_key(set@[a].0));
            assert(exists|j: int| 0 <= j < i && day_of(bars@[j].timestamp as int) == set@[a].0);
            let j = choose|j: int| 0 <= j < i && day_of(bars@[j].timestamp as int) == set@[a].0;
            assert(0 <= j < bars@.len());
            assert(day_of(bars@[j].timestamp as int) == ds[a]);
        }
        assert forall|k: int| 0 <= k < bars@.len() implies ds.contains(day_of((#[trigger] bars@[k]).timestamp as int)) by {
            let d = day_of(bars@[k].timestamp as int) as i64;
            assert(key_map(set@).contains_key(d));
            let x = choose|x: int| 0 <= x < set@.len() && set@[x].0 == d;
            assert(ds[x] == d);
        }
    }
    days
}

/// The reference levels of each UTC day of the bars, in day order: the day's high, low,
/// open, close and volume; the previous day's high, low and close (for the first day, its
/// own high, low and open); no overnight levels; and the day's point of control and value
/// area (see `compute_volume_profile`). Empty without bars.
pub fn compute_daily_levels(bars: &[Bar]) -> (r: Vec<DailyLevels>)
    requires
        bars_volume(bars@) <= u64::MAX,
        bar_prices_bounded(bars@),
    ensures
        exists|days: Seq<int>| {
            &&& days_of_bars(days, bars@)
            &&& r@.len() == days.len()
            &&& forall|i: int| 0 <= i < r@.len() ==> levels_match(
                #[trigger] r@[i],
                days[i],
                bars_on(bars@, days[i]),
                if i == 0 { None } else { Some(bars_on(bars@, days[i - 1])) },
            )
        },
{
    let days = trading_days(bars);
    let ghost ds = day_numbers(days@);
    let mut out: Vec<DailyLevels> = Vec::new();
    let mut i: usize = 0;
    while i < days.len()
        invariant
            i <= days@.len(),
            ds == day_numbers(days@),
            days_of_bars(ds, bars@),
            bars_volume(bars@) <= u64::MAX,
            bar_prices_bounded(bars@),
            out@.len() == i,
            forall|x: int| 0 <= x < i ==> levels_match(
                #[trigger] out@[x],
                ds[x],
                bars_on(bars@, ds[x]),
                if x == 0 { None } else { Some(bars_on(bars@, ds[x - 1])) },
            ),
        decreases days@.len() - i,
    {
        let day = days[i];
        let day_bars = collect_day(bars, day);
        proof {
            lemma_bars_on(bars@, day as int);
            lemma_bars_volume_fits(day_bars@);
            lemma_bounded_profile(day_bars@);
            let k = choose|k: int| 0 <= k < bars@.len() && day_of((#[trigger] bars@[k]).timestamp as int) == ds[i as int];
            lemma_bars_on_nonempty(bars@, day as int, k);
        }
        let session_high = highest_high(day_bars.as_slice());
        let session_low = lowest_low(day_bars.as_slice());
        let session_open = day_bars[0].open;
        let session_close = day_bars[day_bars.len() - 1].close;
        let total_volume = volume_sum(day_bars.as_slice());
        let (pdh, pdl, pdc) = if i > 0 {
            let prev_bars = collect_day(bars, days[i - 1]);
            proof {
                let k = choose|k: int| 0 <= k < bars@.len() && day_of((#[trigger] bars@[k]).timestamp as int) == ds[i - 1];
                lemma_bars_on_nonempty(bars@, days@[i - 1] as int, k);
            }
            (highest_high(prev_bars.as_slice()), lowest_low(prev_bars.as_slice()), prev_bars[prev_bars.len() - 1].close)
        } else {
            (session_high, session_low, session_open)
        };
        let (poc, vah, val) = compute_volume_profile(day_bars.as_slice());
        out.push(
            DailyLevels {
                date: day,
                symbol: day_bars[0].symbol.clone(),
                pdh,
                pdl,
                pdc,
                onh: 0,
                onl: 0,
                poc,
                vah,
                val,
                session_high,
                session_low,
                session_open,
                session_close,
                total_volume,
            },
        );
        proof {
            assert forall|x: int| 0 <= x < i + 1 implies levels_match(
                #[trigger] out@[x],
                ds[x],
                bars_on(bars@, ds[x]),
                if x == 0 { None } else { Some(bars_on(bars@, ds[x - 1])) },
            ) by {
                if x == i {
                    assert(ds[x] == day);
                    if x > 0 {
                        assert(ds[x - 1] == days@[x - 1]);
                    }
                }
            }
        }
        i += 1;
    }
    out
}

/// A day of some bar has at least one bar.
pub proof fn lemma_bars_on_nonempty(bars: Seq<Bar>, day: int, k: int)
    requires
        0 <= k < bars.len(),
        day_of(bars[k].timestamp as int) == day,
    ensures
        bars_on(bars, day).len() > 0,
    decreases bars.len(),
{
    if k < bars.len() - 1 {
        lemma_bars_on_nonempty(bars.drop_last(), day, k);
        assert(bars.drop_last()[k] == bars[k]);
    }
}

/// The value area grows by the heavier neighbour first, the lower one on a tie. Short of
/// the target, with a bucket on each side: when the one below has at least the volume of
/// the one above, the area is what it grows to after taking the one below; when the one
/// above is heavier, after taking the one above. So when one bucket reaches the target,
/// the area is the current one with only the heavier neighbour added. At the target the
/// area stays as it is; at an end of the buckets it grows the other way.
pub proof fn lemma_value_area_heavier_first(vols: Seq<int>, lo: int, hi: int, acc: int, target: int)
    requires
        0 <= lo <= hi < vols.len(),
    ensures
        acc >= target ==> value_area(vols, lo, hi, acc, target) == (lo, hi),
        acc < target && 0 < lo && hi + 1 < vols.len() && vols[lo - 1] >= vols[hi + 1] ==> value_area(vols, lo, hi, acc, target)
            == value_area(vols, lo - 1, hi, acc + vols[lo - 1], target),
        acc < target && 0 < lo && hi + 1 < vols.len() && vols[hi + 1] > vols[lo - 1] ==> value_area(vols, lo, hi, acc, target)
            == value_area(vols, lo, hi + 1, acc + vols[hi + 1], target),
        acc < target && 0 < lo && hi + 1 < vols.len() && vols[lo - 1] >= vols[hi + 1] && acc + vols[lo - 1] >= target
            ==> value_area(vols, lo, hi, acc, target) == (lo - 1, hi),
        acc < target && 0 < lo && hi + 1 < vols.len() && vols[hi + 1] > vols[lo - 1] && acc + vols[hi + 1] >= target
            ==> value_area(vols, lo, hi, acc, target) == (lo, hi + 1),
        acc < target && lo == 0 && hi + 1 < vols.len() ==> value_area(vols, lo, hi, acc, target) == value_area(
            vols,
            lo,
            hi + 1,
            acc + vols[hi + 1],
            target,
        ),
        acc < target && 0 < lo && hi + 1 == vols.len() ==> value_area(vols, lo, hi, acc, target) == value_area(
            vols,
            lo - 1,
            hi,
            acc + vols[lo - 1],
            target,
        ),
{
    if acc < target && 0 < lo && hi + 1 < vols.len() {
        if vols[lo - 1] >= vols[hi + 1] && acc + vols[lo - 1] >= target {
            assert(value_area(vols, lo - 1, hi, acc + vols[lo - 1], target) == (lo - 1, hi));
        }
        if vols[hi + 1] > vols[lo - 1] && acc + vols[hi + 1] >= target {
            assert(value_area(vols, lo, hi + 1, acc + vols[hi + 1], target) == (lo, hi + 1));
        }
    }
}

/// The highest high is at least every bar's high and is one of them; the lowest low is at
/// most every bar's low and is one of them.
pub proof fn lemma_max_high_min_low(bars: Seq<Bar>)
    requires
        bars.len() > 0,
    ensures
        forall|k: int| 0 <= k < bars.len() ==> #[trigger] bars[k].high <= max_high(bars) && min_low(bars) <= bars[k].low,
        exists|k: int| 0 <= k < bars.len() && #[trigger] bars[k].high == max_high(bars),
        exists|k: int| 0 <= k < bars.len() && #[trigger] bars[k].low == min_low(bars),
    decreases bars.len(),
{
    if bars.len() > 1 {
        let t = bars.drop_last();
        lemma_max_high_min_low(t);
        assert forall|k: int| 0 <= k < bars.len() implies #[trigger] bars[k].high <= max_high(bars) && min_low(bars) <= bars[k].low by {
            if k < bars.len() - 1 {
                assert(t[k] == bars[k]);
            }
        }
        let kh = choose|k: int| 0 <= k < t.len() && #[trigger] t[k].high == max_high(t);
        let kl = choose|k: int| 0 <= k < t.len() && #[trigger] t[k].low == min_low(t);
        assert(t[kh] == bars[kh]);
        assert(t[kl] == bars[kl]);
        assert(bars[bars.len() - 1] == bars.last());
    } else {
        assert(bars[0].high == max_high(bars));
        assert(bars[0].low == min_low(bars));
    }
}

} // verus!
