//! Order-flow aggregation for the live chart: trades accumulate into a volume profile
//! and a buffer; each processed buffer becomes a bubble (the dominant side's volume at
//! its volume-weighted price), a cumulative delta point, and, when heavy one-sided
//! volume fails to move price, an absorption event and updated absorption zones.
//!
//! Prices are in quarter ticks of a point (price times four), the tick grid of index
//! futures. A volume-weighted price is kept exact as a fraction: `price_num / price_den`
//! quarter ticks. Timestamps are milliseconds since the Unix epoch.

use vstd::prelude::*;

use crate::pipeline::keyed::{key_map, keys_sorted, lemma_key_map, lower_bound};
use crate::pipeline::lvn::round_div;
use crate::units::{abs, fits_i64};

verus! {

/// Aggressor side of a trade as the feed reports it.
#[derive(Debug, Clone, Copy, PartialEq, Eq, Structural)]
pub enum FlowSide {
    Buy,
    Sell,
    /// Neither `buy` nor `sell`
    Other,
}

/// A trade: price in quarter ticks, size in contracts.
#[derive(Debug, Clone, Copy, PartialEq, Eq, Structural)]
pub struct FlowTrade {
    pub price: i64,
    pub size: u32,
    pub side: FlowSide,
}

/// Volume traded at a price of the profile.
#[derive(Debug, Clone, Copy, PartialEq, Eq, Structural)]
pub struct ProfileLevel {
    pub buy_volume: u32,
    pub sell_volume: u32,
    pub total_volume: u32,
}

/// Volume and delta of a processed buffer.
#[derive(Debug, Clone, Copy, PartialEq, Eq, Structural)]
pub struct VolumeSnapshot {
    pub timestamp: u64,
    pub volume: u32,
    pub delta: i64,
}

/// Repeated absorption at a price.
#[derive(Debug, Clone, Copy, PartialEq, Eq, Structural)]
pub struct AbsorptionZone {
    /// Price of the first event, `price_num / price_den` quarter ticks
    pub price_num: i128,
    pub price_den: u64,
    /// Buying absorbed (true) or selling absorbed (false), as of the last event
    pub buying: bool,
    pub total_absorbed: i64,
    pub event_count: u32,
    pub first_seen: u64,
    pub last_seen: u64,
    /// Highest strength reached (0 weak, 1 medium, 2 strong, 3 defended); never falls
    pub peak_strength: u8,
}

/// The processing state as a value.
pub struct FlowModel {
    pub buffer: Seq<FlowTrade>,
    pub bubble_counter: u64,
    pub cvd: i64,
    /// Profile entries by price in quarter ticks, in price order
    pub profile: Seq<(i64, ProfileLevel)>,
    pub total_buy_volume: u64,
    pub total_sell_volume: u64,
    pub window_first: Option<i64>,
    pub window_last: Option<i64>,
    pub volume_history: Seq<VolumeSnapshot>,
    /// Zones by price in quarter ticks, in price order
    pub zones: Seq<(i64, AbsorptionZone)>,
    pub cvd_5s_ago: i64,
    pub cvd_history: Seq<(u64, i64)>,
}

/// A zone's price is a bounded fraction with a positive denominator, and it has
/// absorbed a non-negative amount.
pub open spec fn zone_ok(z: AbsorptionZone) -> bool {
    &&& 0 < z.price_den <= u32::MAX
    &&& abs(z.price_num as int) <= 0x1000_0000_0000_0000 * z.price_den
    &&& z.total_absorbed >= 0
}

/// Bound on prices: 2^60 quarter ticks.
pub open spec fn price_ok(p: int) -> bool {
    -0x1000_0000_0000_0000 <= p <= 0x1000_0000_0000_0000
}

/// Total size of trades.
pub open spec fn buffer_volume(trades: Seq<FlowTrade>) -> int
    decreases trades.len(),
{
    if trades.len() == 0 {
        0
    } else {
        buffer_volume(trades.drop_last()) + trades.last().size
    }
}

/// Total volume of profile entries.
pub open spec fn profile_volume(s: Seq<(i64, ProfileLevel)>) -> int
    decreases s.len(),
{
    if s.len() == 0 {
        0
    } else {
        profile_volume(s.drop_last()) + s.last().1.total_volume
    }
}

/// Number of entries whose key is below `k`: in sorted entries, where `k` belongs.
pub open spec fn rank<V>(s: Seq<(i64, V)>, k: i64) -> int
    decreases s.len(),
{
    if s.len() == 0 {
        0
    } else {
        rank(s.drop_last(), k) + if s.last().0 < k {
            1int
        } else {
            0
        }
    }
}

/// The profile level at a price after a trade: the trade's size adds to the total and
/// to its side (a side other than buy counts as selling); a new level takes the size as
/// buy volume for a buy and as sell volume only for a sell.
pub open spec fn level_after(existing: Option<ProfileLevel>, t: FlowTrade) -> ProfileLevel {
    match existing {
        Some(l) => if t.side == FlowSide::Buy {
            ProfileLevel { buy_volume: (l.buy_volume + t.size) as u32, total_volume: (l.total_volume + t.size) as u32, ..l }
        } else {
            ProfileLevel { sell_volume: (l.sell_volume + t.size) as u32, total_volume: (l.total_volume + t.size) as u32, ..l }
        },
        None => ProfileLevel {
            buy_volume: if t.side == FlowSide::Buy { t.size } else { 0 },
            sell_volume: if t.side == FlowSide::Sell { t.size } else { 0 },
            total_volume: t.size,
        },
    }
}

/// The profile entries after a trade at its price.
pub open spec fn profile_after(s: Seq<(i64, ProfileLevel)>, t: FlowTrade) -> Seq<(i64, ProfileLevel)> {
    let j = rank(s, t.price);
    if j < s.len() && s[j].0 == t.price {
        s.update(j, (t.price, level_after(Some(s[j].1), t)))
    } else {
        s.insert(j, (t.price, level_after(None, t)))
    }
}

/// The signed size of a trade: positive for a buy, negative otherwise.
pub open spec fn signed_size(t: FlowTrade) -> int {
    if t.side == FlowSide::Buy {
        t.size as int
    } else {
        -(t.size as int)
    }
}

/// The state after a trade: the cumulative delta and the side totals move, the window's
/// first price is set if unset and its last price is the trade's, the profile takes the
/// trade, and the buffer keeps it.
pub open spec fn after_trade(m: FlowModel, t: FlowTrade) -> FlowModel {
    FlowModel {
        cvd: (m.cvd + signed_size(t)) as i64,
        total_buy_volume: if t.side == FlowSide::Buy { (m.total_buy_volume + t.size) as u64 } else { m.total_buy_volume },
        total_sell_volume: if t.side == FlowSide::Buy { m.total_sell_volume } else { (m.total_sell_volume + t.size) as u64 },
        window_first: if m.window_first is None { Some(t.price) } else { m.window_first },
        window_last: Some(t.price),
        profile: profile_after(m.profile, t),
        buffer: m.buffer.push(t),
        ..m
    }
}

impl FlowModel {
    /// Invariant of the state: entries sorted by price, prices bounded, each level's
    /// sides within its total, and the profile's and buffer's volumes within a `u32`.
    pub open spec fn consistent(self) -> bool {
        &&& keys_sorted(self.profile)
        &&& keys_sorted(self.zones)
        &&& forall|i: int| 0 <= i < self.profile.len() ==> price_ok((#[trigger] self.profile[i]).0 as int)
        &&& forall|i: int| 0 <= i < self.profile.len() ==> (#[trigger] self.profile[i]).1.buy_volume + self.profile[i].1.sell_volume
            <= self.profile[i].1.total_volume
        &&& forall|i: int| 0 <= i < self.zones.len() ==> price_ok((#[trigger] self.zones[i]).0 as int) && zone_ok(self.zones[i].1)
        &&& forall|i: int| 0 <= i < self.buffer.len() ==> price_ok((#[trigger] self.buffer[i]).price as int)
        &&& self.window_first matches Some(p) ==> price_ok(p as int)
        &&& self.window_last matches Some(p) ==> price_ok(p as int)
        &&& profile_volume(self.profile) <= u32::MAX
        &&& buffer_volume(self.buffer) <= profile_volume(self.profile)
    }

    /// Whether a trade keeps every counter within its integer type.
    pub open spec fn accepts(self, t: FlowTrade) -> bool {
        &&& price_ok(t.price as int)
        &&& fits_i64(self.cvd + signed_size(t))
        &&& t.side == FlowSide::Buy ==> self.total_buy_volume + t.size <= u64::MAX
        &&& t.side != FlowSide::Buy ==> self.total_sell_volume + t.size <= u64::MAX
        &&& profile_volume(self.profile) + t.size <= u32::MAX
    }
}

/// Sortedness gives the rank as the boundary between smaller and larger keys.
pub proof fn lemma_rank_boundary<V>(s: Seq<(i64, V)>, k: i64, j: int)
    requires
        0 <= j <= s.len(),
        forall|i: int| 0 <= i < j ==> s[i].0 < k,
        forall|i: int| j <= i < s.len() ==> s[i].0 >= k,
    ensures
        rank(s, k) == j,
    decreases s.len(),
{
    if s.len() > 0 {
        if j == s.len() {
            lemma_rank_boundary(s.drop_last(), k, j - 1);
        } else {
            lemma_rank_boundary(s.drop_last(), k, j);
        }
    }
}

proof fn lemma_profile_volume_update(s: Seq<(i64, ProfileLevel)>, i: int, e: (i64, ProfileLevel))
    requires
        0 <= i < s.len(),
    ensures
        profile_volume(s.update(i, e)) == profile_volume(s) - s[i].1.total_volume + e.1.total_volume,
    decreases s.len(),
{
    if i < s.len() - 1 {
        assert(s.update(i, e).drop_last() =~= s.drop_last().update(i, e));
        lemma_profile_volume_update(s.drop_last(), i, e);
    } else {
        assert(s.update(i, e).drop_last() =~= s.drop_last());
    }
}

proof fn lemma_profile_volume_insert(s: Seq<(i64, ProfileLevel)>, i: int, e: (i64, ProfileLevel))
    requires
        0 <= i <= s.len(),
    ensures
        profile_volume(s.insert(i, e)) == profile_volume(s) + e.1.total_volume,
    decreases s.len(),
{
    if i < s.len() {
        assert(s.insert(i, e).drop_last() =~= s.drop_last().insert(i, e));
        lemma_profile_volume_insert(s.drop_last(), i, e);
    } else {
        assert(s.insert(i, e).drop_last() =~= s);
    }
}

/// The processing state of the live chart.
pub struct ProcessingState {
    trade_buffer: Vec<FlowTrade>,
    bubble_counter: u64,
    cvd: i64,
    /// Levels by price key, sorted by key with no key twice: the value area walks them in
    /// price order, which a hash map's walk does not give
    volume_profile: Vec<(i64, ProfileLevel)>,
    total_buy_volume: u64,
    total_sell_volume: u64,
    window_first_price: Option<i64>,
    window_last_price: Option<i64>,
    volume_history: Vec<VolumeSnapshot>,
    /// Zones by price key, sorted by key with no key twice: zones are updated in place
    /// and pruned, operations that vstd specifies for `Vec` but not for a hash map
    absorption_zones: Vec<(i64, AbsorptionZone)>,
    cvd_5s_ago: i64,
    cvd_history: Vec<(u64, i64)>,
}

impl View for ProcessingState {
    type V = FlowModel;

    closed spec fn view(&self) -> FlowModel {
        FlowModel {
            buffer: self.trade_buffer@,
            bubble_counter: self.bubble_counter,
            cvd: self.cvd,
            profile: self.volume_profile@,
            total_buy_volume: self.total_buy_volume,
            total_sell_volume: self.total_sell_volume,
            window_first: self.window_first_price,
            window_last: self.window_last_price,
            volume_history: self.volume_history@,
            zones: self.absorption_zones@,
            cvd_5s_ago: self.cvd_5s_ago,
            cvd_history: self.cvd_history@,
        }
    }
}

impl ProcessingState {
    /// The state's invariant.
    pub open spec fn wf(&self) -> bool {
        self@.consistent()
    }

    /// An empty state.
    pub fn new() -> (r: ProcessingState)
        ensures
            r.wf(),
            r@ == (FlowModel {
                buffer: Seq::empty(),
                bubble_counter: 0,
                cvd: 0,
                profile: Seq::empty(),
                total_buy_volume: 0,
                total_sell_volume: 0,
                window_first: None,
                window_last: None,
                volume_history: Seq::empty(),
                zones: Seq::empty(),
                cvd_5s_ago: 0,
                cvd_history: Seq::empty(),
            }),
    {
        ProcessingState {
            trade_buffer: Vec::new(),
            bubble_counter: 0,
            cvd: 0,
            volume_profile: Vec::new(),
            total_buy_volume: 0,
            total_sell_volume: 0,
            window_first_price: None,
            window_last_price: None,
            volume_history: Vec::new(),
            absorption_zones: Vec::new(),
            cvd_5s_ago: 0,
            cvd_history: Vec::new(),
        }
    }

    /// Takes a trade (see `after_trade`).
    pub fn add_trade(&mut self, trade: FlowTrade)
        requires
            old(self).wf(),
            old(self)@.accepts(trade),
        ensures
            final(self).wf(),
            final(self)@ == after_trade(old(self)@, trade),
    {
        let ghost m0 = self@;
        if trade.side == FlowSide::Buy {
            self.cvd = self.cvd + trade.size as i64;
            self.total_buy_volume = self.total_buy_volume + trade.size as u64;
        } else {
            self.cvd = self.cvd - trade.size as i64;
            self.total_sell_volume = self.total_sell_volume + trade.size as u64;
        }
        if self.window_first_price.is_none() {
            self.window_first_price = Some(trade.price);
        }
        self.window_last_price = Some(trade.price);
        let key = trade.price;
        let j = lower_bound(&self.volume_profile, key);
        proof {
            lemma_rank_boundary(m0.profile, key, j as int);
        }
        if j < self.volume_profile.len() && self.volume_profile[j].0 == key {
            let old_level = self.volume_profile[j].1;
            proof {
                lemma_entry_within_volume(m0.profile, j as int);
            }
            let level = if trade.side == FlowSide::Buy {
                ProfileLevel {
                    buy_volume: old_level.buy_volume + trade.size,
                    total_volume: old_level.total_volume + trade.size,
                    ..old_level
                }
            } else {
                ProfileLevel {
                    sell_volume: old_level.sell_volume + trade.size,
                    total_volume: old_level.total_volume + trade.size,
                    ..old_level
                }
            };
            self.volume_profile.set(j, (key, level));
            proof {
                lemma_profile_volume_update(m0.profile, j as int, (key, level));
            }
        } else {
            let level = ProfileLevel {
                buy_volume: if trade.side == FlowSide::Buy { trade.size } else { 0 },
                sell_volume: if trade.side == FlowSide::Sell { trade.size } else { 0 },
                total_volume: trade.size,
            };
            self.volume_profile.insert(j, (key, level));
            proof {
                lemma_profile_volume_insert(m0.profile, j as int, (key, level));
                let n = self.volume_profile@;
                assert forall|a: int, b: int| 0 <= a < b < n.len() implies n[a].0 < n[b].0 by {
                    if b < j {
                        assert(n[a] == m0.profile[a] && n[b] == m0.profile[b]);
                    } else if a > j {
                        assert(n[a] == m0.profile[a - 1] && n[b] == m0.profile[b - 1]);
                    } else if a == j {
                        assert(n[b] == m0.profile[b - 1]);
                    } else if b == j {
                        assert(n[a] == m0.profile[a]);
                    } else {
                        assert(n[a] == m0.profile[a] && n[b] == m0.profile[b - 1]);
                    }
                }
            }
        }
        self.trade_buffer.push(trade);
        proof {
            let n = self@;
            assert(n.buffer.drop_last() =~= m0.buffer);
            assert forall|i: int| 0 <= i < n.buffer.len() implies price_ok((#[trigger] n.buffer[i]).price as int) by {
                if i < m0.buffer.len() {
                    assert(n.buffer[i] == m0.buffer[i]);
                }
            }
            assert forall|i: int| 0 <= i < n.profile.len() implies price_ok((#[trigger] n.profile[i]).0 as int)
                && n.profile[i].1.buy_volume + n.profile[i].1.sell_volume <= n.profile[i].1.total_volume by {
                if i < j {
                    assert(n.profile[i] == m0.profile[i]);
                } else if i > j {
                    if n.profile.len() > m0.profile.len() {
                        assert(n.profile[i] == m0.profile[i - 1]);
                    } else {
                        assert(n.profile[i] == m0.profile[i]);
                    }
                }
            }
        }
    }
}

/// Each entry's volume is within the profile's volume.
pub proof fn lemma_entry_within_volume(s: Seq<(i64, ProfileLevel)>, i: int)
    requires
        0 <= i < s.len(),
    ensures
        s[i].1.total_volume <= profile_volume(s),
    decreases s.len(),
{
    lemma_profile_volume_nonneg(s.drop_last());
    if i < s.len() - 1 {
        lemma_entry_within_volume(s.drop_last(), i);
    }
}

pub proof fn lemma_profile_volume_nonneg(s: Seq<(i64, ProfileLevel)>)
    ensures
        profile_volume(s) >= 0,
    decreases s.len(),
{
    if s.len() > 0 {
        lemma_profile_volume_nonneg(s.drop_last());
    }
}


/// `a - b`, or zero when `b` is larger.
pub open spec fn sat_sub(a: u64, b: u64) -> u64 {
    if a >= b {
        (a - b) as u64
    } else {
        0
    }
}

/// How long a zone lives after its last event, by its peak strength: five minutes when
/// weak or medium, fifteen when strong, thirty when defended.
pub open spec fn zone_max_age(peak: u8) -> u64 {
    if peak <= 1 {
        300_000
    } else if peak == 2 {
        900_000
    } else {
        1_800_000
    }
}

/// Whether a zone is still alive at `now`.
pub open spec fn zone_live(z: AbsorptionZone, now: u64) -> bool {
    z.last_seen >= sat_sub(now, zone_max_age(z.peak_strength))
}

/// The zones alive at `now`, in order.
pub open spec fn live_zones(s: Seq<(i64, AbsorptionZone)>, now: u64) -> Seq<(i64, AbsorptionZone)>
    decreases s.len(),
{
    if s.len() == 0 {
        s
    } else {
        let r = live_zones(s.drop_last(), now);
        if zone_live(s.last().1, now) {
            r.push(s.last())
        } else {
            r
        }
    }
}

/// The snapshots taken at or after `cutoff`, in order.
pub open spec fn recent_volumes(h: Seq<VolumeSnapshot>, cutoff: u64) -> Seq<VolumeSnapshot>
    decreases h.len(),
{
    if h.len() == 0 {
        h
    } else {
        let r = recent_volumes(h.drop_last(), cutoff);
        if h.last().timestamp >= cutoff {
            r.push(h.last())
        } else {
            r
        }
    }
}

/// The cumulative delta points taken at or after `cutoff`, in order.
pub open spec fn recent_cvd(h: Seq<(u64, i64)>, cutoff: u64) -> Seq<(u64, i64)>
    decreases h.len(),
{
    if h.len() == 0 {
        h
    } else {
        let r = recent_cvd(h.drop_last(), cutoff);
        if h.last().0 >= cutoff {
            r.push(h.last())
        } else {
            r
        }
    }
}

/// The latest cumulative delta point at or before `target`: of the points with the
/// largest time not after `target`, the last one.
pub open spec fn cvd_at_or_before(h: Seq<(u64, i64)>, target: u64) -> Option<(u64, i64)>
    decreases h.len(),
{
    if h.len() == 0 {
        None
    } else {
        let r = cvd_at_or_before(h.drop_last(), target);
        let e = h.last();
        if e.0 <= target {
            match r {
                None => Some(e),
                Some(b) => if e.0 >= b.0 {
                    Some(e)
                } else {
                    r
                },
            }
        } else {
            r
        }
    }
}

/// Whether the entry is one of the zones.
pub open spec fn zone_in(s: Seq<(i64, AbsorptionZone)>, z: (i64, AbsorptionZone)) -> bool {
    exists|j: int| 0 <= j < s.len() && z == #[trigger] s[j]
}

/// Zones kept sorted and bounded by dropping some.
proof fn lemma_live_zones(s: Seq<(i64, AbsorptionZone)>, now: u64)
    requires
        keys_sorted(s),
        forall|i: int| 0 <= i < s.len() ==> price_ok((#[trigger] s[i]).0 as int),
    ensures
        keys_sorted(live_zones(s, now)),
        forall|i: int| 0 <= i < live_zones(s, now).len() ==> price_ok((#[trigger] live_zones(s, now)[i]).0 as int),
        forall|i: int| 0 <= i < live_zones(s, now).len() ==> zone_in(s, #[trigger] live_zones(s, now)[i]),
    decreases s.len(),
{
    if s.len() > 0 {
        let t = s.drop_last();
        assert forall|i: int| 0 <= i < t.len() implies price_ok((#[trigger] t[i]).0 as int) by {
            assert(t[i] == s[i]);
        }
        lemma_live_zones(t, now);
        let r = live_zones(t, now);
        if zone_live(s.last().1, now) {
            let n = r.push(s.last());
            assert forall|i: int| 0 <= i < n.len() implies zone_in(s, #[trigger] n[i]) by {
                if i < r.len() {
                    assert(zone_in(t, r[i]));
                    let j = choose|j: int| 0 <= j < t.len() && r[i] == #[trigger] t[j];
                    assert(t[j] == s[j]);
                } else {
                    assert(n[i] == s[s.len() - 1]);
                }
            }
            assert forall|a: int, b: int| 0 <= a < b < n.len() implies n[a].0 < n[b].0 by {
                if b < r.len() {
                } else {
                    assert(zone_in(t, r[a]));
                    let j = choose|j: int| 0 <= j < t.len() && r[a] == #[trigger] t[j];
                    assert(t[j] == s[j]);
                    assert(s[j].0 < s[s.len() - 1].0);
                }
            }
            assert forall|i: int| 0 <= i < n.len() implies price_ok((#[trigger] n[i]).0 as int) by {
                if i < r.len() {
                } else {
                    assert(n[i] == s[s.len() - 1]);
                }
            }
        } else {
            assert forall|i: int| 0 <= i < r.len() implies zone_in(s, #[trigger] r[i]) by {
                assert(zone_in(t, r[i]));
                let j = choose|j: int| 0 <= j < t.len() && r[i] == #[trigger] t[j];
                assert(t[j] == s[j]);
            }
        }
    }
}

/// Index of the profile level with the largest volume; of several, the first, which is
/// the lowest price.
pub open spec fn poc_index(s: Seq<(i64, ProfileLevel)>) -> int
    decreases s.len(),
{
    if s.len() <= 1 {
        0
    } else {
        let p = poc_index(s.drop_last());
        if s.last().1.total_volume > s[p].1.total_volume {
            s.len() - 1
        } else {
            p
        }
    }
}

proof fn lemma_poc_index(s: Seq<(i64, ProfileLevel)>)
    requires
        s.len() > 0,
    ensures
        0 <= poc_index(s) < s.len(),
        forall|i: int| 0 <= i < s.len() ==> (#[trigger] s[i]).1.total_volume <= s[poc_index(s)].1.total_volume,
    decreases s.len(),
{
    if s.len() > 1 {
        lemma_poc_index(s.drop_last());
        assert forall|i: int| 0 <= i < s.len() implies (#[trigger] s[i]).1.total_volume <= s[poc_index(s)].1.total_volume by {
            if i < s.len() - 1 {
                assert(s.drop_last()[i] == s[i]);
            }
        }
    }
}

/// Volume of the profile at a price in quarter ticks (zero where nothing traded).
pub open spec fn volume_at(m: Map<i64, ProfileLevel>, k: int) -> int {
    if i64::MIN <= k <= i64::MAX && m.contains_key(k as i64) {
        m[k as i64].total_volume as int
    } else {
        0
    }
}

/// The value area grown from `lo ..= hi` holding `included` volume until it holds
/// `target`: each step takes the next price above or below, the one with more volume
/// (above on a tie), and stops when neither has any. The result is the area's high and
/// low price.
pub open spec fn expand(m: Map<i64, ProfileLevel>, lo: int, hi: int, included: int, target: int) -> (int, int)
    decreases (if included < target { target - included } else { 0 }),
{
    if included >= target {
        (hi, lo)
    } else {
        let above = volume_at(m, hi + 1);
        let below = volume_at(m, lo - 1);
        if above == 0 && below == 0 {
            (hi, lo)
        } else if above >= below {
            expand(m, lo, hi + 1, included + above, target)
        } else {
            expand(m, lo - 1, hi, included + below, target)
        }
    }
}

/// The value area of the profile, high and low price in quarter ticks: grown from the
/// point of control until it holds 70% of the volume (rounded down); none without trades.
pub open spec fn value_area(s: Seq<(i64, ProfileLevel)>) -> Option<(int, int)> {
    if s.len() == 0 {
        None
    } else {
        let p = s[poc_index(s)];
        Some(expand(key_map(s), p.0 as int, p.0 as int, p.1.total_volume as int, profile_volume(s) * 7 / 10))
    }
}

/// Whether the price `num / den` quarter ticks lies within half a point (two quarter
/// ticks) of the price `key`.
pub open spec fn near(num: int, den: int, key: int) -> bool {
    abs(num - key * den) <= 2 * den
}

/// Whether a price `num / den` is at the point of control, the value area high and the
/// value area low of the profile.
pub open spec fn key_level_context(s: Seq<(i64, ProfileLevel)>, num: int, den: int) -> (bool, bool, bool) {
    match value_area(s) {
        None => (false, false, false),
        Some((hi, lo)) => (near(num, den, s[poc_index(s)].0 as int), near(num, den, hi), near(num, den, lo)),
    }
}

fn poc_position(profile: &Vec<(i64, ProfileLevel)>) -> (r: usize)
    requires
        profile@.len() > 0,
    ensures
        r == poc_index(profile@),
{
    let mut best: usize = 0;
    let mut i: usize = 1;
    while i < profile.len()
        invariant
            1 <= i <= profile@.len(),
            best == poc_index(profile@.take(i as int)),
            best < i,
        decreases profile@.len() - i,
    {
        proof {
            assert(profile@.take(i + 1).drop_last() =~= profile@.take(i as int));
            assert(profile@.take(i + 1)[best as int] == profile@[best as int]);
            if i == 1 {
                assert(profile@.take(1).len() == 1);
            }
        }
        if profile[i].1.total_volume > profile[best].1.total_volume {
            best = i;
        }
        i += 1;
    }
    proof {
        assert(profile@.take(i as int) =~= profile@);
    }
    best
}

fn volume_lookup(profile: &Vec<(i64, ProfileLevel)>, key: i64) -> (r: u32)
    requires
        keys_sorted(profile@),
    ensures
        r == volume_at(key_map(profile@), key as int),
{
    proof {
        lemma_key_map(profile@);
    }
    let j = lower_bound(profile, key);
    if j < profile.len() && profile[j].0 == key {
        profile[j].1.total_volume
    } else {
        proof {
            if key_map(profile@).contains_key(key) {
                let x = choose|x: int| 0 <= x < profile@.len() && profile@[x].0 == key;
                if x >= j && x != j {
                    assert(profile@[j as int].0 < profile@[x].0);
                }
            }
        }
        0
    }
}

impl ProcessingState {
    /// The value area of the profile (see `value_area`).
    fn get_value_area(&self) -> (r: Option<(i64, i64)>)
        requires
            self.wf(),
        ensures
            value_area(self@.profile) == (match r {
                None => None,
                Some((hi, lo)) => Some((hi as int, lo as int)),
            }),
            r matches Some((hi, lo)) ==> price_ok(hi as int) && price_ok(lo as int),
    {
        let profile = &self.volume_profile;
        if profile.len() == 0 {
            return None;
        }
        let p = poc_position(profile);
        proof {
            lemma_poc_index(profile@);
        }
        let poc_key = profile[p].0;
        let ghost m = key_map(profile@);
        let ghost target_g = profile_volume(profile@) * 7 / 10;
        let target: u64 = self.profile_total() * 7 / 10;
        let mut included: u64 = profile[p].1.total_volume as u64;
        let mut hi: i64 = poc_key;
        let mut lo: i64 = poc_key;
        proof {
            lemma_key_map(profile@);
        }
        while included < target
            invariant
                keys_sorted(profile@),
                forall|i: int| 0 <= i < profile@.len() ==> price_ok((#[trigger] profile@[i]).0 as int),
                m == key_map(profile@),
                p == poc_index(profile@),
                p < profile@.len(),
                poc_key == profile@[p as int].0,
                target == target_g,
                target <= u32::MAX,
                included <= 2 * 0xffff_ffff,
                m.contains_key(hi) && m.contains_key(lo),
                expand(m, lo as int, hi as int, included as int, target as int) == expand(
                    m,
                    poc_key as int,
                    poc_key as int,
                    profile@[poc_index(profile@)].1.total_volume as int,
                    target_g,
                ),
            ensures
                expand(m, lo as int, hi as int, included as int, target as int) == (hi as int, lo as int),
                expand(m, lo as int, hi as int, included as int, target as int) == expand(
                    m,
                    poc_key as int,
                    poc_key as int,
                    profile@[poc_index(profile@)].1.total_volume as int,
                    target_g,
                ),
            decreases (if included < target { target - included } else { 0 }),
        {
            proof {
                lemma_key_map(profile@);
                let xh = choose|x: int| 0 <= x < profile@.len() && profile@[x].0 == hi;
                let xl = choose|x: int| 0 <= x < profile@.len() && profile@[x].0 == lo;
                assert(price_ok(profile@[xh].0 as int) && price_ok(profile@[xl].0 as int));
            }
            let above = volume_lookup(profile, hi + 1);
            let below = volume_lookup(profile, lo - 1);
            if above == 0 && below == 0 {
                break;
            }
            if above >= below {
                hi = hi + 1;
                included = included + above as u64;
            } else {
                lo = lo - 1;
                included = included + below as u64;
            }
        }
        proof {
            lemma_key_map(profile@);
            let xh = choose|x: int| 0 <= x < profile@.len() && profile@[x].0 == hi;
            let xl = choose|x: int| 0 <= x < profile@.len() && profile@[x].0 == lo;
            assert(price_ok(profile@[xh].0 as int) && price_ok(profile@[xl].0 as int));
        }
        Some((hi, lo))
    }

    /// Total volume of the profile.
    fn profile_total(&self) -> (r: u64)
        requires
            self.wf(),
        ensures
            r == profile_volume(self@.profile),
    {
        let mut total: u64 = 0;
        let mut i: usize = 0;
        while i < self.volume_profile.len()
            invariant
                i <= self.volume_profile@.len(),
                total == profile_volume(self.volume_profile@.take(i as int)),
                profile_volume(self.volume_profile@) <= u32::MAX,
            decreases self.volume_profile@.len() - i,
        {
            proof {
                assert(self.volume_profile@.take(i + 1).drop_last() =~= self.volume_profile@.take(i as int));
                lemma_profile_volume_prefix(self.volume_profile@, i + 1);
            }
            total = total + self.volume_profile[i].1.total_volume as u64;
            i += 1;
        }
        proof {
            assert(self.volume_profile@.take(i as int) =~= self.volume_profile@);
        }
        total
    }
}

proof fn lemma_profile_volume_prefix(s: Seq<(i64, ProfileLevel)>, k: int)
    requires
        0 <= k <= s.len(),
    ensures
        0 <= profile_volume(s.take(k)) <= profile_volume(s),
    decreases s.len(),
{
    lemma_profile_volume_nonneg(s.take(k));
    if k < s.len() {
        assert(s.drop_last().take(k) =~= s.take(k));
        lemma_profile_volume_prefix(s.drop_last(), k);
    } else {
        assert(s.take(k) =~= s);
    }
}


/// Whether a zone entry has prices and counters that a further event cannot overflow.
pub open spec fn zone_within_limits(z: AbsorptionZone) -> bool {
    &&& z.total_absorbed <= i64::MAX - 0x1_0000_0000
    &&& z.total_absorbed >= 0
    &&& z.event_count < u32::MAX
    &&& z.price_den > 0
}

/// Total size of the trades on one side: buys, or everything else.
pub open spec fn side_volume(trades: Seq<FlowTrade>, buy: bool) -> int
    decreases trades.len(),
{
    if trades.len() == 0 {
        0
    } else {
        side_volume(trades.drop_last(), buy) + if (trades.last().side == FlowSide::Buy) == buy {
            trades.last().size as int
        } else {
            0
        }
    }
}

/// Sum of price times size over the trades on one side.
pub open spec fn side_weighted(trades: Seq<FlowTrade>, buy: bool) -> int
    decreases trades.len(),
{
    if trades.len() == 0 {
        0
    } else {
        side_weighted(trades.drop_last(), buy) + if (trades.last().side == FlowSide::Buy) == buy {
            trades.last().price * trades.last().size
        } else {
            0
        }
    }
}

proof fn lemma_side_sums(trades: Seq<FlowTrade>, buy: bool)
    requires
        forall|i: int| 0 <= i < trades.len() ==> price_ok((#[trigger] trades[i]).price as int),
    ensures
        0 <= side_volume(trades, buy),
        side_volume(trades, true) + side_volume(trades, false) == buffer_volume(trades),
        abs(side_weighted(trades, buy)) <= 0x1000_0000_0000_0000 * side_volume(trades, buy),
    decreases trades.len(),
{
    if trades.len() > 0 {
        let t = trades.drop_last();
        assert forall|i: int| 0 <= i < t.len() implies price_ok((#[trigger] t[i]).price as int) by {
            assert(t[i] == trades[i]);
        }
        lemma_side_sums(t, buy);
        lemma_side_sums(t, true);
        lemma_side_sums(t, false);
        let l = trades.last();
        assert(price_ok(l.price as int)) by {
            assert(trades[trades.len() - 1] == l);
        }
        assert(abs(l.price * l.size) <= 0x1000_0000_0000_0000 * l.size) by (nonlinear_arith)
            requires -0x1000_0000_0000_0000 <= l.price <= 0x1000_0000_0000_0000, l.size >= 0;
    }
}

/// The trend of the cumulative delta against which absorption is judged.
pub open spec fn trend_against(buying: bool, trend: int) -> bool {
    (buying && trend > 100) || (!buying && trend < -100)
}

impl ProcessingState {
    /// Drops the zones that expired at `now` (see `live_zones`).
    fn cleanup_old_zones(&mut self, now: u64)
        requires
            old(self).wf(),
        ensures
            final(self).wf(),
            final(self)@ == (FlowModel { zones: live_zones(old(self)@.zones, now), ..old(self)@ }),
            forall|i: int| 0 <= i < final(self)@.zones.len() ==> zone_in(old(self)@.zones, #[trigger] final(self)@.zones[i]),
    {
        let mut kept: Vec<(i64, AbsorptionZone)> = Vec::new();
        let mut i: usize = 0;
        while i < self.absorption_zones.len()
            invariant
                i <= self.absorption_zones@.len(),
                kept@ == live_zones(self.absorption_zones@.take(i as int), now),
            decreases self.absorption_zones@.len() - i,
        {
            proof {
                assert(self.absorption_zones@.take(i + 1).drop_last() =~= self.absorption_zones@.take(i as int));
            }
            let (key, zone) = self.absorption_zones[i];
            let max_age: u64 = if zone.peak_strength <= 1 {
                300_000
            } else if zone.peak_strength == 2 {
                900_000
            } else {
                1_800_000
            };
            let cutoff: u64 = if now >= max_age { now - max_age } else { 0 };
            if zone.last_seen >= cutoff {
                kept.push((key, zone));
            }
            i += 1;
        }
        proof {
            assert(self.absorption_zones@.take(i as int) =~= self.absorption_zones@);
            lemma_live_zones(self.absorption_zones@, now);
            let old_zones = self.absorption_zones@;
            assert forall|k: int| 0 <= k < kept@.len() implies price_ok((#[trigger] kept@[k]).0 as int) && zone_ok(kept@[k].1) by {
                assert(zone_in(old_zones, kept@[k]));
                let j = choose|j: int| 0 <= j < old_zones.len() && kept@[k] == #[trigger] old_zones[j];
                assert(zone_ok(old_zones[j].1));
            }
        }
        self.absorption_zones = kept;
    }

    /// Drops the volume snapshots older than a minute.
    fn cleanup_volume_history(&mut self, now: u64)
        requires
            old(self).wf(),
        ensures
            final(self).wf(),
            final(self)@ == (FlowModel { volume_history: recent_volumes(old(self)@.volume_history, sat_sub(now, 60_000)), ..old(self)@ }),
    {
        let cutoff: u64 = if now >= 60_000 { now - 60_000 } else { 0 };
        let mut kept: Vec<VolumeSnapshot> = Vec::new();
        let mut i: usize = 0;
        while i < self.volume_history.len()
            invariant
                i <= self.volume_history@.len(),
                kept@ == recent_volumes(self.volume_history@.take(i as int), cutoff),
            decreases self.volume_history@.len() - i,
        {
            proof {
                assert(self.volume_history@.take(i + 1).drop_last() =~= self.volume_history@.take(i as int));
            }
            let snap = self.volume_history[i];
            if snap.timestamp >= cutoff {
                kept.push(snap);
            }
            i += 1;
        }
        proof {
            assert(self.volume_history@.take(i as int) =~= self.volume_history@);
        }
        self.volume_history = kept;
    }

    /// Drops the delta points older than thirty seconds, and takes as the delta of five
    /// seconds ago the latest remaining point at least five seconds old (the current delta
    /// when there is none).
    fn cleanup_cvd_history(&mut self, now: u64)
        requires
            old(self).wf(),
        ensures
            final(self).wf(),
            final(self)@ == (FlowModel {
                cvd_history: recent_cvd(old(self)@.cvd_history, sat_sub(now, 30_000)),
                cvd_5s_ago: match cvd_at_or_before(recent_cvd(old(self)@.cvd_history, sat_sub(now, 30_000)), sat_sub(now, 5_000)) {
                    Some(e) => e.1,
                    None => old(self)@.cvd,
                },
                ..old(self)@
            }),
    {
        let cutoff: u64 = if now >= 30_000 { now - 30_000 } else { 0 };
        let mut kept: Vec<(u64, i64)> = Vec::new();
        let mut i: usize = 0;
        while i < self.cvd_history.len()
            invariant
                i <= self.cvd_history@.len(),
                kept@ == recent_cvd(self.cvd_history@.take(i as int), cutoff),
            decreases self.cvd_history@.len() - i,
        {
            proof {
                assert(self.cvd_history@.take(i + 1).drop_last() =~= self.cvd_history@.take(i as int));
            }
            let point = self.cvd_history[i];
            if point.0 >= cutoff {
                kept.push(point);
            }
            i += 1;
        }
        proof {
            assert(self.cvd_history@.take(i as int) =~= self.cvd_history@);
        }
        let target: u64 = if now >= 5_000 { now - 5_000 } else { 0 };
        let mut best: Option<(u64, i64)> = None;
        let mut j: usize = 0;
        while j < kept.len()
            invariant
                j <= kept@.len(),
                best == cvd_at_or_before(kept@.take(j as int), target),
            decreases kept@.len() - j,
        {
            proof {
                assert(kept@.take(j + 1).drop_last() =~= kept@.take(j as int));
            }
            let e = kept[j];
            if e.0 <= target {
                best = match best {
                    None => Some(e),
                    Some(b) => if e.0 >= b.0 {
                        Some(e)
                    } else {
                        Some(b)
                    },
                };
            }
            j += 1;
        }
        proof {
            assert(kept@.take(j as int) =~= kept@);
        }
        self.cvd_5s_ago = match best {
            Some(e) => e.1,
            None => self.cvd,
        };
        self.cvd_history = kept;
    }

    /// Whether a price `num / den` is at the point of control, the value area high and the
    /// value area low (see `key_level_context`).
    fn is_at_key_level(&self, num: i128, den: u64) -> (r: (bool, bool, bool))
        requires
            self.wf(),
            0 < den <= u32::MAX,
            abs(num as int) <= 0x1000_0000_0000_0000 * den,
        ensures
            r == key_level_context(self@.profile, num as int, den as int),
    {
        match self.get_value_area() {
            None => (false, false, false),
            Some((hi, lo)) => {
                let p = poc_position(&self.volume_profile);
                proof {
                    lemma_poc_index(self.volume_profile@);
                    assert(price_ok(self.volume_profile@[p as int].0 as int));
                }
                let poc = self.volume_profile[p].0;
                (near_exec(num, den, poc), near_exec(num, den, hi), near_exec(num, den, lo))
            },
        }
    }
}

/// Whether `num / den` lies within two quarter ticks of `key` (see `near`).
fn near_exec(num: i128, den: u64, key: i64) -> (r: bool)
    requires
        0 < den <= u32::MAX,
        abs(num as int) <= 0x1000_0000_0000_0000 * den,
        price_ok(key as int),
    ensures
        r == near(num as int, den as int, key as int),
{
    proof {
        assert(abs(key * den) <= 0x1000_0000_0000_0000 * den) by (nonlinear_arith)
            requires price_ok(key as int), den > 0;
        assert(0x1000_0000_0000_0000 * den <= 0x1000_0000_0000_0000 * 0xffff_ffff) by (nonlinear_arith)
            requires den <= 0xffff_ffff;
    }
    let d: i128 = num - key as i128 * den as i128;
    let a: i128 = if d < 0 { -d } else { d };
    a <= 2 * den as i128
}

/// Sizes and price-weighted sums of the buffer's buying and selling.
fn aggregate(trades: &Vec<FlowTrade>) -> (r: (u64, u64, i128, i128))
    requires
        forall|i: int| 0 <= i < trades@.len() ==> price_ok((#[trigger] trades@[i]).price as int),
        buffer_volume(trades@) <= u32::MAX,
    ensures
        r.0 == side_volume(trades@, true),
        r.1 == side_volume(trades@, false),
        r.2 == side_weighted(trades@, true),
        r.3 == side_weighted(trades@, false),
{
    let mut buy: u64 = 0;
    let mut sell: u64 = 0;
    let mut buy_w: i128 = 0;
    let mut sell_w: i128 = 0;
    let mut i: usize = 0;
    while i < trades.len()
        invariant
            i <= trades@.len(),
            forall|k: int| 0 <= k < trades@.len() ==> price_ok((#[trigger] trades@[k]).price as int),
            buffer_volume(trades@) <= u32::MAX,
            buy == side_volume(trades@.take(i as int), true),
            sell == side_volume(trades@.take(i as int), false),
            buy_w == side_weighted(trades@.take(i as int), true),
            sell_w == side_weighted(trades@.take(i as int), false),
        decreases trades@.len() - i,
    {
        let ghost pre = trades@.take(i as int);
        let ghost next = trades@.take(i + 1);
        proof {
            assert(next.drop_last() =~= pre);
            assert forall|k: int| 0 <= k < next.len() implies price_ok((#[trigger] next[k]).price as int) by {
                assert(next[k] == trades@[k]);
            }
            lemma_side_sums(next, true);
            lemma_side_sums(next, false);
            lemma_buffer_volume_prefix(trades@, i + 1);
            assert(0x1000_0000_0000_0000 * side_volume(next, true) <= 0x1000_0000_0000_0000 * 0xffff_ffff) by (nonlinear_arith)
                requires side_volume(next, true) <= 0xffff_ffff;
            assert(0x1000_0000_0000_0000 * side_volume(next, false) <= 0x1000_0000_0000_0000 * 0xffff_ffff) by (nonlinear_arith)
                requires side_volume(next, false) <= 0xffff_ffff;
        }
        let t = trades[i];
        proof {
            assert(price_ok(trades@[i as int].price as int));
            assert(-0x1000_0000_0000_0000 * 0x1_0000_0000 <= t.price * t.size <= 0x1000_0000_0000_0000 * 0x1_0000_0000) by (nonlinear_arith)
                requires price_ok(t.price as int), 0 <= t.size <= 0xffff_ffff;
        }
        let w: i128 = t.price as i128 * t.size as i128;
        if t.side == FlowSide::Buy {
            buy = buy + t.size as u64;
            buy_w = buy_w + w;
        } else {
            sell = sell + t.size as u64;
            sell_w = sell_w + w;
        }
        i += 1;
    }
    proof {
        assert(trades@.take(i as int) =~= trades@);
    }
    (buy, sell, buy_w, sell_w)
}

proof fn lemma_buffer_volume_prefix(s: Seq<FlowTrade>, k: int)
    requires
        0 <= k <= s.len(),
    ensures
        0 <= buffer_volume(s.take(k)) <= buffer_volume(s),
    decreases s.len(),
{
    lemma_buffer_volume_nonneg(s.take(k));
    if k < s.len() {
        assert(s.drop_last().take(k) =~= s.take(k));
        lemma_buffer_volume_prefix(s.drop_last(), k);
    } else {
        assert(s.take(k) =~= s);
    }
}

proof fn lemma_buffer_volume_nonneg(s: Seq<FlowTrade>)
    ensures
        buffer_volume(s) >= 0,
    decreases s.len(),
{
    if s.len() > 0 {
        lemma_buffer_volume_nonneg(s.drop_last());
    }
}


/// A bubble of the chart: the dominant side's volume at its volume-weighted price
/// (`price_num / price_den` quarter ticks).
#[derive(Debug, Clone, Copy, PartialEq, Eq, Structural)]
pub struct Bubble {
    /// Sequence number of the bubble
    pub id: u64,
    pub price_num: i128,
    pub price_den: u64,
    /// Volume of the dominant side
    pub size: u32,
    /// Buying dominated (delta above zero); selling otherwise
    pub is_buy: bool,
    pub timestamp: u64,
    /// The imbalance is more than 15% of the volume
    pub significant: bool,
}

/// A point of the cumulative delta line.
#[derive(Debug, Clone, Copy, PartialEq, Eq, Structural)]
pub struct CvdPoint {
    pub timestamp: u64,
    pub value: i64,
}

/// Heavy one-sided volume that did not move price.
#[derive(Debug, Clone, Copy, PartialEq, Eq, Structural)]
pub struct AbsorptionEvent {
    pub timestamp: u64,
    pub price_num: i128,
    pub price_den: u64,
    /// Buying absorbed (true) or selling absorbed (false)
    pub buying: bool,
    pub delta: i64,
    /// Price change over the buffer, quarter ticks
    pub price_change: i64,
    /// 0 weak, 1 medium, 2 strong, 3 defended
    pub strength: u8,
    pub event_count: u32,
    pub total_absorbed: i64,
    pub at_key_level: bool,
    pub against_trend: bool,
}

/// An absorption zone as reported to the chart.
#[derive(Debug, Clone, Copy, PartialEq, Eq, Structural)]
pub struct ZoneReport {
    pub price_num: i128,
    pub price_den: u64,
    pub buying: bool,
    pub total_absorbed: i64,
    pub event_count: u32,
    pub first_seen: u64,
    pub last_seen: u64,
    /// The zone's peak strength
    pub strength: u8,
    pub at_poc: bool,
    pub at_vah: bool,
    pub at_val: bool,
    pub against_trend: bool,
}

/// What a processed buffer sends to the chart, in this order: the bubble, the delta
/// point, the absorption event if any, and the zones with two or more events if any.
#[derive(Debug)]
pub struct BufferOutput {
    pub bubble: Bubble,
    pub cvd_point: CvdPoint,
    pub absorption: Option<AbsorptionEvent>,
    pub zones: Vec<ZoneReport>,
}

/// Name of a strength: weak, medium, strong or defended.
pub fn strength_label(strength: u8) -> (r: &'static str)
    ensures
        strength == 0 ==> r@ == "weak"@,
        strength == 1 ==> r@ == "medium"@,
        strength == 2 ==> r@ == "strong"@,
        strength >= 3 ==> r@ == "defended"@,
{
    match strength {
        0 => "weak",
        1 => "medium",
        2 => "strong",
        _ => "defended",
    }
}

/// Strength of absorption after `count` events at a price: one step per event beyond the
/// first (up to three), one more at a key level and one more against the trend; capped at
/// defended.
pub open spec fn strength_of(count: u32, at_key: bool, against: bool) -> u8 {
    let base: int = if count == 1 {
        0
    } else if count == 2 {
        1
    } else if count == 3 {
        2
    } else {
        3
    };
    let total = base + (if at_key { 1int } else { 0 }) + (if against { 1int } else { 0 });
    if total >= 3 {
        3
    } else {
        total as u8
    }
}

/// Total volume of snapshots.
pub open spec fn snapshots_volume(h: Seq<VolumeSnapshot>) -> int
    decreases h.len(),
{
    if h.len() == 0 {
        0
    } else {
        snapshots_volume(h.drop_last()) + h.last().volume
    }
}

/// The least absolute delta that counts as absorption: 40% of the volume per second over
/// the last thirty seconds, at least 20 (80 when there was no volume: a baseline of 200
/// per second); rounded down.
pub open spec fn delta_threshold(h: Seq<VolumeSnapshot>, later: u64) -> int {
    let recent = recent_volumes(h, sat_sub(later, 30_000));
    if recent.len() == 0 {
        80
    } else {
        let v = snapshots_volume(recent) / 75;
        if v > 20 {
            v
        } else {
            20
        }
    }
}

/// The zone stored at a price, if any.
pub open spec fn zone_at(s: Seq<(i64, AbsorptionZone)>, key: i64) -> Option<AbsorptionZone> {
    let j = rank(s, key);
    if j < s.len() && s[j].0 == key {
        Some(s[j].1)
    } else {
        None
    }
}

/// The zones with the zone at a price set.
pub open spec fn upsert_zone(s: Seq<(i64, AbsorptionZone)>, key: i64, z: AbsorptionZone) -> Seq<(i64, AbsorptionZone)> {
    let j = rank(s, key);
    if j < s.len() && s[j].0 == key {
        s.update(j, (key, z))
    } else {
        s.insert(j, (key, z))
    }
}

/// The zones and the absorption event after a buffer with volume-weighted price
/// `num / den` and `delta`, with the state `m` (after the buffer's snapshots were taken).
/// Absorption is a delta of at least the threshold that moved price at most a quarter
/// tick its way (from the first to the last trade of the window): buying when the delta
/// is positive, selling when negative. It adds to the zone at its price rounded to the
/// quarter tick (a new zone starts at the event's price); the event is reported when its
/// strength is above weak, or on a zone's first event at a key level.
pub open spec fn absorption_step(m: FlowModel, num: int, den: int, delta: int, now: u64, later: u64) -> (
    Seq<(i64, AbsorptionZone)>,
    Option<AbsorptionEvent>,
) {
    match (m.window_first, m.window_last) {
        (Some(first), Some(last)) => {
            let change = last - first;
            let ad = abs(delta);
            if ad < delta_threshold(m.volume_history, later) {
                (m.zones, None)
            } else {
                let buying = delta > 0 && change <= 1;
                let selling = delta < 0 && change >= -1;
                if !(buying || selling) {
                    (m.zones, None)
                } else {
                    let key = round_div(num, den) as i64;
                    let (at_poc, at_vah, at_val) = key_level_context(m.profile, num, den);
                    let at_key = at_poc || at_vah || at_val;
                    let against = trend_against(buying, m.cvd - m.cvd_5s_ago);
                    let z0 = match zone_at(m.zones, key) {
                        Some(z) => z,
                        None => AbsorptionZone {
                            price_num: num as i128,
                            price_den: den as u64,
                            buying,
                            total_absorbed: 0,
                            event_count: 0,
                            first_seen: now,
                            last_seen: now,
                            peak_strength: 0,
                        },
                    };
                    let count = (z0.event_count + 1) as u32;
                    let total = (z0.total_absorbed + ad) as i64;
                    let st = strength_of(count, at_key, against);
                    let z = AbsorptionZone {
                        total_absorbed: total,
                        event_count: count,
                        last_seen: now,
                        buying,
                        peak_strength: if st > z0.peak_strength { st } else { z0.peak_strength },
                        ..z0
                    };
                    let event = if st != 0 || (count == 1 && at_key) {
                        Some(AbsorptionEvent {
                            timestamp: now,
                            price_num: num as i128,
                            price_den: den as u64,
                            buying,
                            delta: delta as i64,
                            price_change: change as i64,
                            strength: st,
                            event_count: count,
                            total_absorbed: total,
                            at_key_level: at_key,
                            against_trend: against,
                        })
                    } else {
                        None
                    };
                    (upsert_zone(m.zones, key, z), event)
                }
            }
        },
        _ => (m.zones, None),
    }
}

/// The report of a zone: its peak strength, its key-level context, and whether its
/// absorption runs against the trend.
pub open spec fn zone_report(z: AbsorptionZone, profile: Seq<(i64, ProfileLevel)>, trend: int) -> ZoneReport {
    let (at_poc, at_vah, at_val) = key_level_context(profile, z.price_num as int, z.price_den as int);
    ZoneReport {
        price_num: z.price_num,
        price_den: z.price_den,
        buying: z.buying,
        total_absorbed: z.total_absorbed,
        event_count: z.event_count,
        first_seen: z.first_seen,
        last_seen: z.last_seen,
        strength: z.peak_strength,
        at_poc,
        at_vah,
        at_val,
        against_trend: trend_against(z.buying, trend),
    }
}

/// The reports of the zones with at least two events, in price order.
pub open spec fn zone_reports(zs: Seq<(i64, AbsorptionZone)>, profile: Seq<(i64, ProfileLevel)>, trend: int) -> Seq<ZoneReport>
    decreases zs.len(),
{
    if zs.len() == 0 {
        Seq::empty()
    } else {
        let r = zone_reports(zs.drop_last(), profile, trend);
        if zs.last().1.event_count >= 2 {
            r.push(zone_report(zs.last().1, profile, trend))
        } else {
            r
        }
    }
}

/// What a processed buffer sends, as a value.
pub struct OutputModel {
    pub bubble: Bubble,
    pub cvd_point: CvdPoint,
    pub absorption: Option<AbsorptionEvent>,
    pub zones: Seq<ZoneReport>,
}

/// What a processed buffer sent, as a value.
pub open spec fn output_model(r: &Option<BufferOutput>) -> Option<OutputModel> {
    match r {
        None => None,
        Some(o) => Some(OutputModel { bubble: o.bubble, cvd_point: o.cvd_point, absorption: o.absorption, zones: o.zones@ }),
    }
}

/// The state after processing the buffer at `now` (with `later` the time at which the
/// recent volume is read), and what is sent. With an empty buffer nothing changes.
/// Otherwise expired zones, snapshots older than a minute and delta points older than
/// thirty seconds are dropped and the delta of five seconds ago is updated; a buffer
/// without volume is then just cleared. Otherwise: the dominant side is buying when the
/// delta is positive, selling otherwise; the bubble takes its volume at its
/// volume-weighted price; a snapshot and a delta point are recorded; absorption is
/// checked (see `absorption_step`); the zones with two or more events are reported; and
/// the window and the buffer start over.
pub open spec fn buffer_outcome(m: FlowModel, now: u64, later: u64) -> (FlowModel, Option<OutputModel>) {
    if m.buffer.len() == 0 {
        (m, None)
    } else {
        let zones1 = live_zones(m.zones, now);
        let vh1 = recent_volumes(m.volume_history, sat_sub(now, 60_000));
        let ch1 = recent_cvd(m.cvd_history, sat_sub(now, 30_000));
        let c5 = match cvd_at_or_before(ch1, sat_sub(now, 5_000)) {
            Some(e) => e.1,
            None => m.cvd,
        };
        let buy = side_volume(m.buffer, true);
        let sell = side_volume(m.buffer, false);
        let total = buy + sell;
        let m1 = FlowModel { zones: zones1, volume_history: vh1, cvd_history: ch1, cvd_5s_ago: c5, ..m };
        if total == 0 {
            (FlowModel { buffer: Seq::empty(), ..m1 }, None)
        } else {
            let delta = buy - sell;
            let dominant_buy = delta > 0;
            let den = if dominant_buy { buy } else { sell };
            let num = side_weighted(m.buffer, dominant_buy);
            let m2 = FlowModel {
                volume_history: vh1.push(VolumeSnapshot { timestamp: now, volume: total as u32, delta: delta as i64 }),
                cvd_history: ch1.push((now, m.cvd)),
                bubble_counter: (m.bubble_counter + 1) as u64,
                ..m1
            };
            let (zones2, event) = absorption_step(m2, num, den, delta, now, later);
            let out = OutputModel {
                bubble: Bubble {
                    id: m.bubble_counter,
                    price_num: num as i128,
                    price_den: den as u64,
                    size: den as u32,
                    is_buy: dominant_buy,
                    timestamp: now,
                    significant: abs(delta) * 100 > 15 * total,
                },
                cvd_point: CvdPoint { timestamp: now, value: m.cvd },
                absorption: event,
                zones: zone_reports(zones2, m.profile, m.cvd - c5),
            };
            (FlowModel { zones: zones2, window_first: None, window_last: None, buffer: Seq::empty(), ..m2 }, Some(out))
        }
    }
}


/// Whether every zone can take one more event without overflow.
pub open spec fn limits_ok(m: FlowModel) -> bool {
    forall|i: int| 0 <= i < m.zones.len() ==> (#[trigger] m.zones[i]).1.total_absorbed <= i64::MAX - 0x1_0000_0000
        && m.zones[i].1.event_count < u32::MAX
}

/// `num / den` rounded to the nearest integer, halves away from zero.
fn round_quarter(num: i128, den: u64) -> (r: i64)
    requires
        0 < den <= u32::MAX,
        abs(num as int) <= 0x1000_0000_0000_0000 * den,
    ensures
        r == round_div(num as int, den as int),
        price_ok(r as int),
{
    let d = den as i128;
    if num >= 0 {
        proof {
            assert((num + (d as int) / 2) / (d as int) <= 0x1000_0000_0000_0000) by (nonlinear_arith)
                requires num <= 0x1000_0000_0000_0000 * d, d > 0, num >= 0;
            assert((num + (d as int) / 2) / (d as int) >= 0) by (nonlinear_arith)
                requires num >= 0, d > 0;
        }
        ((num + d / 2) / d) as i64
    } else {
        let m = -num;
        proof {
            assert((m + (d as int) / 2) / (d as int) <= 0x1000_0000_0000_0000) by (nonlinear_arith)
                requires m <= 0x1000_0000_0000_0000 * d, d > 0, m > 0;
            assert((m + (d as int) / 2) / (d as int) >= 0) by (nonlinear_arith)
                requires m > 0, d > 0;
        }
        (-((m + d / 2) / d)) as i64
    }
}

/// Strength of absorption (see `strength_of`).
fn strength(count: u32, at_key: bool, against: bool) -> (r: u8)
    ensures
        r == strength_of(count, at_key, against),
{
    let base: u8 = if count == 1 {
        0
    } else if count == 2 {
        1
    } else if count == 3 {
        2
    } else {
        3
    };
    let total: u8 = base + if at_key { 1 } else { 0 } + if against { 1 } else { 0 };
    if total >= 3 {
        3
    } else {
        total
    }
}

proof fn lemma_snapshots_volume_prefix(h: Seq<VolumeSnapshot>, k: int)
    requires
        0 <= k <= h.len(),
    ensures
        0 <= snapshots_volume(h.take(k)) <= snapshots_volume(h),
        snapshots_volume(h) <= h.len() * 0xffff_ffff,
    decreases h.len(),
{
    if h.len() > 0 {
        if k < h.len() {
            assert(h.drop_last().take(k) =~= h.take(k));
            lemma_snapshots_volume_prefix(h.drop_last(), k);
        } else {
            assert(h.take(k) =~= h);
            lemma_snapshots_volume_prefix(h.drop_last(), k - 1);
        }
    }
}

impl ProcessingState {
    /// Whether every zone can take one more event without overflow (see `limits_ok`).
    pub fn within_limits(&self) -> (r: bool)
        ensures
            r == limits_ok(self@),
    {
        let mut i: usize = 0;
        while i < self.absorption_zones.len()
            invariant
                i <= self.absorption_zones@.len(),
                forall|k: int| 0 <= k < i ==> (#[trigger] self.absorption_zones@[k]).1.total_absorbed <= i64::MAX - 0x1_0000_0000
                    && self.absorption_zones@[k].1.event_count < u32::MAX,
            decreases self.absorption_zones@.len() - i,
        {
            let z = self.absorption_zones[i].1;
            if z.total_absorbed > i64::MAX - 0x1_0000_0000 || z.event_count == u32::MAX {
                proof {
                    assert(!(self@.zones[i as int].1.total_absorbed <= i64::MAX - 0x1_0000_0000 && self@.zones[i as int].1.event_count
                        < u32::MAX));
                }
                return false;
            }
            i += 1;
        }
        true
    }

    /// The least absolute delta that counts as absorption at `later` (see `delta_threshold`).
    fn absorption_threshold(&self, later: u64) -> (r: i128)
        ensures
            r == delta_threshold(self@.volume_history, later),
    {
        let cutoff: u64 = if later >= 30_000 { later - 30_000 } else { 0 };
        let ghost h = self.volume_history@;
        let mut count: usize = 0;
        let mut total: u128 = 0;
        let ghost mut recent: Seq<VolumeSnapshot> = Seq::empty();
        let mut i: usize = 0;
        while i < self.volume_history.len()
            invariant
                i <= h.len(),
                h == self.volume_history@,
                recent == recent_volumes(h.take(i as int), cutoff),
                count == recent.len(),
                total == snapshots_volume(recent),
                recent.len() <= i,
            decreases h.len() - i,
        {
            proof {
                assert(h.take(i + 1).drop_last() =~= h.take(i as int));
                lemma_snapshots_volume_prefix(recent, recent.len() as int);
                assert(recent.len() * 0xffff_ffff <= 0xffff_ffff_ffff_ffff * 0xffff_ffff) by (nonlinear_arith)
                    requires recent.len() <= 0xffff_ffff_ffff_ffff;
            }
            let snap = self.volume_history[i];
            if snap.timestamp >= cutoff {
                proof {
                    assert(recent.push(snap).drop_last() =~= recent);
                    recent = recent.push(snap);
                }
                count = count + 1;
                total = total + snap.volume as u128;
            }
            i += 1;
        }
        proof {
            assert(h.take(i as int) =~= h);
        }
        if count == 0 {
            80
        } else {
            proof {
                lemma_snapshots_volume_prefix(recent, recent.len() as int);
                assert(recent.len() * 0xffff_ffff <= 0xffff_ffff_ffff_ffff * 0xffff_ffff) by (nonlinear_arith)
                    requires recent.len() <= 0xffff_ffff_ffff_ffff;
            }
            let v = total / 75;
            if v > 20 {
                v as i128
            } else {
                20
            }
        }
    }

    /// Checks the buffer for absorption and updates the zones (see `absorption_step`).
    fn absorb(&mut self, num: i128, den: u64, delta: i64, now: u64, later: u64) -> (r: Option<AbsorptionEvent>)
        requires
            old(self).wf(),
            limits_ok(old(self)@),
            0 < den <= u32::MAX,
            abs(num as int) <= 0x1000_0000_0000_0000 * den,
            abs(delta as int) <= u32::MAX,
        ensures
            final(self).wf(),
            (final(self)@.zones, r) == absorption_step(old(self)@, num as int, den as int, delta as int, now, later),
            final(self)@ == (FlowModel { zones: final(self)@.zones, ..old(self)@ }),
    {
        let (first, last) = match (self.window_first_price, self.window_last_price) {
            (Some(f), Some(l)) => (f, l),
            _ => return None,
        };
        let change: i64 = last - first;
        let ad: i64 = if delta < 0 { -delta } else { delta };
        if (ad as i128) < self.absorption_threshold(later) {
            return None;
        }
        let buying = delta > 0 && change <= 1;
        let selling = delta < 0 && change >= -1;
        if !(buying || selling) {
            return None;
        }
        let key = round_quarter(num, den);
        let (at_poc, at_vah, at_val) = self.is_at_key_level(num, den);
        let at_key = at_poc || at_vah || at_val;
        proof {
            assert(fits_i64(self.cvd - self.cvd_5s_ago) || true);
        }
        let trend: i128 = self.cvd as i128 - self.cvd_5s_ago as i128;
        let against = (buying && trend > 100) || (!buying && trend < -100);
        let ghost z_old = self@.zones;
        let j = lower_bound(&self.absorption_zones, key);
        proof {
            lemma_rank_boundary(z_old, key, j as int);
        }
        let exists = j < self.absorption_zones.len() && self.absorption_zones[j].0 == key;
        let z0 = if exists {
            self.absorption_zones[j].1
        } else {
            AbsorptionZone {
                price_num: num,
                price_den: den,
                buying,
                total_absorbed: 0,
                event_count: 0,
                first_seen: now,
                last_seen: now,
                peak_strength: 0,
            }
        };
        proof {
            if exists {
                assert(z_old[j as int].1.total_absorbed <= i64::MAX - 0x1_0000_0000);
                assert(zone_ok(z_old[j as int].1));
            }
        }
        let count = z0.event_count + 1;
        let total = z0.total_absorbed + ad;
        let st = strength(count, at_key, against);
        let z = AbsorptionZone {
            total_absorbed: total,
            event_count: count,
            last_seen: now,
            buying,
            peak_strength: if st > z0.peak_strength { st } else { z0.peak_strength },
            ..z0
        };
        if exists {
            self.absorption_zones.set(j, (key, z));
        } else {
            self.absorption_zones.insert(j, (key, z));
            proof {
                let n = self.absorption_zones@;
                assert forall|a: int, b: int| 0 <= a < b < n.len() implies n[a].0 < n[b].0 by {
                    if b < j {
                        assert(n[a] == z_old[a] && n[b] == z_old[b]);
                    } else if a > j {
                        assert(n[a] == z_old[a - 1] && n[b] == z_old[b - 1]);
                    } else if a == j {
                        assert(n[b] == z_old[b - 1]);
                    } else if b == j {
                        assert(n[a] == z_old[a]);
                    } else {
                        assert(n[a] == z_old[a] && n[b] == z_old[b - 1]);
                    }
                }
            }
        }
        proof {
            let n = self.absorption_zones@;
            assert forall|i: int| 0 <= i < n.len() implies price_ok((#[trigger] n[i]).0 as int) && zone_ok(n[i].1) by {
                if i < j {
                    assert(n[i] == z_old[i]);
                } else if i > j {
                    if exists {
                        assert(n[i] == z_old[i]);
                    } else {
                        assert(n[i] == z_old[i - 1]);
                    }
                }
            }
        }
        if st != 0 || (count == 1 && at_key) {
            Some(AbsorptionEvent {
                timestamp: now,
                price_num: num,
                price_den: den,
                buying,
                delta,
                price_change: change,
                strength: st,
                event_count: count,
                total_absorbed: total,
                at_key_level: at_key,
                against_trend: against,
            })
        } else {
            None
        }
    }

    /// Reports of the zones with at least two events (see `zone_reports`).
    fn zone_reports_now(&self, trend: i128) -> (r: Vec<ZoneReport>)
        requires
            self.wf(),
        ensures
            r@ == zone_reports(self@.zones, self@.profile, trend as int),
    {
        let mut out: Vec<ZoneReport> = Vec::new();
        let mut i: usize = 0;
        while i < self.absorption_zones.len()
            invariant
                self.wf(),
                i <= self.absorption_zones@.len(),
                out@ == zone_reports(self.absorption_zones@.take(i as int), self@.profile, trend as int),
            decreases self.absorption_zones@.len() - i,
        {
            proof {
                assert(self.absorption_zones@.take(i + 1).drop_last() =~= self.absorption_zones@.take(i as int));
                assert(zone_ok(self.absorption_zones@[i as int].1));
            }
            let z = self.absorption_zones[i].1;
            if z.event_count >= 2 {
                let (at_poc, at_vah, at_val) = self.is_at_key_level(z.price_num, z.price_den);
                out.push(ZoneReport {
                    price_num: z.price_num,
                    price_den: z.price_den,
                    buying: z.buying,
                    total_absorbed: z.total_absorbed,
                    event_count: z.event_count,
                    first_seen: z.first_seen,
                    last_seen: z.last_seen,
                    strength: z.peak_strength,
                    at_poc,
                    at_vah,
                    at_val,
                    against_trend: (z.buying && trend > 100) || (!z.buying && trend < -100),
                });
            }
            i += 1;
        }
        proof {
            assert(self.absorption_zones@.take(i as int) =~= self.absorption_zones@);
        }
        out
    }
}


impl ProcessingState {
    /// Processes the buffer at `now`, reading the recent volume at `later` (see
    /// `buffer_outcome`).
    pub fn process_buffer_at(&mut self, now: u64, later: u64) -> (r: Option<BufferOutput>)
        requires
            old(self).wf(),
            limits_ok(old(self)@),
            old(self)@.bubble_counter < u64::MAX,
        ensures
            final(self).wf(),
            buffer_outcome(old(self)@, now, later) == (final(self)@, output_model(&r)),
    {
        if self.trade_buffer.len() == 0 {
            return None;
        }
        let ghost m = self@;
        self.cleanup_old_zones(now);
        self.cleanup_volume_history(now);
        self.cleanup_cvd_history(now);
        proof {
            assert forall|i: int| 0 <= i < self@.zones.len() implies (#[trigger] self@.zones[i]).1.total_absorbed <= i64::MAX
                - 0x1_0000_0000 && self@.zones[i].1.event_count < u32::MAX by {
                assert(zone_in(m.zones, self@.zones[i]));
                let j = choose|j: int| 0 <= j < m.zones.len() && self@.zones[i] == #[trigger] m.zones[j];
                assert(m.zones[j].1.total_absorbed <= i64::MAX - 0x1_0000_0000);
            }
            lemma_side_sums(m.buffer, true);
            lemma_side_sums(m.buffer, false);
        }
        let (buy, sell, buy_w, sell_w) = aggregate(&self.trade_buffer);
        let total = buy + sell;
        if total == 0 {
            self.trade_buffer.clear();
            return None;
        }
        let delta: i64 = buy as i64 - sell as i64;
        let dominant_buy = delta > 0;
        let den: u64 = if dominant_buy { buy } else { sell };
        let num: i128 = if dominant_buy { buy_w } else { sell_w };
        proof {
            assert(den > 0);
        }
        let snapshot = VolumeSnapshot { timestamp: now, volume: total as u32, delta };
        self.volume_history.push(snapshot);
        self.cvd_history.push((now, self.cvd));
        let bubble_id = self.bubble_counter;
        self.bubble_counter = self.bubble_counter + 1;
        let ad: u64 = if delta < 0 { sell - buy } else { buy - sell };
        let bubble = Bubble {
            id: bubble_id,
            price_num: num,
            price_den: den,
            size: den as u32,
            is_buy: dominant_buy,
            timestamp: now,
            significant: ad as u128 * 100 > 15 * total as u128,
        };
        let cvd_point = CvdPoint { timestamp: now, value: self.cvd };
        let absorption = self.absorb(num, den, delta, now, later);
        let trend: i128 = self.cvd as i128 - self.cvd_5s_ago as i128;
        let zones = self.zone_reports_now(trend);
        self.window_first_price = None;
        self.window_last_price = None;
        self.trade_buffer.clear();
        Some(BufferOutput { bubble, cvd_point, absorption, zones })
    }

    /// Processes the buffer now (see `process_buffer_at`): the time is read from the
    /// system clock when processing starts, and again when the recent volume is read.
    pub fn process_buffer(&mut self) -> (r: Option<BufferOutput>)
        requires
            old(self).wf(),
            limits_ok(old(self)@),
            old(self)@.bubble_counter < u64::MAX,
        ensures
            final(self).wf(),
            exists|now: u64, later: u64| #[trigger] buffer_outcome(old(self)@, now, later) == (final(self)@, output_model(&r)),
    {
        if self.trade_buffer.len() == 0 {
            let r: Option<BufferOutput> = None;
            proof {
                assert(buffer_outcome(self@, 0, 0) == (self@, output_model(&r)));
            }
            return r;
        }
        let now = crate::clock::system_millis();
        let later = crate::clock::system_millis();
        self.process_buffer_at(now, later)
    }
}


impl ProcessingState {
    /// The profile levels to send to the chart, in price order (prices in quarter ticks).
    pub fn volume_profile_levels(&self) -> (r: &Vec<(i64, ProfileLevel)>)
        ensures
            r@ == self@.profile,
    {
        &self.volume_profile
    }
}

impl Default for ProcessingState {
    /// An empty state (see `new`).
    fn default() -> (r: Self)
        ensures
            r.wf(),
            r@.buffer.len() == 0,
            r@.profile.len() == 0,
            r@.zones.len() == 0,
            r@.cvd == 0,
            r@.bubble_counter == 0,
    {
        ProcessingState::new()
    }
}


/// Whether the zone at index `i` of `before` is in `after` at its price, with a peak
/// strength at least as high.
pub open spec fn zone_kept(before: Seq<(i64, AbsorptionZone)>, after: Seq<(i64, AbsorptionZone)>, i: int) -> bool {
    exists|i2: int| 0 <= i2 < after.len() && (#[trigger] after[i2]).0 == before[i].0 && after[i2].1.peak_strength >= before[i].1.peak_strength
}

proof fn lemma_rank_bounds<V>(s: Seq<(i64, V)>, k: i64)
    ensures
        0 <= rank(s, k) <= s.len(),
    decreases s.len(),
{
    if s.len() > 0 {
        lemma_rank_bounds(s.drop_last(), k);
    }
}

proof fn lemma_upsert_keeps(s: Seq<(i64, AbsorptionZone)>, key: i64, z: AbsorptionZone)
    requires
        zone_at(s, key) matches Some(z0) ==> z.peak_strength >= z0.peak_strength,
    ensures
        forall|i: int| 0 <= i < s.len() ==> #[trigger] zone_kept(s, upsert_zone(s, key, z), i),
{
    let after = upsert_zone(s, key, z);
    let j = rank(s, key);
    lemma_rank_bounds(s, key);
    assert forall|i: int| 0 <= i < s.len() implies #[trigger] zone_kept(s, after, i) by {
        if j < s.len() && s[j].0 == key {
            if i == j {
                assert(after[i] == (key, z));
            } else {
                assert(after[i] == s[i]);
            }
        } else if i < j {
            assert(after[i] == s[i]);
        } else {
            assert(after[i + 1] == s[i]);
        }
    }
}

proof fn lemma_unchanged_keeps(s: Seq<(i64, AbsorptionZone)>)
    ensures
        forall|i: int| 0 <= i < s.len() ==> #[trigger] zone_kept(s, s, i),
{
    assert forall|i: int| 0 <= i < s.len() implies #[trigger] zone_kept(s, s, i) by {
        let e = s[i];
        assert(e.1.peak_strength >= s[i].1.peak_strength);
    }
}

/// Absorption keeps every zone, at its price, and never lowers a zone's peak strength:
/// once defended, always defended.
pub proof fn lemma_peak_strength_never_falls(m: FlowModel, num: int, den: int, delta: int, now: u64, later: u64)
    ensures
        forall|i: int| 0 <= i < m.zones.len() ==> #[trigger] zone_kept(m.zones, absorption_step(m, num, den, delta, now, later).0, i),
{
    lemma_unchanged_keeps(m.zones);
    match (m.window_first, m.window_last) {
        (Some(first), Some(last)) => {
            let change = last - first;
            let ad = abs(delta);
            if ad >= delta_threshold(m.volume_history, later) {
                let buying = delta > 0 && change <= 1;
                let selling = delta < 0 && change >= -1;
                if buying || selling {
                    let key = round_div(num, den) as i64;
                    let (at_poc, at_vah, at_val) = key_level_context(m.profile, num, den);
                    let at_key = at_poc || at_vah || at_val;
                    let against = trend_against(buying, m.cvd - m.cvd_5s_ago);
                    let z0 = match zone_at(m.zones, key) {
                        Some(z) => z,
                        None => AbsorptionZone {
                            price_num: num as i128,
                            price_den: den as u64,
                            buying,
                            total_absorbed: 0,
                            event_count: 0,
                            first_seen: now,
                            last_seen: now,
                            peak_strength: 0,
                        },
                    };
                    let count = (z0.event_count + 1) as u32;
                    let total = (z0.total_absorbed + ad) as i64;
                    let st = strength_of(count, at_key, against);
                    let z = AbsorptionZone {
                        total_absorbed: total,
                        event_count: count,
                        last_seen: now,
                        buying,
                        peak_strength: if st > z0.peak_strength { st } else { z0.peak_strength },
                        ..z0
                    };
                    lemma_upsert_keeps(m.zones, key, z);
                }
            }
        },
        _ => {},
    }
}

proof fn lemma_expand_grows(m: Map<i64, ProfileLevel>, lo: int, hi: int, included: int, target: int)
    ensures
        expand(m, lo, hi, included, target).1 <= lo,
        hi <= expand(m, lo, hi, included, target).0,
    decreases (if included < target { target - included } else { 0 }),
{
    if included < target {
        let above = volume_at(m, hi + 1);
        let below = volume_at(m, lo - 1);
        if !(above == 0 && below == 0) {
            if above >= below {
                lemma_expand_grows(m, lo, hi + 1, included + above, target);
            } else {
                lemma_expand_grows(m, lo - 1, hi, included + below, target);
            }
        }
    }
}

/// The value area holds the point of control: its low is at or below it and its high at
/// or above it.
pub proof fn lemma_value_area_holds_poc(s: Seq<(i64, ProfileLevel)>)
    requires
        s.len() > 0,
    ensures
        value_area(s) matches Some((hi, lo)) && lo <= s[poc_index(s)].0 <= hi,
{
    let p = s[poc_index(s)];
    lemma_expand_grows(key_map(s), p.0 as int, p.0 as int, p.1.total_volume as int, profile_volume(s) * 7 / 10);
}

/// The chart's value area grows by the heavier neighbouring price first, the one above on
/// a tie: short of the target, with volume on either side, it is what the area grows to
/// after taking the heavier one; so when that one reaches the target the area stops
/// there. At the target it stays; with no volume on either side it stays.
pub proof fn lemma_expand_heavier_first(m: Map<i64, ProfileLevel>, lo: int, hi: int, included: int, target: int)
    ensures
        included >= target ==> expand(m, lo, hi, included, target) == (hi, lo),
        included < target && volume_at(m, hi + 1) == 0 && volume_at(m, lo - 1) == 0 ==> expand(m, lo, hi, included, target)
            == (hi, lo),
        included < target && volume_at(m, hi + 1) > 0 && volume_at(m, hi + 1) >= volume_at(m, lo - 1) ==> expand(
            m,
            lo,
            hi,
            included,
            target,
        ) == expand(m, lo, hi + 1, included + volume_at(m, hi + 1), target),
        included < target && volume_at(m, lo - 1) > volume_at(m, hi + 1) ==> expand(m, lo, hi, included, target) == expand(
            m,
            lo - 1,
            hi,
            included + volume_at(m, lo - 1),
            target,
        ),
        included < target && volume_at(m, hi + 1) > 0 && volume_at(m, hi + 1) >= volume_at(m, lo - 1) && included
            + volume_at(m, hi + 1) >= target ==> expand(m, lo, hi, included, target) == (hi + 1, lo),
        included < target && volume_at(m, lo - 1) > volume_at(m, hi + 1) && included + volume_at(m, lo - 1) >= target
            ==> expand(m, lo, hi, included, target) == (hi, lo - 1),
{
    if included < target {
        if volume_at(m, hi + 1) > 0 && volume_at(m, hi + 1) >= volume_at(m, lo - 1) && included + volume_at(m, hi + 1) >= target {
            assert(expand(m, lo, hi + 1, included + volume_at(m, hi + 1), target) == (hi + 1, lo));
        }
        if volume_at(m, lo - 1) > volume_at(m, hi + 1) && included + volume_at(m, lo - 1) >= target {
            assert(expand(m, lo - 1, hi, included + volume_at(m, lo - 1), target) == (hi, lo - 1));
        }
    }
}

/// A buy adds its size to the cumulative delta and to the buy total, a sell takes its
/// size from the delta and adds it to the sell total; the other side's total stays.
pub proof fn lemma_trade_sides(m: FlowModel, t: FlowTrade)
    requires
        fits_i64(m.cvd + signed_size(t)),
        m.total_buy_volume + t.size <= u64::MAX,
        m.total_sell_volume + t.size <= u64::MAX,
    ensures
        t.side == FlowSide::Buy ==> after_trade(m, t).cvd == m.cvd + t.size && after_trade(m, t).total_buy_volume
            == m.total_buy_volume + t.size && after_trade(m, t).total_sell_volume == m.total_sell_volume,
        t.side != FlowSide::Buy ==> after_trade(m, t).cvd == m.cvd - t.size && after_trade(m, t).total_sell_volume
            == m.total_sell_volume + t.size && after_trade(m, t).total_buy_volume == m.total_buy_volume,
{
}

/// The point of control is the price with the most volume, the lowest such price on a
/// tie: no price has more volume, and every price below it has less.
pub proof fn lemma_poc_heaviest_lowest(s: Seq<(i64, ProfileLevel)>)
    requires
        s.len() > 0,
    ensures
        0 <= poc_index(s) < s.len(),
        forall|i: int| 0 <= i < s.len() ==> (#[trigger] s[i]).1.total_volume <= s[poc_index(s)].1.total_volume,
        forall|i: int| 0 <= i < poc_index(s) ==> (#[trigger] s[i]).1.total_volume < s[poc_index(s)].1.total_volume,
    decreases s.len(),
{
    lemma_poc_index(s);
    if s.len() > 1 {
        lemma_poc_heaviest_lowest(s.drop_last());
        assert forall|i: int| 0 <= i < poc_index(s) implies (#[trigger] s[i]).1.total_volume < s[poc_index(s)].1.total_volume by {
            assert(s.drop_last()[i] == s[i]);
            if poc_index(s) == s.len() - 1 {
                let p = poc_index(s.drop_last());
                assert(s.drop_last()[p] == s[p]);
            }
        }
    }
}

} // verus!
