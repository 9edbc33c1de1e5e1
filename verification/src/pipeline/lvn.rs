//! Low Volume Nodes: price buckets that traded far less than the average bucket of a
//! volume profile.

use vstd::prelude::*;

use crate::clock::{new_york_clock, new_york_time};
use crate::pipeline::bars::{day_of, utc_day, Bar};
use crate::pipeline::levels::{bars_volume, lemma_bars_volume_prefix};
use crate::pipeline::profile::{buckets_sorted, total_volume, volume_in, volume_map, VolumeProfile};
use crate::pipeline::sorting::{lemma_insertion_step, stably_sorted};
use crate::pipeline::trades::Trade;
use crate::units::Price;

verus! {

/// Direction of the impulse leg that created a level.
#[derive(Debug, Clone, Copy, PartialEq, Eq, Structural)]
pub enum ImpulseDirection {
    Up,
    Down,
}

/// Bucket size of LVN profiles: half a point.
pub const LVN_BUCKET_SIZE: Price = 50;

/// A bucket of an impulse profile is an LVN when its volume is below 15% (150 per mille)
/// of the average bucket volume, that is when `1000 * volume * buckets < 150 * total`.
pub const LVN_THRESHOLD_PERMILLE: u64 = 150;

/// A whole session's profile takes one and a half times that threshold: 22.5%.
pub const LVN_FULL_PROFILE_PERMILLE: u64 = 225;

/// Division rounded to the nearest integer, halves away from zero.
pub open spec fn round_div(n: int, d: int) -> int {
    if n >= 0 {
        (n + d / 2) / d
    } else {
        -((-n + d / 2) / d)
    }
}

/// `n / d` rounded to the nearest integer, halves away from zero (`d` even and positive).
pub fn round_div_exec(n: i64, d: i64) -> (r: i64)
    requires
        d > 0,
        d % 2 == 0,
        d <= 1_000_000_000,
    ensures
        r == round_div(n as int, d as int),
{
    if n >= 0 {
        proof {
            assert((n + d / 2) / (d as int) <= n) by (nonlinear_arith)
                requires n >= 0, d >= 2, d % 2 == 0;
        }
        ((n as i128 + (d / 2) as i128) / d as i128) as i64
    } else {
        let m: i128 = -(n as i128);
        proof {
            assert((m + d / 2) / (d as int) <= m) by (nonlinear_arith)
                requires m > 0, d >= 2, d % 2 == 0;
        }
        (-((m + (d / 2) as i128) / d as i128)) as i64
    }
}

/// The LVN bucket of a price.
pub fn price_to_bucket(price: Price) -> (r: i64)
    ensures
        r == round_div(price as int, LVN_BUCKET_SIZE as int),
{
    round_div_exec(price, LVN_BUCKET_SIZE)
}

/// The price of an LVN bucket.
pub fn bucket_to_price(bucket: i64) -> (r: Price)
    requires
        i64::MIN <= bucket * LVN_BUCKET_SIZE <= i64::MAX,
    ensures
        r == bucket * LVN_BUCKET_SIZE,
{
    bucket * LVN_BUCKET_SIZE
}

/// A price on the bucket grid comes back unchanged from its bucket.
pub proof fn lemma_bucket_round_trip(bucket: int)
    ensures
        round_div(bucket * LVN_BUCKET_SIZE, LVN_BUCKET_SIZE as int) == bucket,
{
    if bucket >= 0 {
        assert((bucket * 50 + 25) / 50 == bucket) by (nonlinear_arith)
            requires bucket >= 0;
    } else {
        assert((-(bucket * 50) + 25) / 50 == -bucket) by (nonlinear_arith)
            requires bucket < 0;
    }
}

/// A Low Volume Node. The node's average comparison is kept exact: the average bucket
/// volume of its profile is `profile_volume / profile_buckets`.
#[derive(Debug)]
pub struct LvnLevel {
    /// The impulse leg that created the node (zero when none)
    pub impulse_id: u128,
    pub price: Price,
    pub volume: u64,
    /// Total volume of the profile the node came from
    pub profile_volume: u64,
    /// Number of buckets of that profile
    pub profile_buckets: u64,
    /// Impulse window, milliseconds since the Unix epoch
    pub impulse_start_time: i64,
    pub impulse_end_time: i64,
    pub impulse_direction: ImpulseDirection,
    /// UTC day (days since the Unix epoch)
    pub date: i64,
    pub symbol: String,
}

/// Whether a bucket of `volume` in a profile of `buckets` buckets and `total` volume is
/// an LVN at `permille`: below `permille` thousandths of the average bucket volume.
pub open spec fn is_low_volume(volume: int, buckets: int, total: int, permille: int) -> bool {
    1000 * volume * buckets < permille * total
}

/// Whether a bucket is an LVN, decided exactly in integers.
fn low_volume(volume: u64, buckets: u64, total: u64, permille: u64) -> (r: bool)
    ensures
        r == is_low_volume(volume as int, buckets as int, total as int, permille as int),
{
    proof {
        assert(volume * buckets <= u64::MAX * u64::MAX) by (nonlinear_arith)
            requires volume <= u64::MAX, buckets <= u64::MAX, volume >= 0, buckets >= 0;
        assert(permille * total <= u64::MAX * u64::MAX) by (nonlinear_arith)
            requires permille <= u64::MAX, total <= u64::MAX, permille >= 0, total >= 0;
        assert(1000 * volume * buckets == (volume * buckets) * 1000) by (nonlinear_arith);
    }
    let rhs: u128 = permille as u128 * total as u128;
    match (volume as u128 * buckets as u128).checked_mul(1000) {
        Some(lhs) => lhs < rhs,
        None => false,
    }
}

/// The LVN buckets of sorted profile entries, in bucket order.
pub open spec fn low_volume_entries(entries: Seq<(i64, u64)>, buckets: int, total: int, permille: int) -> Seq<(i64, u64)>
    decreases entries.len(),
{
    if entries.len() == 0 {
        entries
    } else {
        let rest = low_volume_entries(entries.drop_last(), buckets, total, permille);
        if is_low_volume(entries.last().1 as int, buckets, total, permille) {
            rest.push(entries.last())
        } else {
            rest
        }
    }
}

/// The volume profile of the trades inside `[start, end]`, bucket by bucket.
pub open spec fn window_profile(trades: Seq<Trade>, start: i64, end: i64) -> Map<i64, u64>
    decreases trades.len(),
{
    if trades.len() == 0 {
        Map::empty()
    } else {
        let m = window_profile(trades.drop_last(), start, end);
        let t = trades.last();
        if start <= t.ts_event <= end {
            let b = round_div(t.price as int, LVN_BUCKET_SIZE as int) as i64;
            m.insert(b, (volume_in(m, b) + t.size) as u64)
        } else {
            m
        }
    }
}

/// Total size of the trades inside `[start, end]`.
pub open spec fn window_volume(trades: Seq<Trade>, start: i64, end: i64) -> int
    decreases trades.len(),
{
    if trades.len() == 0 {
        0
    } else {
        let t = trades.last();
        window_volume(trades.drop_last(), start, end) + if start <= t.ts_event <= end {
            t.size as int
        } else {
            0
        }
    }
}

/// Whether every prefix of the window's volume fits in a `u64`.
pub open spec fn window_volume_fits(trades: Seq<Trade>, start: i64, end: i64) -> bool {
    forall|k: int| 0 <= k <= trades.len() ==> #[trigger] window_volume(trades.take(k), start, end) <= u64::MAX
}

pub proof fn lemma_window_volume_nonneg(trades: Seq<Trade>, start: i64, end: i64)
    ensures
        window_volume(trades, start, end) >= 0,
    decreases trades.len(),
{
    if trades.len() > 0 {
        lemma_window_volume_nonneg(trades.drop_last(), start, end);
    }
}

/// Total size of the trades.
pub open spec fn trades_volume(trades: Seq<Trade>) -> int
    decreases trades.len(),
{
    if trades.len() == 0 {
        0
    } else {
        trades_volume(trades.drop_last()) + trades.last().size
    }
}

/// Whether every trade's price lies within 2^60 price units of zero.
pub open spec fn trade_prices_bounded(trades: Seq<Trade>) -> bool {
    forall|i: int| 0 <= i < trades.len() ==> -0x1000_0000_0000_0000 <= #[trigger] trades[i].price <= 0x1000_0000_0000_0000
}

/// The volume inside a window is at most the volume of all the trades.
pub proof fn lemma_window_volume_bounded(trades: Seq<Trade>, start: i64, end: i64)
    ensures
        0 <= window_volume(trades, start, end) <= trades_volume(trades),
    decreases trades.len(),
{
    if trades.len() > 0 {
        lemma_window_volume_bounded(trades.drop_last(), start, end);
    }
}

/// A prefix of the trades has at most their volume.
pub proof fn lemma_trades_volume_prefix(trades: Seq<Trade>, k: int)
    requires
        0 <= k <= trades.len(),
    ensures
        0 <= trades_volume(trades.take(k)) <= trades_volume(trades),
    decreases trades.len(),
{
    if k < trades.len() {
        assert(trades.drop_last().take(k) =~= trades.take(k));
        lemma_trades_volume_prefix(trades.drop_last(), k);
    } else {
        assert(trades.take(k) =~= trades);
        if trades.len() > 0 {
            lemma_trades_volume_prefix(trades.drop_last(), k - 1);
            assert(trades.drop_last().take(k - 1) =~= trades.drop_last());
        }
    }
}

/// Trades whose whole volume fits in a `u64` have a window volume that fits, prefix by
/// prefix.
pub proof fn lemma_window_fits(trades: Seq<Trade>, start: i64, end: i64)
    requires
        trades_volume(trades) <= u64::MAX,
    ensures
        window_volume_fits(trades, start, end),
{
    assert forall|k: int| 0 <= k <= trades.len() implies #[trigger] window_volume(trades.take(k), start, end) <= u64::MAX by {
        lemma_window_volume_bounded(trades.take(k), start, end);
        lemma_trades_volume_prefix(trades, k);
    }
}

/// The buckets of a window of trades with bounded prices have prices that fit.
pub proof fn lemma_window_buckets_bounded(trades: Seq<Trade>, start: i64, end: i64)
    requires
        trade_prices_bounded(trades),
    ensures
        forall|k: i64| #[trigger] window_profile(trades, start, end).contains_key(k)
            ==> -0x1000_0000_0000_0000 - 50 <= k * LVN_BUCKET_SIZE <= 0x1000_0000_0000_0000 + 50,
    decreases trades.len(),
{
    if trades.len() > 0 {
        let t = trades.drop_last();
        assert(trade_prices_bounded(t)) by {
            assert forall|i: int| 0 <= i < t.len() implies -0x1000_0000_0000_0000 <= #[trigger] t[i].price <= 0x1000_0000_0000_0000 by {
                assert(t[i] == trades[i]);
            }
        }
        lemma_window_buckets_bounded(t, start, end);
        let p = trades.last().price as int;
        assert(-0x1000_0000_0000_0000 <= p <= 0x1000_0000_0000_0000) by {
            assert(trades[trades.len() - 1] == trades.last());
        }
        let b = round_div(p, LVN_BUCKET_SIZE as int);
        assert(p - 25 <= b * 50 <= p + 25) by {
            if p >= 0 {
                assert(p - 25 <= (p + 25) / 50 * 50 <= p + 25) by (nonlinear_arith)
                    requires p >= 0;
            } else {
                assert(-p - 25 <= (-p + 25) / 50 * 50 <= -p + 25) by (nonlinear_arith)
                    requires -p > 0;
            }
        }
        assert(b as i64 == b);
        let m = window_profile(t, start, end);
        assert forall|k: i64| #[trigger] window_profile(trades, start, end).contains_key(k)
            implies -0x1000_0000_0000_0000 - 50 <= k * LVN_BUCKET_SIZE <= 0x1000_0000_0000_0000 + 50 by {
            if k != b {
                assert(m.contains_key(k));
            }
        }
    }
}

/// Build the profile of the trades inside `[start, end]`.
pub fn window_volume_profile(trades: &[Trade], start: i64, end: i64) -> (p: VolumeProfile)
    requires
        window_volume_fits(trades@, start, end),
    ensures
        p.wf(),
        p.wf_total(),
        volume_map(p@) == window_profile(trades@, start, end),
        p.total_spec() == window_volume(trades@, start, end),
{
    let mut profile = VolumeProfile::new();
    let mut i: usize = 0;
    while i < trades.len()
        invariant
            i <= trades@.len(),
            window_volume_fits(trades@, start, end),
            profile.wf(),
            profile.wf_total(),
            volume_map(profile@) == window_profile(trades@.take(i as int), start, end),
            profile.total_spec() == window_volume(trades@.take(i as int), start, end),
        decreases trades@.len() - i,
    {
        proof {
            assert(trades@.take(i + 1).drop_last() =~= trades@.take(i as int));
            assert(window_volume(trades@.take(i + 1), start, end) <= u64::MAX);
        }
        let t = &trades[i];
        if start <= t.ts_event && t.ts_event <= end {
            let b = price_to_bucket(t.price);
            profile.add(b, t.size);
        }
        i += 1;
    }
    proof {
        assert(trades@.take(i as int) =~= trades@);
    }
    profile
}

/// The LVN levels that `extract_lvns_realtime` builds from LVN entries.
pub open spec fn lvn_levels_match(
    r: Seq<LvnLevel>,
    entries: Seq<(i64, u64)>,
    total: int,
    buckets: int,
    impulse_id: u128,
    start: i64,
    end: i64,
    direction: ImpulseDirection,
    date: int,
    symbol: Seq<char>,
) -> bool {
    &&& r.len() == entries.len()
    &&& forall|i: int| 0 <= i < r.len() ==> {
        let l = #[trigger] r[i];
        &&& l.impulse_id == impulse_id
        &&& l.price == entries[i].0 * LVN_BUCKET_SIZE
        &&& l.volume == entries[i].1
        &&& l.profile_volume == total
        &&& l.profile_buckets == buckets
        &&& l.impulse_start_time == start
        &&& l.impulse_end_time == end
        &&& l.impulse_direction == direction
        &&& l.date == date
        &&& l.symbol@ == symbol
    }
}

/// The LVNs of the trades inside the window `[start_time, end_time]` (see
/// `extract_lvns_realtime`), dated `date`.
fn window_lvns(
    trades: &[Trade],
    impulse_id: u128,
    start_time: i64,
    end_time: i64,
    direction: ImpulseDirection,
    date: i64,
    symbol: &str,
) -> (r: Vec<LvnLevel>)
    requires
        window_volume_fits(trades@, start_time, end_time),
        forall|k: i64| #[trigger] window_profile(trades@, start_time, end_time).contains_key(k) ==> i64::MIN <= k * LVN_BUCKET_SIZE <= i64::MAX,
    ensures
        forall|entries: Seq<(i64, u64)>|
            buckets_sorted(entries) && volume_map(entries) == window_profile(trades@, start_time, end_time) ==> lvn_levels_match(
                r@,
                low_volume_entries(entries, entries.len() as int, total_volume(entries), LVN_THRESHOLD_PERMILLE as int),
                total_volume(entries),
                entries.len() as int,
                impulse_id,
                start_time,
                end_time,
                direction,
                date as int,
                symbol@,
            ),
{
    let profile = window_volume_profile(trades, start_time, end_time);
    let entries = profile.entries();
    let total = profile.total();
    let n = entries.len();
    let mut levels: Vec<LvnLevel> = Vec::new();
    let mut i: usize = 0;
    proof {
        crate::pipeline::profile::lemma_volume_map(entries@);
    }
    while i < n
        invariant
            i <= n,
            n == entries@.len(),
            entries@ == profile@,
            buckets_sorted(entries@),
            total == total_volume(entries@),
            forall|k: i64| #[trigger] volume_map(entries@).contains_key(k) ==> i64::MIN <= k * LVN_BUCKET_SIZE <= i64::MAX,
            forall|j: int| 0 <= j < entries@.len() ==> #[trigger] volume_map(entries@).contains_key(entries@[j].0),
            lvn_levels_match(
                levels@,
                low_volume_entries(entries@.take(i as int), n as int, total as int, LVN_THRESHOLD_PERMILLE as int),
                total as int,
                n as int,
                impulse_id,
                start_time,
                end_time,
                direction,
                date as int,
                symbol@,
            ),
        decreases n - i,
    {
        proof {
            assert(entries@.take(i + 1).drop_last() =~= entries@.take(i as int));
            assert(volume_map(entries@).contains_key(entries@[i as int].0));
        }
        let (bucket, volume) = entries[i];
        let low = low_volume(volume, n as u64, total, LVN_THRESHOLD_PERMILLE);
        let ghost before = levels@;
        if low {
            let price = bucket_to_price(bucket);
            levels.push(
                LvnLevel {
                    impulse_id,
                    price,
                    volume,
                    profile_volume: total,
                    profile_buckets: n as u64,
                    impulse_start_time: start_time,
                    impulse_end_time: end_time,
                    impulse_direction: direction,
                    date,
                    symbol: symbol.to_owned(),
                },
            );
        }
        proof {
            let cand = low_volume_entries(entries@.take(i as int), n as int, total as int, LVN_THRESHOLD_PERMILLE as int);
            assert(entries@.take(i + 1).last() == entries@[i as int]);
            if low {
                assert(levels@ == before.push(levels@.last()));
                assert forall|j: int| 0 <= j < levels@.len() - 1 implies levels@[j] == before[j] by {}
            }
        }
        i += 1;
    }
    proof {
        assert(entries@.take(i as int) =~= entries@);
        assert forall|es: Seq<(i64, u64)>| buckets_sorted(es) && volume_map(es) == window_profile(trades@, start_time, end_time) implies es == entries@ by {
            crate::pipeline::profile::lemma_sorted_entries_unique(es, entries@);
        }
    }
    levels
}

/// The LVNs of the trades inside the impulse window `[start_time, end_time]`: the buckets
/// of the window's profile below 15% of its average bucket volume, in price order, each
/// carrying the impulse's id, window, direction, the UTC day of its start, and symbol.
pub fn extract_lvns_realtime(
    trades: &[Trade],
    impulse_id: u128,
    start_time: i64,
    end_time: i64,
    direction: ImpulseDirection,
    symbol: &str,
) -> (r: Vec<LvnLevel>)
    requires
        window_volume_fits(trades@, start_time, end_time),
        forall|k: i64| #[trigger] window_profile(trades@, start_time, end_time).contains_key(k) ==> i64::MIN <= k * LVN_BUCKET_SIZE <= i64::MAX,
    ensures
        forall|entries: Seq<(i64, u64)>|
            buckets_sorted(entries) && volume_map(entries) == window_profile(trades@, start_time, end_time) ==> lvn_levels_match(
                r@,
                low_volume_entries(entries, entries.len() as int, total_volume(entries), LVN_THRESHOLD_PERMILLE as int),
                total_volume(entries),
                entries.len() as int,
                impulse_id,
                start_time,
                end_time,
                direction,
                day_of(start_time as int),
                symbol@,
            ),
{
    window_lvns(trades, impulse_id, start_time, end_time, direction, utc_day(start_time), symbol)
}

/// An impulse leg: a fast move, the window of its trades, and the day and contract it
/// belongs to.
#[derive(Debug)]
pub struct ImpulseLeg {
    pub id: u128,
    /// Milliseconds since the Unix epoch
    pub start_time: i64,
    pub end_time: i64,
    pub direction: ImpulseDirection,
    /// UTC day
    pub date: i64,
    pub symbol: String,
}

/// Whether `part` holds the LVNs of the leg's trades (as `extract_lvns_realtime` finds
/// them), dated with the leg's day.
pub open spec fn leg_lvns_match(part: Seq<LvnLevel>, trades: Seq<Trade>, leg: ImpulseLeg) -> bool {
    forall|entries: Seq<(i64, u64)>|
        buckets_sorted(entries) && volume_map(entries) == window_profile(trades, leg.start_time, leg.end_time) ==> lvn_levels_match(
            part,
            low_volume_entries(entries, entries.len() as int, total_volume(entries), LVN_THRESHOLD_PERMILLE as int),
            total_volume(entries),
            entries.len() as int,
            leg.id,
            leg.start_time,
            leg.end_time,
            leg.direction,
            leg.date as int,
            leg.symbol@,
        )
}

/// The parts one after the other.
pub open spec fn concat_parts(parts: Seq<Seq<LvnLevel>>) -> Seq<LvnLevel>
    decreases parts.len(),
{
    if parts.len() == 0 {
        Seq::empty()
    } else {
        concat_parts(parts.drop_last()) + parts.last()
    }
}

/// The price of an LVN level, as the key it is sorted by.
pub open spec fn lvn_price_key() -> spec_fn(LvnLevel) -> int {
    |l: LvnLevel| l.price as int
}

/// The LVN levels sorted by price, stably.
fn sort_lvns_by_price(v: Vec<LvnLevel>) -> (r: Vec<LvnLevel>)
    ensures
        stably_sorted(r@, v@, lvn_price_key()),
{
    let ghost s = v@;
    let mut rest = v;
    let mut out: Vec<LvnLevel> = Vec::new();
    let ghost mut i: int = 0;
    proof {
        assert(out@ =~= s.take(0));
        assert(rest@ =~= s.skip(0));
    }
    while rest.len() > 0
        invariant
            0 <= i <= s.len(),
            rest@ == s.skip(i),
            stably_sorted(out@, s.take(i), lvn_price_key()),
        decreases rest@.len(),
    {
        let x = rest.remove(0);
        proof {
            assert(x == s[i]);
            assert(rest@ =~= s.skip(i + 1));
        }
        let mut j: usize = 0;
        while j < out.len() && out[j].price <= x.price
            invariant
                j <= out@.len(),
                forall|m: int| 0 <= m < j ==> (#[trigger] out@[m]).price <= x.price,
            decreases out@.len() - j,
        {
            j += 1;
        }
        proof {
            lemma_insertion_step(out@, s, i, j as int, lvn_price_key());
        }
        out.insert(j, x);
        proof {
            i = i + 1;
        }
    }
    proof {
        assert(s.take(i) =~= s);
    }
    out
}

/// The LVNs of the impulse legs: each leg's LVNs (see `leg_lvns_match`), all sorted by
/// price; LVNs at one price keep the order of their legs.
pub fn extract_lvns(trades: &[Trade], impulse_legs: &[ImpulseLeg]) -> (r: Vec<LvnLevel>)
    requires
        trade_prices_bounded(trades@),
        forall|i: int| 0 <= i < impulse_legs@.len() ==> window_volume_fits(
            trades@,
            (#[trigger] impulse_legs@[i]).start_time,
            impulse_legs@[i].end_time,
        ),
    ensures
        exists|parts: Seq<Seq<LvnLevel>>| {
            &&& parts.len() == impulse_legs@.len()
            &&& forall|i: int| 0 <= i < parts.len() ==> leg_lvns_match(#[trigger] parts[i], trades@, impulse_legs@[i])
            &&& stably_sorted(r@, concat_parts(parts), lvn_price_key())
        },
{
    let mut all: Vec<LvnLevel> = Vec::new();
    let ghost mut parts: Seq<Seq<LvnLevel>> = Seq::empty();
    let mut i: usize = 0;
    while i < impulse_legs.len()
        invariant
            i <= impulse_legs@.len(),
            trade_prices_bounded(trades@),
            forall|k: int| 0 <= k < impulse_legs@.len() ==> window_volume_fits(
                trades@,
                (#[trigger] impulse_legs@[k]).start_time,
                impulse_legs@[k].end_time,
            ),
            parts.len() == i,
            forall|k: int| 0 <= k < i ==> leg_lvns_match(#[trigger] parts[k], trades@, impulse_legs@[k]),
            all@ == concat_parts(parts),
        decreases impulse_legs@.len() - i,
    {
        let leg = &impulse_legs[i];
        proof {
            assert(*leg == impulse_legs@[i as int]);
            lemma_window_buckets_bounded(trades@, leg.start_time, leg.end_time);
        }
        let mut part = window_lvns(trades, leg.id, leg.start_time, leg.end_time, leg.direction, leg.date, leg.symbol.as_str());
        let ghost before = parts;
        proof {
            parts = parts.push(part@);
            assert(parts.drop_last() =~= before);
            assert forall|k: int| 0 <= k < i + 1 implies leg_lvns_match(#[trigger] parts[k], trades@, impulse_legs@[k]) by {
                if k < i {
                    assert(parts[k] == before[k]);
                }
            }
        }
        all.append(&mut part);
        i += 1;
    }
    sort_lvns_by_price(all)
}

/// The bucket of a price, as the profile keys it.
pub open spec fn bucket_of(price: Price) -> i64 {
    round_div(price as int, LVN_BUCKET_SIZE as int) as i64
}

/// A bucket rounded from a price lies within a quarter point of it.
pub proof fn lemma_bucket_near(p: int)
    ensures
        p - 25 <= round_div(p, LVN_BUCKET_SIZE as int) * LVN_BUCKET_SIZE <= p + 25,
{
    if p >= 0 {
        assert(p - 25 <= (p + 25) / 50 * 50 <= p + 25) by (nonlinear_arith)
            requires p >= 0;
    } else {
        assert(-p - 25 <= (-p + 25) / 50 * 50 <= -p + 25) by (nonlinear_arith)
            requires -p > 0;
    }
}

/// Whether a New York clock time lies in the session of hours `[min_hour, max_hour)`.
/// The session from 9 to 16 is the regular session, which opens at 9:30. A timestamp
/// that has no clock time lies in no session.
pub open spec fn in_session(clock: Option<(u32, u32)>, min_hour: u32, max_hour: u32) -> bool {
    match clock {
        Some(hm) => if min_hour == 9 && max_hour == 16 {
            (hm.0 > 9 || (hm.0 == 9 && hm.1 >= 30)) && hm.0 < 16
        } else {
            min_hour <= hm.0 && hm.0 < max_hour
        },
        None => false,
    }
}

/// Whether a clock time lies in the session.
pub fn session_contains(clock: Option<(u32, u32)>, min_hour: u32, max_hour: u32) -> (r: bool)
    ensures
        r == in_session(clock, min_hour, max_hour),
{
    match clock {
        Some((hour, minute)) => if min_hour == 9 && max_hour == 16 {
            (hour > 9 || (hour == 9 && minute >= 30)) && hour < 16
        } else {
            min_hour <= hour && hour < max_hour
        },
        None => false,
    }
}

/// `volume` more in bucket `b` of a profile.
pub open spec fn add_volume(m: Map<i64, u64>, b: i64, volume: int) -> Map<i64, u64> {
    m.insert(b, (volume_in(m, b) + volume) as u64)
}

/// A bar's volume spread over its open, high, low and close: a quarter at each, the
/// remainder of the division at the open.
pub open spec fn add_bar(m: Map<i64, u64>, bar: Bar) -> Map<i64, u64> {
    let q = bar.volume / 4;
    let m1 = add_volume(m, bucket_of(bar.open), q + bar.volume % 4);
    let m2 = add_volume(m1, bucket_of(bar.high), q as int);
    let m3 = add_volume(m2, bucket_of(bar.low), q as int);
    add_volume(m3, bucket_of(bar.close), q as int)
}

/// The session profile of bars: the bars whose New York time lies in the session, each
/// spread over its four prices.
pub open spec fn session_profile(bars: Seq<Bar>, min_hour: u32, max_hour: u32) -> Map<i64, u64>
    decreases bars.len(),
{
    if bars.len() == 0 {
        Map::empty()
    } else {
        let m = session_profile(bars.drop_last(), min_hour, max_hour);
        let b = bars.last();
        if in_session(new_york_clock(b.timestamp), min_hour, max_hour) {
            add_bar(m, b)
        } else {
            m
        }
    }
}

/// Total volume of the bars in the session.
pub open spec fn session_volume(bars: Seq<Bar>, min_hour: u32, max_hour: u32) -> int
    decreases bars.len(),
{
    if bars.len() == 0 {
        0
    } else {
        let b = bars.last();
        session_volume(bars.drop_last(), min_hour, max_hour) + if in_session(new_york_clock(b.timestamp), min_hour, max_hour) {
            b.volume as int
        } else {
            0
        }
    }
}

/// The session volume is at most the volume of all the bars.
pub proof fn lemma_session_volume_bounded(bars: Seq<Bar>, min_hour: u32, max_hour: u32)
    ensures
        0 <= session_volume(bars, min_hour, max_hour) <= bars_volume(bars),
    decreases bars.len(),
{
    if bars.len() > 0 {
        lemma_session_volume_bounded(bars.drop_last(), min_hour, max_hour);
    }
}

/// Whether every bar's open, high, low and close lie within plus or minus 2^60 price units.
pub open spec fn bar_ohlc_bounded(bars: Seq<Bar>) -> bool {
    forall|i: int| 0 <= i < bars.len() ==> {
        let b = #[trigger] bars[i];
        &&& -0x1000_0000_0000_0000 <= b.open <= 0x1000_0000_0000_0000
        &&& -0x1000_0000_0000_0000 <= b.high <= 0x1000_0000_0000_0000
        &&& -0x1000_0000_0000_0000 <= b.low <= 0x1000_0000_0000_0000
        &&& -0x1000_0000_0000_0000 <= b.close <= 0x1000_0000_0000_0000
    }
}

/// The buckets of a session profile of bounded bars lie near bounded prices.
pub proof fn lemma_session_buckets_bounded(bars: Seq<Bar>, min_hour: u32, max_hour: u32)
    requires
        bar_ohlc_bounded(bars),
    ensures
        forall|k: i64| #[trigger] session_profile(bars, min_hour, max_hour).contains_key(k)
            ==> -0x1000_0000_0000_0000 - 25 <= k * LVN_BUCKET_SIZE <= 0x1000_0000_0000_0000 + 25,
    decreases bars.len(),
{
    if bars.len() > 0 {
        let t = bars.drop_last();
        assert(bar_ohlc_bounded(t)) by {
            assert forall|i: int| 0 <= i < t.len() implies #[trigger] t[i] == bars[i] by {}
        }
        lemma_session_buckets_bounded(t, min_hour, max_hour);
        let b = bars.last();
        assert(bars[bars.len() - 1] == b);
        lemma_bucket_near(b.open as int);
        lemma_bucket_near(b.high as int);
        lemma_bucket_near(b.low as int);
        lemma_bucket_near(b.close as int);
        let m = session_profile(t, min_hour, max_hour);
        assert forall|k: i64| #[trigger] session_profile(bars, min_hour, max_hour).contains_key(k)
            implies -0x1000_0000_0000_0000 - 25 <= k * LVN_BUCKET_SIZE <= 0x1000_0000_0000_0000 + 25 by {
            if k != bucket_of(b.open) && k != bucket_of(b.high) && k != bucket_of(b.low) && k != bucket_of(b.close) {
                assert(m.contains_key(k));
            }
        }
    }
}

/// Build the session profile of bars.
fn session_volume_profile(bars: &[Bar], min_hour: u32, max_hour: u32) -> (p: VolumeProfile)
    requires
        bars_volume(bars@) <= u64::MAX,
    ensures
        p.wf(),
        p.wf_total(),
        volume_map(p@) == session_profile(bars@, min_hour, max_hour),
        p.total_spec() == session_volume(bars@, min_hour, max_hour),
{
    let mut profile = VolumeProfile::new();
    let mut i: usize = 0;
    while i < bars.len()
        invariant
            i <= bars@.len(),
            bars_volume(bars@) <= u64::MAX,
            profile.wf(),
            profile.wf_total(),
            volume_map(profile@) == session_profile(bars@.take(i as int), min_hour, max_hour),
            profile.total_spec() == session_volume(bars@.take(i as int), min_hour, max_hour),
        decreases bars@.len() - i,
    {
        proof {
            assert(bars@.take(i + 1).drop_last() =~= bars@.take(i as int));
            lemma_bars_volume_prefix(bars@, i + 1);
            lemma_session_volume_bounded(bars@.take(i + 1), min_hour, max_hour);
        }
        let bar = &bars[i];
        let clock = new_york_time(bar.timestamp);
        if session_contains(clock, min_hour, max_hour) {
            let q = bar.volume / 4;
            let rem = bar.volume % 4;
            profile.add(price_to_bucket(bar.open), q + rem);
            profile.add(price_to_bucket(bar.high), q);
            profile.add(price_to_bucket(bar.low), q);
            profile.add(price_to_bucket(bar.close), q);
        }
        i += 1;
    }
    proof {
        assert(bars@.take(i as int) =~= bars@);
    }
    profile
}

/// Sum over the bars of their typical price times three, `high + low + close`, times
/// their volume: three times the volume-weighted sum of typical prices.
pub open spec fn bars_typical_sum(bars: Seq<Bar>) -> int
    decreases bars.len(),
{
    if bars.len() == 0 {
        0
    } else {
        let b = bars.last();
        bars_typical_sum(bars.drop_last()) + (b.high + b.low + b.close) * b.volume
    }
}

/// The total volume of the bars and their typical-price sum.
fn bar_volume_sums(bars: &[Bar]) -> (r: (u64, i128))
    requires
        bar_ohlc_bounded(bars@),
        bars_volume(bars@) <= u64::MAX,
    ensures
        r.0 == bars_volume(bars@),
        r.1 == bars_typical_sum(bars@),
{
    let mut volume: u64 = 0;
    let mut sum: i128 = 0;
    let mut i: usize = 0;
    while i < bars.len()
        invariant
            i <= bars@.len(),
            bar_ohlc_bounded(bars@),
            bars_volume(bars@) <= u64::MAX,
            volume == bars_volume(bars@.take(i as int)),
            sum == bars_typical_sum(bars@.take(i as int)),
            -0x3000_0000_0000_0000int * volume <= sum <= 0x3000_0000_0000_0000int * volume,
        decreases bars@.len() - i,
    {
        proof {
            assert(bars@.take(i + 1).drop_last() =~= bars@.take(i as int));
            lemma_bars_volume_prefix(bars@, i + 1);
        }
        let bar = &bars[i];
        let typical: i128 = bar.high as i128 + bar.low as i128 + bar.close as i128;
        let v: i128 = bar.volume as i128;
        proof {
            assert(-0x3000_0000_0000_0000int * v <= typical * v <= 0x3000_0000_0000_0000int * v) by (nonlinear_arith)
                requires -0x3000_0000_0000_0000int <= typical <= 0x3000_0000_0000_0000int, v >= 0;
            assert(0x3000_0000_0000_0000int * (volume + v) <= 0x3000_0000_0000_0000int * 0xffff_ffff_ffff_ffff) by (nonlinear_arith)
                requires volume + v <= 0xffff_ffff_ffff_ffff;
            assert(0x3000_0000_0000_0000int * (volume + v) == 0x3000_0000_0000_0000int * volume + 0x3000_0000_0000_0000int * v) by (nonlinear_arith);
            assert(-0x3000_0000_0000_0000int * (volume + v) >= -0x3000_0000_0000_0000int * 0xffff_ffff_ffff_ffff) by (nonlinear_arith)
                requires volume + v <= 0xffff_ffff_ffff_ffff;
            assert(-0x3000_0000_0000_0000int * (volume + v) == -0x3000_0000_0000_0000int * volume - 0x3000_0000_0000_0000int * v) by (nonlinear_arith);
        }
        sum = sum + typical * v;
        volume = volume + bar.volume;
        i += 1;
    }
    proof {
        assert(bars@.take(i as int) =~= bars@);
    }
    (volume, sum)
}

/// The side of the session's volume-weighted average price that a price lies on: above it
/// a level is resistance (left by a down move), at or below it support. Bars without volume
/// compare with the last close.
pub open spec fn side_of(price: int, volume: int, typical_sum: int, last_close: int) -> ImpulseDirection {
    if volume == 0 {
        if price > last_close { ImpulseDirection::Down } else { ImpulseDirection::Up }
    } else if 3 * price * volume > typical_sum {
        ImpulseDirection::Down
    } else {
        ImpulseDirection::Up
    }
}

/// The direction of a full-profile LVN at `price`, from the average price of all the bars.
pub open spec fn lvn_side(price: int, bars: Seq<Bar>) -> ImpulseDirection {
    side_of(price, bars_volume(bars), bars_typical_sum(bars), bars.last().close as int)
}

fn side_exec(price: Price, volume: u64, typical_sum: i128, last_close: Price) -> (r: ImpulseDirection)
    requires
        -0x1000_0000_0000_0000 - 25 <= price <= 0x1000_0000_0000_0000 + 25,
    ensures
        r == side_of(price as int, volume as int, typical_sum as int, last_close as int),
{
    if volume == 0 {
        if price > last_close { ImpulseDirection::Down } else { ImpulseDirection::Up }
    } else {
        proof {
            assert(-3 * (0x1000_0000_0000_0000 + 25) * 0xffff_ffff_ffff_ffff <= 3 * price * volume
                <= 3 * (0x1000_0000_0000_0000 + 25) * 0xffff_ffff_ffff_ffff) by (nonlinear_arith)
                requires -0x1000_0000_0000_0000 - 25 <= price <= 0x1000_0000_0000_0000 + 25, 0 <= volume <= 0xffff_ffff_ffff_ffff;
            assert(3 * price as i128 * volume as i128 == 3 * price * volume);
        }
        let lhs: i128 = 3 * price as i128 * volume as i128;
        if lhs > typical_sum { ImpulseDirection::Down } else { ImpulseDirection::Up }
    }
}

/// The LVN levels that `extract_lvns_from_full_profile` builds from LVN entries.
pub open spec fn full_profile_levels_match(
    r: Seq<LvnLevel>,
    entries: Seq<(i64, u64)>,
    total: int,
    buckets: int,
    bars: Seq<Bar>,
) -> bool {
    &&& r.len() == entries.len()
    &&& forall|i: int| 0 <= i < r.len() ==> {
        let l = #[trigger] r[i];
        &&& l.impulse_id == 0
        &&& l.price == entries[i].0 * LVN_BUCKET_SIZE
        &&& l.volume == entries[i].1
        &&& l.profile_volume == total
        &&& l.profile_buckets == buckets
        &&& l.impulse_start_time == bars[0].timestamp
        &&& l.impulse_end_time == bars.last().timestamp
        &&& l.impulse_direction == lvn_side(entries[i].0 * LVN_BUCKET_SIZE, bars)
        &&& l.date == day_of(bars[0].timestamp as int)
        &&& l.symbol@ == bars[0].symbol@
    }
}

/// The LVNs of a whole session: the buckets of the session profile (bars whose New York
/// time lies in `[min_session_hour_et, max_session_hour_et)`, 9 to 16 meaning 9:30 to 16:00,
/// each bar's volume spread over its open, high, low and close) below 22.5% of the average
/// bucket volume, in price order. Each level spans the first to the last bar, carries the
/// first bar's UTC day and symbol, no impulse, and the side of the average price of all the
/// bars that it lies on. No bars give no levels.
pub fn extract_lvns_from_full_profile(bars: &[Bar], min_session_hour_et: u32, max_session_hour_et: u32) -> (r: Vec<LvnLevel>)
    requires
        bar_ohlc_bounded(bars@),
        bars_volume(bars@) <= u64::MAX,
    ensures
        bars@.len() == 0 ==> r@.len() == 0,
        bars@.len() > 0 ==> forall|entries: Seq<(i64, u64)>|
            buckets_sorted(entries) && volume_map(entries) == session_profile(bars@, min_session_hour_et, max_session_hour_et)
                ==> full_profile_levels_match(
                r@,
                low_volume_entries(entries, entries.len() as int, total_volume(entries), LVN_FULL_PROFILE_PERMILLE as int),
                total_volume(entries),
                entries.len() as int,
                bars@,
            ),
{
    if bars.len() == 0 {
        return Vec::new();
    }
    let profile = session_volume_profile(bars, min_session_hour_et, max_session_hour_et);
    let (all_volume, typical_sum) = bar_volume_sums(bars);
    let last = bars.len() - 1;
    let last_close = bars[last].close;
    let start_time = bars[0].timestamp;
    let end_time = bars[last].timestamp;
    let date = utc_day(start_time);
    let entries = profile.entries();
    let total = profile.total();
    let n = entries.len();
    let mut levels: Vec<LvnLevel> = Vec::new();
    let mut i: usize = 0;
    proof {
        crate::pipeline::profile::lemma_volume_map(entries@);
        lemma_session_buckets_bounded(bars@, min_session_hour_et, max_session_hour_et);
        assert(bars@.last() == bars@[last as int]);
    }
    while i < n
        invariant
            i <= n,
            n == entries@.len(),
            entries@ == profile@,
            buckets_sorted(entries@),
            total == total_volume(entries@),
            bars@.len() > 0,
            all_volume == bars_volume(bars@),
            typical_sum == bars_typical_sum(bars@),
            last_close == bars@.last().close,
            start_time == bars@[0].timestamp,
            end_time == bars@.last().timestamp,
            date == day_of(bars@[0].timestamp as int),
            forall|k: i64| #[trigger] volume_map(entries@).contains_key(k)
                ==> -0x1000_0000_0000_0000 - 25 <= k * LVN_BUCKET_SIZE <= 0x1000_0000_0000_0000 + 25,
            forall|j: int| 0 <= j < entries@.len() ==> #[trigger] volume_map(entries@).contains_key(entries@[j].0),
            full_profile_levels_match(
                levels@,
                low_volume_entries(entries@.take(i as int), n as int, total as int, LVN_FULL_PROFILE_PERMILLE as int),
                total as int,
                n as int,
                bars@,
            ),
        decreases n - i,
    {
        proof {
            assert(entries@.take(i + 1).drop_last() =~= entries@.take(i as int));
            assert(volume_map(entries@).contains_key(entries@[i as int].0));
        }
        let (bucket, volume) = entries[i];
        let low = low_volume(volume, n as u64, total, LVN_FULL_PROFILE_PERMILLE);
        let ghost before = levels@;
        if low {
            let price = bucket_to_price(bucket);
            let direction = side_exec(price, all_volume, typical_sum, last_close);
            levels.push(
                LvnLevel {
                    impulse_id: 0,
                    price,
                    volume,
                    profile_volume: total,
                    profile_buckets: n as u64,
                    impulse_start_time: start_time,
                    impulse_end_time: end_time,
                    impulse_direction: direction,
                    date,
                    symbol: bars[0].symbol.clone(),
                },
            );
        }
        proof {
            assert(entries@.take(i + 1).last() == entries@[i as int]);
            if low {
                assert(levels@ == before.push(levels@.last()));
                assert forall|j: int| 0 <= j < levels@.len() - 1 implies levels@[j] == before[j] by {}
            }
        }
        i += 1;
    }
    proof {
        assert(entries@.take(i as int) =~= entries@);
        assert forall|es: Seq<(i64, u64)>|
            buckets_sorted(es) && volume_map(es) == session_profile(bars@, min_session_hour_et, max_session_hour_et) implies es
            == entries@ by {
            crate::pipeline::profile::lemma_sorted_entries_unique(es, entries@);
        }
    }
    levels
}

/// The LVNs of the regular session, 9:30 to 16:00 New York time: the full-profile LVNs of
/// the session from 9 to 16.
pub fn extract_lvns_from_rth_profile(bars: &[Bar]) -> (r: Vec<LvnLevel>)
    requires
        bar_ohlc_bounded(bars@),
        bars_volume(bars@) <= u64::MAX,
    ensures
        call_ensures(extract_lvns_from_full_profile, (bars, 9u32, 16u32), r),
        bars@.len() == 0 ==> r@.len() == 0,
        bars@.len() > 0 ==> forall|entries: Seq<(i64, u64)>|
            buckets_sorted(entries) && volume_map(entries) == session_profile(bars@, 9, 16)
                ==> full_profile_levels_match(
                r@,
                low_volume_entries(entries, entries.len() as int, total_volume(entries), LVN_FULL_PROFILE_PERMILLE as int),
                total_volume(entries),
                entries.len() as int,
                bars@,
            ),
{
    extract_lvns_from_full_profile(bars, 9, 16)
}

} // verus!
