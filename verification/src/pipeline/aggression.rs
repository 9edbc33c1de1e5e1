//! Aggression read from one-second bars: volume spikes of a one-sided bar, delta spikes,
//! and delta momentum over the last few bars.

use vstd::prelude::*;

use crate::pipeline::bars::Bar;
use crate::pipeline::smart_lvn::delta_sum;
use crate::pipeline::three_element::{AggressionType, TradeDirection};
use crate::units::{abs, Price};

verus! {

/// Settings of aggression detection.
#[derive(Debug, Clone, Copy, PartialEq, Eq, Structural)]
pub struct AggressionConfig {
    /// Bars behind a bar that make its averages
    pub lookback: usize,
    /// Delta over the last four bars that makes momentum
    pub delta_momentum_threshold: i64,
    /// Ratio of one side's volume to the other's that makes a bar one-sided, in tenths
    /// (30: three to one)
    pub imbalance_ratio_tenths: u64,
    /// Multiple of the average that makes a spike, in tenths (50: five times)
    pub volume_spike_mult_tenths: u64,
    /// Bars with less volume are noise
    pub min_volume: u64,
    /// Whether captured signals count as aggression too
    pub use_captured_signals: bool,
}

impl Default for AggressionConfig {
    /// Sixty bars of lookback, 500 contracts of momentum, three to one, five times the
    /// average, 50 contracts at least, captured signals used.
    fn default() -> (c: AggressionConfig)
        ensures
            c == (AggressionConfig {
                lookback: 60,
                delta_momentum_threshold: 500,
                imbalance_ratio_tenths: 30,
                volume_spike_mult_tenths: 50,
                min_volume: 50,
                use_captured_signals: true,
            }),
    {
        AggressionConfig {
            lookback: 60,
            delta_momentum_threshold: 500,
            imbalance_ratio_tenths: 30,
            volume_spike_mult_tenths: 50,
            min_volume: 50,
            use_captured_signals: true,
        }
    }
}

/// Aggression at a bar. The strength is in tenths; aggression read from bars always
/// has full strength, ten tenths.
#[derive(Debug, Clone, Copy, PartialEq, Eq, Structural)]
pub struct AggressionEvent {
    pub bar_idx: usize,
    /// Milliseconds since the Unix epoch
    pub timestamp: i64,
    pub aggression_type: AggressionType,
    pub direction: TradeDirection,
    pub strength_tenths: u8,
    pub price: Price,
    /// The delta that made the aggression
    pub delta_change: i64,
}

/// Whether the settings are small enough for exact integer arithmetic.
pub open spec fn aggression_config_fits(cfg: AggressionConfig) -> bool {
    &&& cfg.lookback <= 1_000_000
    &&& cfg.imbalance_ratio_tenths <= 1_000_000
    &&& cfg.volume_spike_mult_tenths <= 1_000_000
}

/// Whether every bar's delta lies within plus or minus 2^60.
pub open spec fn deltas_bounded(bars: Seq<Bar>) -> bool {
    forall|i: int| 0 <= i < bars.len() ==> -0x1000_0000_0000_0000 <= #[trigger] bars[i].delta <= 0x1000_0000_0000_0000
}

/// Total volume of the bars.
pub open spec fn volume_sum(bars: Seq<Bar>) -> int
    decreases bars.len(),
{
    if bars.len() == 0 {
        0
    } else {
        volume_sum(bars.drop_last()) + bars.last().volume
    }
}

/// Total delta magnitude of the bars.
pub open spec fn abs_delta_sum(bars: Seq<Bar>) -> int
    decreases bars.len(),
{
    if bars.len() == 0 {
        0
    } else {
        abs_delta_sum(bars.drop_last()) + abs(bars.last().delta as int)
    }
}

/// Whether a bar's volume is above the spike multiple of the window's average volume.
pub open spec fn volume_spike(bar: Bar, window: Seq<Bar>, mult_tenths: int) -> bool {
    10 * bar.volume * window.len() > volume_sum(window) * mult_tenths
}

/// Whether a bar's delta magnitude is above the spike multiple of the window's average
/// delta magnitude.
pub open spec fn delta_spike(bar: Bar, window: Seq<Bar>, mult_tenths: int) -> bool {
    10 * abs(bar.delta as int) * window.len() > abs_delta_sum(window) * mult_tenths
}

/// The side a bar is one-sided to: buying (or else selling) of at least `t / (t + 10)` of
/// its volume, where `t` is the ratio in tenths.
pub open spec fn one_sided(bar: Bar, ratio_tenths: int) -> Option<TradeDirection> {
    let total = bar.buy_volume + bar.sell_volume;
    if total == 0 {
        None
    } else if bar.buy_volume * (ratio_tenths + 10) >= ratio_tenths * total {
        Some(TradeDirection::Long)
    } else if bar.sell_volume * (ratio_tenths + 10) >= ratio_tenths * total {
        Some(TradeDirection::Short)
    } else {
        None
    }
}

/// The momentum aggression of a direction.
pub open spec fn momentum_type(direction: TradeDirection) -> AggressionType {
    if direction == TradeDirection::Long {
        AggressionType::DeltaMomentumUp
    } else {
        AggressionType::DeltaMomentumDown
    }
}

/// Aggression of full strength at bar `i`.
pub open spec fn event_at(bars: Seq<Bar>, i: int, kind: AggressionType, direction: TradeDirection, delta: int) -> AggressionEvent {
    AggressionEvent {
        bar_idx: i as usize,
        timestamp: bars[i].timestamp,
        aggression_type: kind,
        direction,
        strength_tenths: 10,
        price: bars[i].close,
        delta_change: delta as i64,
    }
}

/// The aggression of bar `i` (a bar of at least the minimum volume with a window behind
/// it), in this order: a volume spike of a one-sided bar, a delta spike, and momentum: a
/// delta over the bar and the three before it of at least the threshold either way.
pub open spec fn events_at(bars: Seq<Bar>, i: int, cfg: AggressionConfig) -> Seq<AggressionEvent> {
    let bar = bars[i];
    if bar.volume < cfg.min_volume || cfg.lookback == 0 {
        Seq::empty()
    } else {
        let window = bars.subrange(i - cfg.lookback, i);
        let flow = match one_sided(bar, cfg.imbalance_ratio_tenths as int) {
            Some(d) => if volume_spike(bar, window, cfg.volume_spike_mult_tenths as int) {
                seq![event_at(bars, i, AggressionType::TradeFlowImbalance, d, bar.delta as int)]
            } else {
                Seq::empty()
            },
            None => Seq::empty(),
        };
        let spike_dir = if bar.delta > 0 { TradeDirection::Long } else { TradeDirection::Short };
        let spike = if delta_spike(bar, window, cfg.volume_spike_mult_tenths as int) {
            seq![event_at(bars, i, momentum_type(spike_dir), spike_dir, bar.delta as int)]
        } else {
            Seq::empty()
        };
        let recent = delta_sum(bars.subrange(if i >= 3 { i - 3 } else { 0 }, i + 1));
        let mom_dir = if recent > 0 { TradeDirection::Long } else { TradeDirection::Short };
        let momentum = if abs(recent) >= cfg.delta_momentum_threshold {
            seq![event_at(bars, i, momentum_type(mom_dir), mom_dir, recent)]
        } else {
            Seq::empty()
        };
        flow + spike + momentum
    }
}

/// The aggression of the bars from the lookback on, up to before bar `k`, bar by bar.
pub open spec fn events_upto(bars: Seq<Bar>, k: int, cfg: AggressionConfig) -> Seq<AggressionEvent>
    decreases k,
{
    if k <= cfg.lookback {
        Seq::empty()
    } else {
        events_upto(bars, k - 1, cfg) + events_at(bars, k - 1, cfg)
    }
}

/// The volume and delta magnitude of the bars `start .. end`.
fn window_sums(bars: &[Bar], start: usize, end: usize) -> (r: (u128, u128))
    requires
        start <= end <= bars@.len(),
        end - start <= 1_000_000,
        deltas_bounded(bars@),
    ensures
        r.0 == volume_sum(bars@.subrange(start as int, end as int)),
        r.1 == abs_delta_sum(bars@.subrange(start as int, end as int)),
        r.0 <= 0xffff_ffff_ffff_ffff * 1_000_000,
        r.1 <= 0x1000_0000_0000_0000 * 1_000_000,
{
    let mut volume: u128 = 0;
    let mut delta: u128 = 0;
    let mut k = start;
    while k < end
        invariant
            start <= k <= end,
            end <= bars@.len(),
            end - start <= 1_000_000,
            deltas_bounded(bars@),
            volume == volume_sum(bars@.subrange(start as int, k as int)),
            delta == abs_delta_sum(bars@.subrange(start as int, k as int)),
            volume <= 0xffff_ffff_ffff_ffff * (k - start),
            delta <= 0x1000_0000_0000_0000 * (k - start),
        decreases end - k,
    {
        let bar = &bars[k];
        proof {
            let w = bars@.subrange(start as int, k + 1);
            assert(w.drop_last() =~= bars@.subrange(start as int, k as int));
            assert(w.last() == bars@[k as int]);
            assert(bars@[k as int] == *bar);
            assert(-0x1000_0000_0000_0000 <= bar.delta <= 0x1000_0000_0000_0000);
            assert(0xffff_ffff_ffff_ffff * (k + 1 - start) == 0xffff_ffff_ffff_ffff * (k - start) + 0xffff_ffff_ffff_ffff) by (nonlinear_arith);
            assert(0x1000_0000_0000_0000 * (k + 1 - start) == 0x1000_0000_0000_0000 * (k - start) + 0x1000_0000_0000_0000) by (nonlinear_arith);
            assert(0xffff_ffff_ffff_ffff * (k + 1 - start) <= 0xffff_ffff_ffff_ffff * 1_000_000) by (nonlinear_arith)
                requires k + 1 - start <= 1_000_000;
            assert(0x1000_0000_0000_0000 * (k + 1 - start) <= 0x1000_0000_0000_0000 * 1_000_000) by (nonlinear_arith)
                requires k + 1 - start <= 1_000_000;
        }
        volume = volume + bar.volume as u128;
        let d: i64 = if bar.delta < 0 { -bar.delta } else { bar.delta };
        delta = delta + d as u128;
        k += 1;
    }
    proof {
        assert(0xffff_ffff_ffff_ffff * (k - start) <= 0xffff_ffff_ffff_ffff * 1_000_000) by (nonlinear_arith)
            requires k - start <= 1_000_000;
        assert(0x1000_0000_0000_0000 * (k - start) <= 0x1000_0000_0000_0000 * 1_000_000) by (nonlinear_arith)
            requires k - start <= 1_000_000;
    }
    (volume, delta)
}

fn one_sided_exec(bar: &Bar, ratio_tenths: u64) -> (r: Option<TradeDirection>)
    requires
        ratio_tenths <= 1_000_000,
    ensures
        r == one_sided(*bar, ratio_tenths as int),
{
    let total: u128 = bar.buy_volume as u128 + bar.sell_volume as u128;
    if total == 0 {
        return None;
    }
    let t = ratio_tenths as u128;
    proof {
        assert(bar.buy_volume * (t + 10) <= 0xffff_ffff_ffff_ffff * 1_000_010) by (nonlinear_arith)
            requires bar.buy_volume <= 0xffff_ffff_ffff_ffff, t <= 1_000_000, bar.buy_volume >= 0;
        assert(bar.sell_volume * (t + 10) <= 0xffff_ffff_ffff_ffff * 1_000_010) by (nonlinear_arith)
            requires bar.sell_volume <= 0xffff_ffff_ffff_ffff, t <= 1_000_000, bar.sell_volume >= 0;
        assert(t * total <= 1_000_000 * 0x1_ffff_ffff_ffff_fffe) by (nonlinear_arith)
            requires t <= 1_000_000, total <= 0x1_ffff_ffff_ffff_fffe, t >= 0;
    }
    if bar.buy_volume as u128 * (t + 10) >= t * total {
        Some(TradeDirection::Long)
    } else if bar.sell_volume as u128 * (t + 10) >= t * total {
        Some(TradeDirection::Short)
    } else {
        None
    }
}

fn momentum_type_exec(direction: TradeDirection) -> (r: AggressionType)
    ensures
        r == momentum_type(direction),
{
    if direction == TradeDirection::Long {
        AggressionType::DeltaMomentumUp
    } else {
        AggressionType::DeltaMomentumDown
    }
}

/// The aggression of bar `i` (see `events_at`), appended to `events`.
fn push_events_at(bars: &[Bar], i: usize, cfg: &AggressionConfig, events: &mut Vec<AggressionEvent>)
    requires
        cfg.lookback <= i < bars@.len(),
        aggression_config_fits(*cfg),
        deltas_bounded(bars@),
    ensures
        final(events)@ == old(events)@ + events_at(bars@, i as int, *cfg),
{
    let bar = &bars[i];
    proof {
        assert(bars@[i as int] == *bar);
    }
    if bar.volume < cfg.min_volume || cfg.lookback == 0 {
        proof {
            assert(old(events)@ + Seq::<AggressionEvent>::empty() =~= old(events)@);
        }
        return;
    }
    let (window_volume, window_delta) = window_sums(bars, i - cfg.lookback, i);
    let n = cfg.lookback as u128;
    let mult = cfg.volume_spike_mult_tenths as u128;
    let magnitude: i64 = if bar.delta < 0 { -bar.delta } else { bar.delta };
    proof {
        assert(-0x1000_0000_0000_0000 <= bar.delta <= 0x1000_0000_0000_0000);
        assert(10 * bar.volume * n <= 10 * 0xffff_ffff_ffff_ffff * 1_000_000) by (nonlinear_arith)
            requires bar.volume <= 0xffff_ffff_ffff_ffff, n <= 1_000_000, bar.volume >= 0;
        assert(window_volume * mult <= 0xffff_ffff_ffff_ffff * 1_000_000 * 1_000_000) by (nonlinear_arith)
            requires window_volume <= 0xffff_ffff_ffff_ffff * 1_000_000, mult <= 1_000_000, window_volume >= 0;
        assert(10 * magnitude * n <= 10 * 0x1000_0000_0000_0000 * 1_000_000) by (nonlinear_arith)
            requires 0 <= magnitude <= 0x1000_0000_0000_0000, n <= 1_000_000;
        assert(window_delta * mult <= 0x1000_0000_0000_0000 * 1_000_000 * 1_000_000) by (nonlinear_arith)
            requires window_delta <= 0x1000_0000_0000_0000 * 1_000_000, mult <= 1_000_000, window_delta >= 0;
        assert(10 * bar.volume * n == 10 * (bar.volume as u128) * n);
    }
    let ghost before = events@;
    let is_volume_spike = 10 * (bar.volume as u128) * n > window_volume * mult;
    let is_delta_spike = 10 * (magnitude as u128) * n > window_delta * mult;
    match one_sided_exec(bar, cfg.imbalance_ratio_tenths) {
        Some(d) => {
            if is_volume_spike {
                events.push(
                    AggressionEvent {
                        bar_idx: i,
                        timestamp: bar.timestamp,
                        aggression_type: AggressionType::TradeFlowImbalance,
                        direction: d,
                        strength_tenths: 10,
                        price: bar.close,
                        delta_change: bar.delta,
                    },
                );
            }
        },
        None => {},
    }
    let ghost after_flow = events@;
    if is_delta_spike {
        let direction = if bar.delta > 0 { TradeDirection::Long } else { TradeDirection::Short };
        events.push(
            AggressionEvent {
                bar_idx: i,
                timestamp: bar.timestamp,
                aggression_type: momentum_type_exec(direction),
                direction,
                strength_tenths: 10,
                price: bar.close,
                delta_change: bar.delta,
            },
        );
    }
    let ghost after_spike = events@;
    let first: usize = if i >= 3 { i - 3 } else { 0 };
    let mut recent: i64 = 0;
    let mut k = first;
    while k <= i
        invariant
            first <= k <= i + 1,
            i < bars@.len(),
            deltas_bounded(bars@),
            first + 3 >= i,
            recent == delta_sum(bars@.subrange(first as int, k as int)),
            -0x1000_0000_0000_0000 * (k - first) <= recent <= 0x1000_0000_0000_0000 * (k - first),
        decreases i + 1 - k,
    {
        proof {
            let w = bars@.subrange(first as int, k + 1);
            assert(w.drop_last() =~= bars@.subrange(first as int, k as int));
            assert(w.last() == bars@[k as int]);
            assert(-0x1000_0000_0000_0000 <= bars@[k as int].delta <= 0x1000_0000_0000_0000);
        }
        recent = recent + bars[k].delta;
        k += 1;
    }
    let magnitude_recent: i64 = if recent < 0 { -recent } else { recent };
    if magnitude_recent >= cfg.delta_momentum_threshold {
        let direction = if recent > 0 { TradeDirection::Long } else { TradeDirection::Short };
        events.push(
            AggressionEvent {
                bar_idx: i,
                timestamp: bar.timestamp,
                aggression_type: momentum_type_exec(direction),
                direction,
                strength_tenths: 10,
                price: bar.close,
                delta_change: recent,
            },
        );
    }
    proof {
        let window = bars@.subrange(i - cfg.lookback, i as int);
        assert(is_volume_spike == volume_spike(*bar, window, cfg.volume_spike_mult_tenths as int));
        assert(is_delta_spike == delta_spike(*bar, window, cfg.volume_spike_mult_tenths as int));
        let flow = match one_sided(*bar, cfg.imbalance_ratio_tenths as int) {
            Some(d) => if volume_spike(*bar, window, cfg.volume_spike_mult_tenths as int) {
                seq![event_at(bars@, i as int, AggressionType::TradeFlowImbalance, d, bar.delta as int)]
            } else {
                Seq::empty()
            },
            None => Seq::empty(),
        };
        assert(after_flow =~= before + flow);
        let spike_dir = if bar.delta > 0 { TradeDirection::Long } else { TradeDirection::Short };
        let spike = if delta_spike(*bar, window, cfg.volume_spike_mult_tenths as int) {
            seq![event_at(bars@, i as int, momentum_type(spike_dir), spike_dir, bar.delta as int)]
        } else {
            Seq::empty()
        };
        assert(after_spike =~= before + flow + spike);
        assert(events@ =~= old(events)@ + events_at(bars@, i as int, *cfg));
    }
}

/// The aggression read from the bars (see `events_upto`).
pub fn detect_aggression_from_bars(bars: &[Bar], cfg: &AggressionConfig) -> (r: Vec<AggressionEvent>)
    requires
        aggression_config_fits(*cfg),
        deltas_bounded(bars@),
    ensures
        r@ == events_upto(bars@, bars@.len() as int, *cfg),
{
    let mut events: Vec<AggressionEvent> = Vec::new();
    if bars.len() < cfg.lookback + 1 {
        return events;
    }
    let mut i = cfg.lookback;
    while i < bars.len()
        invariant
            cfg.lookback <= i <= bars@.len(),
            aggression_config_fits(*cfg),
            deltas_bounded(bars@),
            events@ == events_upto(bars@, i as int, *cfg),
        decreases bars@.len() - i,
    {
        push_events_at(bars, i, cfg, &mut events);
        i += 1;
    }
    events
}

/// Whether the timestamps of the bars never decrease.
pub open spec fn timestamps_sorted(bars: Seq<Bar>) -> bool {
    forall|i: int, j: int| 0 <= i <= j < bars.len() ==> bars[i].timestamp <= bars[j].timestamp
}

/// The index of the last bar at or before a time, in bars sorted by time: none when the
/// first bar is later (or there are no bars).
pub fn find_bar_index_binary(bars: &[Bar], timestamp: i64) -> (r: Option<usize>)
    requires
        timestamps_sorted(bars@),
    ensures
        r matches Some(i) ==> i < bars@.len() && bars@[i as int].timestamp <= timestamp && (i + 1 == bars@.len()
            || bars@[i + 1].timestamp > timestamp),
        r is None ==> bars@.len() == 0 || bars@[0].timestamp > timestamp,
{
    if bars.len() == 0 {
        return None;
    }
    let mut low: usize = 0;
    let mut high: usize = bars.len();
    while low < high
        invariant
            low <= high <= bars@.len(),
            timestamps_sorted(bars@),
            forall|k: int| 0 <= k < low ==> bars@[k].timestamp <= timestamp,
            forall|k: int| high <= k < bars@.len() ==> bars@[k].timestamp > timestamp,
        decreases high - low,
    {
        let mid = low + (high - low) / 2;
        if bars[mid].timestamp <= timestamp {
            low = mid + 1;
        } else {
            high = mid;
        }
    }
    if low > 0 {
        Some(low - 1)
    } else if bars[0].timestamp <= timestamp {
        Some(0)
    } else {
        None
    }
}

/// The aggression of a bar is at that bar, with its timestamp.
proof fn lemma_events_at(bars: Seq<Bar>, i: int, cfg: AggressionConfig)
    requires
        0 <= i < bars.len(),
        bars.len() <= usize::MAX,
    ensures
        forall|j: int| 0 <= j < events_at(bars, i, cfg).len() ==> (#[trigger] events_at(bars, i, cfg)[j]).bar_idx == i
            && events_at(bars, i, cfg)[j].timestamp == bars[i].timestamp,
{
}

/// The aggression of bars in time order comes in time order: bar by bar, each event at
/// its bar's timestamp.
pub proof fn lemma_events_in_time_order(bars: Seq<Bar>, k: int, cfg: AggressionConfig)
    requires
        timestamps_sorted(bars),
        0 <= k <= bars.len(),
        bars.len() <= usize::MAX,
    ensures
        forall|i: int| 0 <= i < events_upto(bars, k, cfg).len() ==> {
            let e = #[trigger] events_upto(bars, k, cfg)[i];
            &&& e.bar_idx < k
            &&& e.timestamp == bars[e.bar_idx as int].timestamp
        },
        forall|i: int, j: int| 0 <= i <= j < events_upto(bars, k, cfg).len() ==> (#[trigger] events_upto(bars, k, cfg)[i]).timestamp
            <= (#[trigger] events_upto(bars, k, cfg)[j]).timestamp,
    decreases k,
{
    if k > cfg.lookback {
        lemma_events_in_time_order(bars, k - 1, cfg);
        lemma_events_at(bars, k - 1, cfg);
        let prev = events_upto(bars, k - 1, cfg);
        let cur = events_at(bars, k - 1, cfg);
        let all = events_upto(bars, k, cfg);
        assert(all == prev + cur);
        assert forall|i: int| 0 <= i < all.len() implies {
            let e = #[trigger] all[i];
            &&& e.bar_idx < k
            &&& e.timestamp == bars[e.bar_idx as int].timestamp
        } by {
            if i < prev.len() {
                assert(all[i] == prev[i]);
            } else {
                assert(all[i] == cur[i - prev.len()]);
            }
        }
        assert forall|i: int, j: int| 0 <= i <= j < all.len() implies (#[trigger] all[i]).timestamp <= (#[trigger] all[j]).timestamp by {
            if j < prev.len() {
                assert(all[i] == prev[i] && all[j] == prev[j]);
            } else if i >= prev.len() {
                assert(all[i] == cur[i - prev.len()] && all[j] == cur[j - prev.len()]);
            } else {
                assert(all[i] == prev[i] && all[j] == cur[j - prev.len()]);
                let a = prev[i].bar_idx as int;
                assert(a < k - 1);
                assert(bars[a].timestamp <= bars[k - 1].timestamp);
            }
        }
    }
}

/// A bar has at most three pieces of aggression.
pub proof fn lemma_events_count(bars: Seq<Bar>, k: int, cfg: AggressionConfig)
    ensures
        events_upto(bars, k, cfg).len() <= 3 * (if k > 0 { k } else { 0 }),
    decreases k,
{
    if k > cfg.lookback {
        lemma_events_count(bars, k - 1, cfg);
    }
}

/// A bar is one-sided to the side that holds at least `t / (t + 10)` of its volume:
/// `Long` only when buying does, `Short` only when selling does and buying does not, and
/// no side exactly when the bar has no volume or neither side does. With a ratio of at
/// least one (t >= 10), a side that holds that share holds the greater part, so the two
/// sides cannot both qualify unless they are equal.
pub proof fn lemma_one_sided_heavy_side(bar: Bar, t: int)
    requires
        t >= 0,
    ensures
        ({
            let total = bar.buy_volume + bar.sell_volume;
            &&& one_sided(bar, t) == Some(TradeDirection::Long) <==> total > 0 && bar.buy_volume * (t + 10) >= t * total
            &&& one_sided(bar, t) == Some(TradeDirection::Short) <==> total > 0 && bar.sell_volume * (t + 10) >= t * total
                && bar.buy_volume * (t + 10) < t * total
            &&& one_sided(bar, t) is None <==> total == 0 || (bar.buy_volume * (t + 10) < t * total && bar.sell_volume * (t
                + 10) < t * total)
            &&& t >= 10 && one_sided(bar, t) == Some(TradeDirection::Long) ==> bar.buy_volume >= bar.sell_volume
            &&& t >= 10 && one_sided(bar, t) == Some(TradeDirection::Short) ==> bar.sell_volume > bar.buy_volume
        }),
{
    let total = bar.buy_volume + bar.sell_volume;
    let b = bar.buy_volume as int;
    let s = bar.sell_volume as int;
    if t >= 10 && b * (t + 10) >= t * (b + s) {
        assert(b >= s) by (nonlinear_arith)
            requires t >= 10, b * (t + 10) >= t * (b + s), b >= 0, s >= 0;
    }
    if t >= 10 && s * (t + 10) >= t * (b + s) && b * (t + 10) < t * (b + s) {
        assert(s > b) by (nonlinear_arith)
            requires t >= 10, s * (t + 10) >= t * (b + s), b * (t + 10) < t * (b + s), b >= 0, s >= 0;
    }
}

/// Every event of a bar reads its side from the bar: a trade-flow imbalance has the side
/// the bar is one-sided to (see `lemma_one_sided_heavy_side`); a delta event is "up" and
/// long exactly when its delta is positive, "down" and short otherwise; every event is at
/// the bar's close, time and index, at full strength.
pub proof fn lemma_event_sides(bars: Seq<Bar>, i: int, cfg: AggressionConfig)
    requires
        0 <= i < bars.len(),
        bars.len() <= usize::MAX,
        forall|k: int| 0 <= k < bars.len() ==> -0x1000_0000_0000_0000 <= #[trigger] bars[k].delta <= 0x1000_0000_0000_0000,
    ensures
        forall|j: int| 0 <= j < events_at(bars, i, cfg).len() ==> {
            let e = #[trigger] events_at(bars, i, cfg)[j];
            &&& e.bar_idx == i && e.timestamp == bars[i].timestamp && e.price == bars[i].close && e.strength_tenths == 10
            &&& e.aggression_type == AggressionType::TradeFlowImbalance ==> one_sided(
                bars[i],
                cfg.imbalance_ratio_tenths as int,
            ) == Some(e.direction) && e.delta_change == bars[i].delta
            &&& e.aggression_type == AggressionType::DeltaMomentumUp ==> e.direction == TradeDirection::Long && e.delta_change > 0
            &&& e.aggression_type == AggressionType::DeltaMomentumDown ==> e.direction == TradeDirection::Short
                && e.delta_change <= 0
            &&& e.aggression_type == AggressionType::TradeFlowImbalance || e.aggression_type == AggressionType::DeltaMomentumUp
                || e.aggression_type == AggressionType::DeltaMomentumDown
        },
{
    let bar = bars[i];
    let lo = if i >= 3 { i - 3 } else { 0 };
    let w = bars.subrange(lo, i + 1);
    assert forall|k: int| 0 <= k < w.len() implies -0x1000_0000_0000_0000 <= #[trigger] w[k].delta <= 0x1000_0000_0000_0000 by {
        assert(w[k] == bars[lo + k]);
    }
    lemma_delta_sum_bounded(w);
    assert(w.len() <= 4);
    if !(bar.volume < cfg.min_volume || cfg.lookback == 0) {
        let window = bars.subrange(i - cfg.lookback, i);
        let flow = match one_sided(bar, cfg.imbalance_ratio_tenths as int) {
            Some(d) => if volume_spike(bar, window, cfg.volume_spike_mult_tenths as int) {
                seq![event_at(bars, i, AggressionType::TradeFlowImbalance, d, bar.delta as int)]
            } else {
                Seq::empty()
            },
            None => Seq::empty(),
        };
        let spike_dir = if bar.delta > 0 { TradeDirection::Long } else { TradeDirection::Short };
        let spike = if delta_spike(bar, window, cfg.volume_spike_mult_tenths as int) {
            seq![event_at(bars, i, momentum_type(spike_dir), spike_dir, bar.delta as int)]
        } else {
            Seq::empty()
        };
        let recent = delta_sum(w);
        let mom_dir = if recent > 0 { TradeDirection::Long } else { TradeDirection::Short };
        let momentum = if abs(recent) >= cfg.delta_momentum_threshold {
            seq![event_at(bars, i, momentum_type(mom_dir), mom_dir, recent)]
        } else {
            Seq::empty()
        };
        let all = flow + spike + momentum;
        assert(events_at(bars, i, cfg) == all);
        assert forall|j: int| 0 <= j < all.len() implies {
            let e = #[trigger] all[j];
            &&& e.bar_idx == i && e.timestamp == bars[i].timestamp && e.price == bars[i].close && e.strength_tenths == 10
            &&& e.aggression_type == AggressionType::TradeFlowImbalance ==> one_sided(
                bars[i],
                cfg.imbalance_ratio_tenths as int,
            ) == Some(e.direction) && e.delta_change == bars[i].delta
            &&& e.aggression_type == AggressionType::DeltaMomentumUp ==> e.direction == TradeDirection::Long && e.delta_change > 0
            &&& e.aggression_type == AggressionType::DeltaMomentumDown ==> e.direction == TradeDirection::Short
                && e.delta_change <= 0
            &&& e.aggression_type == AggressionType::TradeFlowImbalance || e.aggression_type == AggressionType::DeltaMomentumUp
                || e.aggression_type == AggressionType::DeltaMomentumDown
        } by {
            if j < flow.len() {
                assert(all[j] == flow[j]);
            } else if j < flow.len() + spike.len() {
                assert(all[j] == spike[j - flow.len()]);
            } else {
                assert(all[j] == momentum[j - flow.len() - spike.len()]);
            }
        }
    }
}

/// The delta of at most a few bounded bars stays well within an `i64`.
proof fn lemma_delta_sum_bounded(w: Seq<Bar>)
    requires
        forall|k: int| 0 <= k < w.len() ==> -0x1000_0000_0000_0000 <= #[trigger] w[k].delta <= 0x1000_0000_0000_0000,
    ensures
        -0x1000_0000_0000_0000 * w.len() <= delta_sum(w) <= 0x1000_0000_0000_0000 * w.len(),
    decreases w.len(),
{
    if w.len() > 0 {
        let t = w.drop_last();
        assert forall|k: int| 0 <= k < t.len() implies -0x1000_0000_0000_0000 <= #[trigger] t[k].delta <= 0x1000_0000_0000_0000 by {
            assert(t[k] == w[k]);
        }
        lemma_delta_sum_bounded(t);
        assert(w[w.len() - 1] == w.last());
    }
}

} // verus!
