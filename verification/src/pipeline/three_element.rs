//! The three-element backtest: a trade when the market state, a key level and
//! aggression agree. This module holds its rules: which trades the elements allow, the
//! session windows it trades, the simulation of a trade bar by bar, and the statistics
//! of a set of trades.

use vstd::prelude::*;

use crate::pipeline::aggression::AggressionConfig;
use crate::pipeline::bars::Bar;
use crate::pipeline::levels::LevelType;
use crate::units::{abs, Fraction, Price};

verus! {

/// How a trade is managed.
#[derive(Debug, Clone, Copy, PartialEq, Eq, Structural)]
pub enum TradeModel {
    /// Balanced market: fade at the extremes, tighter stops
    MeanReversion,
    /// Imbalanced market: join the trend, wider stops with trailing
    TrendContinuation,
}

impl TradeModel {
    /// The model's display name.
    pub fn label(&self) -> (r: &'static str)
        ensures
            *self == TradeModel::MeanReversion ==> r@ == "Mean Reversion"@,
            *self == TradeModel::TrendContinuation ==> r@ == "Trend Continuation"@,
    {
        match self {
            TradeModel::MeanReversion => "Mean Reversion",
            TradeModel::TrendContinuation => "Trend Continuation",
        }
    }
}

/// Direction of a trade.
#[derive(Debug, Clone, Copy, PartialEq, Eq, Structural)]
pub enum TradeDirection {
    Long,
    Short,
}

impl TradeDirection {
    /// `LONG` or `SHORT`.
    pub fn label(&self) -> (r: &'static str)
        ensures
            *self == TradeDirection::Long ==> r@ == "LONG"@,
            *self == TradeDirection::Short ==> r@ == "SHORT"@,
    {
        match self {
            TradeDirection::Long => "LONG",
            TradeDirection::Short => "SHORT",
        }
    }
}

/// How a trade ended.
#[derive(Debug, Clone, Copy, PartialEq, Eq, Structural)]
pub enum TradeOutcome {
    Win,
    Loss,
    /// Held to the end of its time, or stopped out at a profit
    Timeout,
}

/// The kind of aggression behind a trade.
#[derive(Debug, Clone, Copy, PartialEq, Eq, Structural)]
pub enum AggressionType {
    /// Buying pressure accelerating
    DeltaMomentumUp,
    /// Selling pressure accelerating
    DeltaMomentumDown,
    /// Aggressive buying stacked at several levels
    StackedBidImbalance,
    /// Aggressive selling stacked at several levels
    StackedAskImbalance,
    /// A heavily one-sided bar
    TradeFlowImbalance,
    /// A captured signal
    CapturedSignal,
}

impl AggressionType {
    /// The aggression's display name.
    pub fn label(&self) -> (r: &'static str)
        ensures
            *self == AggressionType::DeltaMomentumUp ==> r@ == "Delta Momentum Up"@,
            *self == AggressionType::DeltaMomentumDown ==> r@ == "Delta Momentum Down"@,
            *self == AggressionType::StackedBidImbalance ==> r@ == "Stacked Bid Imbalance"@,
            *self == AggressionType::StackedAskImbalance ==> r@ == "Stacked Ask Imbalance"@,
            *self == AggressionType::TradeFlowImbalance ==> r@ == "Trade Flow Imbalance"@,
            *self == AggressionType::CapturedSignal ==> r@ == "Signal"@,
    {
        match self {
            AggressionType::DeltaMomentumUp => "Delta Momentum Up",
            AggressionType::DeltaMomentumDown => "Delta Momentum Down",
            AggressionType::StackedBidImbalance => "Stacked Bid Imbalance",
            AggressionType::StackedAskImbalance => "Stacked Ask Imbalance",
            AggressionType::TradeFlowImbalance => "Trade Flow Imbalance",
            AggressionType::CapturedSignal => "Signal",
        }
    }
}

/// Settings of the three-element backtest. Distances in price units, holding times and
/// cooldowns in one-second bars.
#[derive(Debug, Clone, Copy, PartialEq, Eq, Structural)]
pub struct ThreeElementConfig {
    /// Distance from a level that counts as at the level
    pub level_tolerance: Price,
    pub mr_stop_loss: Price,
    pub mr_take_profit: Price,
    pub mr_max_hold_bars: u32,
    pub tc_stop_loss: Price,
    pub tc_take_profit: Price,
    pub tc_max_hold_bars: u32,
    /// Trailing distance of trend trades, also the profit that starts the trailing
    pub tc_trailing_stop: Price,
    /// Trade only the morning session and the last hour
    pub rth_only: bool,
    /// Bars after a trade's exit before the next trade
    pub global_cooldown: usize,
    /// Bars after a trade's exit before its level trades again
    pub level_cooldown: usize,
    /// How aggression is read from the bars
    pub aggression: AggressionConfig,
}

impl Default for ThreeElementConfig {
    /// Two points of level tolerance; mean reversion with a 6 point stop, a 12 point
    /// target and 3 bars of holding; trend continuation with a 10 point stop, a 30 point
    /// target, 10 bars and a 5 point trail; session filter on; cooldowns of 600 and 1800 bars;
    /// the default aggression settings.
    fn default() -> (r: Self)
        ensures
            r == (ThreeElementConfig {
                level_tolerance: 200,
                mr_stop_loss: 600,
                mr_take_profit: 1200,
                mr_max_hold_bars: 3,
                tc_stop_loss: 1000,
                tc_take_profit: 3000,
                tc_max_hold_bars: 10,
                tc_trailing_stop: 500,
                rth_only: true,
                global_cooldown: 600,
                level_cooldown: 1800,
                aggression: AggressionConfig {
                    lookback: 60,
                    delta_momentum_threshold: 500,
                    imbalance_ratio_tenths: 30,
                    volume_spike_mult_tenths: 50,
                    min_volume: 50,
                    use_captured_signals: true,
                },
            }),
    {
        ThreeElementConfig {
            level_tolerance: 200,
            mr_stop_loss: 600,
            mr_take_profit: 1200,
            mr_max_hold_bars: 3,
            tc_stop_loss: 1000,
            tc_take_profit: 3000,
            tc_max_hold_bars: 10,
            tc_trailing_stop: 500,
            rth_only: true,
            global_cooldown: 600,
            level_cooldown: 1800,
            aggression: AggressionConfig {
                lookback: 60,
                delta_momentum_threshold: 500,
                imbalance_ratio_tenths: 30,
                volume_spike_mult_tenths: 50,
                min_volume: 50,
                use_captured_signals: true,
            },
        }
    }
}

/// Minutes since midnight UTC of a timestamp in milliseconds.
pub open spec fn utc_minute_of_day(ts_millis: int) -> int {
    (ts_millis / 60_000) % 1440
}

/// Whether a UTC minute of the day falls in the traded sessions: the morning session
/// 14:30 to 17:00 UTC and the last hour 20:00 to 21:00 UTC.
pub open spec fn in_traded_session(minute: int) -> bool {
    (870 <= minute < 1020) || (1200 <= minute < 1260)
}

/// Whether a timestamp falls in the traded sessions (see `in_traded_session`).
pub fn is_rth(ts_millis: i64) -> (r: bool)
    ensures
        r == in_traded_session(utc_minute_of_day(ts_millis as int)),
{
    let minute_of_day = floor_mod_day(ts_millis);
    (870 <= minute_of_day && minute_of_day < 1020) || (1200 <= minute_of_day && minute_of_day < 1260)
}

/// Minutes since midnight UTC, computed on non-negative integers.
fn floor_mod_day(ts_millis: i64) -> (r: i64)
    ensures
        r == utc_minute_of_day(ts_millis as int),
        0 <= r < 1440,
{
    let t = ts_millis as i128;
    let day_ms: i128 = 86_400_000;
    // Shift into the non-negative range by whole days, which keeps the minute of day.
    let shifted: i128 = t + 110_000_000_000 * day_ms;
    proof {
        assert(shifted >= 0);
        assert((shifted / 60_000) % 1440 == (t / 60_000) % 1440) by (nonlinear_arith)
            requires shifted == t + 110_000_000_000 * 86_400_000;
    }
    ((shifted / 60_000) % 1440) as i64
}

/// The trade model of a market state.
pub open spec fn model_for(balanced: bool) -> TradeModel {
    if balanced {
        TradeModel::MeanReversion
    } else {
        TradeModel::TrendContinuation
    }
}

/// The trade model of a market state: mean reversion when balanced, trend continuation
/// when imbalanced.
pub fn trade_model(balanced: bool) -> (r: TradeModel)
    ensures
        r == model_for(balanced),
{
    if balanced {
        TradeModel::MeanReversion
    } else {
        TradeModel::TrendContinuation
    }
}

/// The direction the three elements allow: in a balanced market, longs off support
/// (value area low, prior day low, overnight low), shorts off resistance (value area high,
/// prior day high, overnight high), either way at the point of control or an LVN; in an
/// imbalanced market only with the trend.
pub open spec fn allowed_direction(balanced: bool, trend_direction: i8, level: LevelType, aggression: TradeDirection) -> Option<TradeDirection> {
    if balanced {
        match level {
            LevelType::VAL | LevelType::PDL | LevelType::ONL => if aggression == TradeDirection::Long {
                Some(TradeDirection::Long)
            } else {
                None
            },
            LevelType::VAH | LevelType::PDH | LevelType::ONH => if aggression == TradeDirection::Short {
                Some(TradeDirection::Short)
            } else {
                None
            },
            LevelType::POC | LevelType::LVN => Some(aggression),
        }
    } else if trend_direction > 0 && aggression == TradeDirection::Long {
        Some(TradeDirection::Long)
    } else if trend_direction < 0 && aggression == TradeDirection::Short {
        Some(TradeDirection::Short)
    } else {
        None
    }
}

/// Whether the market state, the level and the aggression's direction make a trade, and
/// in which direction (see `allowed_direction`).
pub fn should_take_trade(balanced: bool, trend_direction: i8, level: LevelType, aggression: TradeDirection) -> (r: Option<TradeDirection>)
    ensures
        r == allowed_direction(balanced, trend_direction, level, aggression),
{
    if balanced {
        match level {
            LevelType::VAL | LevelType::PDL | LevelType::ONL => if aggression == TradeDirection::Long {
                Some(TradeDirection::Long)
            } else {
                None
            },
            LevelType::VAH | LevelType::PDH | LevelType::ONH => if aggression == TradeDirection::Short {
                Some(TradeDirection::Short)
            } else {
                None
            },
            LevelType::POC | LevelType::LVN => Some(aggression),
        }
    } else if trend_direction > 0 && aggression == TradeDirection::Long {
        Some(TradeDirection::Long)
    } else if trend_direction < 0 && aggression == TradeDirection::Short {
        Some(TradeDirection::Short)
    } else {
        None
    }
}


/// A trade simulated on bars: bar indices, prices in price units.
#[derive(Debug, Clone, Copy, PartialEq, Eq, Structural)]
pub struct SimulatedTrade {
    pub entry_idx: usize,
    pub exit_idx: usize,
    pub entry_price: Price,
    pub exit_price: Price,
    pub stop_loss: Price,
    pub take_profit: Price,
    pub pnl: Price,
    pub outcome: TradeOutcome,
}

/// A simulated trade while it is held.
pub struct HoldState {
    pub exit_idx: int,
    pub exit_price: int,
    pub outcome: TradeOutcome,
    pub trailing: int,
    pub highest: int,
    pub lowest: int,
    pub closed: bool,
}

/// A held trade after bar `i`: the bar extends the extremes; a trend trade's stop trails
/// the extreme by the trailing distance once the extreme is that far in profit (and only
/// tightens); then the target is checked before the stop.
pub open spec fn hold_step(
    s: HoldState,
    i: int,
    bar: Bar,
    direction: TradeDirection,
    model: TradeModel,
    entry: int,
    target: int,
    trail: int,
) -> HoldState {
    let highest = if bar.high > s.highest { bar.high as int } else { s.highest };
    let lowest = if bar.low < s.lowest { bar.low as int } else { s.lowest };
    let trailing = if model == TradeModel::TrendContinuation {
        match direction {
            TradeDirection::Long => if highest >= entry + trail && highest - trail > s.trailing {
                highest - trail
            } else {
                s.trailing
            },
            TradeDirection::Short => if lowest <= entry - trail && lowest + trail < s.trailing {
                lowest + trail
            } else {
                s.trailing
            },
        }
    } else {
        s.trailing
    };
    let held = HoldState { exit_idx: i, highest, lowest, trailing, ..s };
    match direction {
        TradeDirection::Long => if bar.high >= target {
            HoldState { exit_price: target, outcome: TradeOutcome::Win, closed: true, ..held }
        } else if bar.low <= trailing {
            HoldState { exit_price: trailing, outcome: TradeOutcome::Loss, closed: true, ..held }
        } else {
            held
        },
        TradeDirection::Short => if bar.low <= target {
            HoldState { exit_price: target, outcome: TradeOutcome::Win, closed: true, ..held }
        } else if bar.high >= trailing {
            HoldState { exit_price: trailing, outcome: TradeOutcome::Loss, closed: true, ..held }
        } else {
            held
        },
    }
}

/// The held trade after the bars `first .. k`, stopping at the bar that closes it.
pub open spec fn hold(
    bars: Seq<Bar>,
    first: int,
    k: int,
    init: HoldState,
    direction: TradeDirection,
    model: TradeModel,
    entry: int,
    target: int,
    trail: int,
) -> HoldState
    decreases k - first,
{
    if k <= first {
        init
    } else {
        let s = hold(bars, first, k - 1, init, direction, model, entry, target, trail);
        if s.closed {
            s
        } else {
            hold_step(s, k - 1, bars[k - 1], direction, model, entry, target, trail)
        }
    }
}

/// Once closed, a held trade stays as it is.
pub proof fn lemma_hold_closed(
    bars: Seq<Bar>,
    first: int,
    k: int,
    k2: int,
    init: HoldState,
    direction: TradeDirection,
    model: TradeModel,
    entry: int,
    target: int,
    trail: int,
)
    requires
        first <= k <= k2,
        hold(bars, first, k, init, direction, model, entry, target, trail).closed,
    ensures
        hold(bars, first, k2, init, direction, model, entry, target, trail) == hold(bars, first, k, init, direction, model, entry, target, trail),
    decreases k2 - k,
{
    if k2 > k {
        lemma_hold_closed(bars, first, k, k2 - 1, init, direction, model, entry, target, trail);
    }
}

/// Stop distance, target distance and bars of holding of a trade model.
pub open spec fn exit_params(model: TradeModel, cfg: ThreeElementConfig) -> (Price, Price, u32) {
    match model {
        TradeModel::MeanReversion => (cfg.mr_stop_loss, cfg.mr_take_profit, cfg.mr_max_hold_bars),
        TradeModel::TrendContinuation => (cfg.tc_stop_loss, cfg.tc_take_profit, cfg.tc_max_hold_bars),
    }
}

/// The trade after the bar at `signal_idx`: it enters at the next bar's open, with the
/// model's stop and target, and is held over at most the model's bars (see `hold`); held
/// to the end, it exits at the last bar's close. Entries outside 10000 to 50000 points,
/// and exits more than 500 points from the entry, give no trade. A stop hit at a profit,
/// and a timed-out trade at a profit, count as timeouts; any other trade that did not
/// reach its target is a loss.
pub open spec fn simulated(bars: Seq<Bar>, signal_idx: int, direction: TradeDirection, model: TradeModel, cfg: ThreeElementConfig) -> Option<SimulatedTrade> {
    let entry_idx = signal_idx + 1;
    if entry_idx >= bars.len() {
        None
    } else {
        let entry = bars[entry_idx].open as int;
        let (sl, tp, max_hold) = exit_params(model, cfg);
        let (stop, target) = match direction {
            TradeDirection::Long => (entry - sl, entry + tp),
            TradeDirection::Short => (entry + sl, entry - tp),
        };
        let end = if bars.len() < entry_idx + max_hold + 1 { bars.len() as int } else { entry_idx + max_hold + 1 };
        let init = HoldState {
            exit_idx: entry_idx,
            exit_price: entry,
            outcome: TradeOutcome::Timeout,
            trailing: stop,
            highest: entry,
            lowest: entry,
            closed: false,
        };
        let s = hold(bars, entry_idx + 1, end, init, direction, model, entry, target, cfg.tc_trailing_stop as int);
        let exit_price = if s.outcome == TradeOutcome::Timeout { bars[s.exit_idx].close as int } else { s.exit_price };
        if entry < 1_000_000 || entry > 5_000_000 {
            None
        } else if abs(exit_price - entry) > 50_000 {
            None
        } else {
            let pnl = match direction {
                TradeDirection::Long => exit_price - entry,
                TradeDirection::Short => entry - exit_price,
            };
            let outcome = match s.outcome {
                TradeOutcome::Win => TradeOutcome::Win,
                _ => if pnl > 0 { TradeOutcome::Timeout } else { TradeOutcome::Loss },
            };
            Some(SimulatedTrade {
                entry_idx: entry_idx as usize,
                exit_idx: s.exit_idx as usize,
                entry_price: entry as i64,
                exit_price: exit_price as i64,
                stop_loss: stop as i64,
                take_profit: target as i64,
                pnl: pnl as i64,
                outcome,
            })
        }
    }
}

/// A held trade leaves at its entry bar or at a bar it was held over.
proof fn lemma_hold_exit_idx(
    bars: Seq<Bar>,
    first: int,
    k: int,
    init: HoldState,
    direction: TradeDirection,
    model: TradeModel,
    entry: int,
    target: int,
    trail: int,
)
    requires
        0 <= first,
        k <= bars.len(),
        0 <= init.exit_idx < bars.len(),
    ensures
        0 <= hold(bars, first, k, init, direction, model, entry, target, trail).exit_idx < bars.len(),
    decreases k - first,
{
    if k > first {
        lemma_hold_exit_idx(bars, first, k - 1, init, direction, model, entry, target, trail);
    }
}

/// A simulated trade's entry and exit bars are bars of the run.
pub proof fn lemma_simulated_indices(bars: Seq<Bar>, signal_idx: int, direction: TradeDirection, model: TradeModel, cfg: ThreeElementConfig)
    requires
        0 <= signal_idx,
        simulated(bars, signal_idx, direction, model, cfg) is Some,
    ensures
        simulated(bars, signal_idx, direction, model, cfg)->0.entry_idx < bars.len(),
        simulated(bars, signal_idx, direction, model, cfg)->0.exit_idx < bars.len(),
        -50_000 <= simulated(bars, signal_idx, direction, model, cfg)->0.pnl <= 50_000,
{
    let entry_idx = signal_idx + 1;
    let entry = bars[entry_idx].open as int;
    let (sl, tp, max_hold) = exit_params(model, cfg);
    let (stop, target) = match direction {
        TradeDirection::Long => (entry - sl, entry + tp),
        TradeDirection::Short => (entry + sl, entry - tp),
    };
    let end = if bars.len() < entry_idx + max_hold + 1 { bars.len() as int } else { entry_idx + max_hold + 1 };
    let init = HoldState {
        exit_idx: entry_idx,
        exit_price: entry,
        outcome: TradeOutcome::Timeout,
        trailing: stop,
        highest: entry,
        lowest: entry,
        closed: false,
    };
    lemma_hold_exit_idx(bars, entry_idx + 1, end, init, direction, model, entry, target, cfg.tc_trailing_stop as int);
}

/// Bound on prices and distances of the simulation: 2^60 price units.
pub open spec fn bounded(x: int) -> bool {
    -0x1000_0000_0000_0000 <= x <= 0x1000_0000_0000_0000
}

/// Whether every price of the bars is bounded.
pub open spec fn bars_bounded(bars: Seq<Bar>) -> bool {
    forall|i: int| 0 <= i < bars.len() ==> {
        &&& bounded((#[trigger] bars[i]).open as int)
        &&& bounded(bars[i].high as int)
        &&& bounded(bars[i].low as int)
        &&& bounded(bars[i].close as int)
    }
}

/// A held trade, in machine integers.
struct Held {
    exit_idx: usize,
    exit_price: i64,
    outcome: TradeOutcome,
    trailing: i64,
    highest: i64,
    lowest: i64,
    closed: bool,
}

impl Held {
    spec fn state(&self) -> HoldState {
        HoldState {
            exit_idx: self.exit_idx as int,
            exit_price: self.exit_price as int,
            outcome: self.outcome,
            trailing: self.trailing as int,
            highest: self.highest as int,
            lowest: self.lowest as int,
            closed: self.closed,
        }
    }

    spec fn in_range(&self) -> bool {
        &&& -0x4000_0000_0000_0000 <= self.trailing <= 0x4000_0000_0000_0000
        &&& -0x4000_0000_0000_0000 <= self.exit_price <= 0x4000_0000_0000_0000
        &&& bounded(self.highest as int)
        &&& bounded(self.lowest as int)
    }
}

fn hold_bar(
    s: Held,
    i: usize,
    bar: &Bar,
    direction: TradeDirection,
    model: TradeModel,
    entry: i64,
    target: i64,
    trail: i64,
) -> (r: Held)
    requires
        s.in_range(),
        bounded(bar.high as int),
        bounded(bar.low as int),
        bounded(entry as int),
        bounded(trail as int),
        -0x4000_0000_0000_0000 <= target <= 0x4000_0000_0000_0000,
    ensures
        r.in_range(),
        r.state() == hold_step(s.state(), i as int, *bar, direction, model, entry as int, target as int, trail as int),
{
    let highest = if bar.high > s.highest { bar.high } else { s.highest };
    let lowest = if bar.low < s.lowest { bar.low } else { s.lowest };
    let mut trailing = s.trailing;
    if model == TradeModel::TrendContinuation {
        match direction {
            TradeDirection::Long => {
                if highest >= entry + trail && highest - trail > trailing {
                    trailing = highest - trail;
                }
            },
            TradeDirection::Short => {
                if lowest <= entry - trail && lowest + trail < trailing {
                    trailing = lowest + trail;
                }
            },
        }
    }
    let held = Held { exit_idx: i, highest, lowest, trailing, ..s };
    match direction {
        TradeDirection::Long => if bar.high >= target {
            Held { exit_price: target, outcome: TradeOutcome::Win, closed: true, ..held }
        } else if bar.low <= trailing {
            Held { exit_price: trailing, outcome: TradeOutcome::Loss, closed: true, ..held }
        } else {
            held
        },
        TradeDirection::Short => if bar.low <= target {
            Held { exit_price: target, outcome: TradeOutcome::Win, closed: true, ..held }
        } else if bar.high >= trailing {
            Held { exit_price: trailing, outcome: TradeOutcome::Loss, closed: true, ..held }
        } else {
            held
        },
    }
}

/// Holds the trade over the bars `entry_idx + 1 .. end` (see `hold`).
fn hold_over(
    bars: &[Bar],
    entry_idx: usize,
    end: usize,
    direction: TradeDirection,
    model: TradeModel,
    entry: i64,
    stop: i64,
    target: i64,
    trail: i64,
) -> (r: Held)
    requires
        entry_idx < bars@.len(),
        entry_idx + 1 <= end <= bars@.len(),
        bars_bounded(bars@),
        bounded(entry as int),
        bounded(trail as int),
        -0x4000_0000_0000_0000 <= target <= 0x4000_0000_0000_0000,
        -0x4000_0000_0000_0000 <= stop <= 0x4000_0000_0000_0000,
    ensures
        r.in_range(),
        r.exit_idx < bars@.len(),
        r.state() == hold(
            bars@,
            entry_idx + 1,
            end as int,
            HoldState {
                exit_idx: entry_idx as int,
                exit_price: entry as int,
                outcome: TradeOutcome::Timeout,
                trailing: stop as int,
                highest: entry as int,
                lowest: entry as int,
                closed: false,
            },
            direction,
            model,
            entry as int,
            target as int,
            trail as int,
        ),
{
    let ghost init = HoldState {
        exit_idx: entry_idx as int,
        exit_price: entry as int,
        outcome: TradeOutcome::Timeout,
        trailing: stop as int,
        highest: entry as int,
        lowest: entry as int,
        closed: false,
    };
    let mut s = Held {
        exit_idx: entry_idx,
        exit_price: entry,
        outcome: TradeOutcome::Timeout,
        trailing: stop,
        highest: entry,
        lowest: entry,
        closed: false,
    };
    let mut i = entry_idx + 1;
    while i < end && !s.closed
        invariant
            entry_idx + 1 <= i <= end,
            end <= bars@.len(),
            bars_bounded(bars@),
            bounded(entry as int),
            bounded(trail as int),
            -0x4000_0000_0000_0000 <= target <= 0x4000_0000_0000_0000,
            s.in_range(),
            s.exit_idx < bars@.len(),
            s.state() == hold(bars@, entry_idx + 1, i as int, init, direction, model, entry as int, target as int, trail as int),
        decreases end - i,
    {
        proof {
            assert(bounded(bars@[i as int].high as int) && bounded(bars@[i as int].low as int));
        }
        s = hold_bar(s, i, &bars[i], direction, model, entry, target, trail);
        i = i + 1;
    }
    proof {
        if s.closed {
            lemma_hold_closed(bars@, entry_idx + 1, i as int, end as int, init, direction, model, entry as int, target as int, trail as int);
        }
    }
    s
}

/// Simulates the trade after the bar at `signal_idx` (see `simulated`).
pub fn simulate_trade(
    bars: &[Bar],
    signal_idx: usize,
    direction: TradeDirection,
    model: TradeModel,
    cfg: &ThreeElementConfig,
) -> (r: Option<SimulatedTrade>)
    requires
        bars_bounded(bars@),
        bounded(cfg.mr_stop_loss as int),
        bounded(cfg.mr_take_profit as int),
        bounded(cfg.tc_stop_loss as int),
        bounded(cfg.tc_take_profit as int),
        bounded(cfg.tc_trailing_stop as int),
    ensures
        r == simulated(bars@, signal_idx as int, direction, model, *cfg),
{
    if signal_idx as u128 + 1 >= bars.len() as u128 {
        return None;
    }
    let entry_idx = signal_idx + 1;
    let entry = bars[entry_idx].open;
    proof {
        assert(bounded(bars@[entry_idx as int].open as int));
    }
    let (sl, tp, max_hold) = match model {
        TradeModel::MeanReversion => (cfg.mr_stop_loss, cfg.mr_take_profit, cfg.mr_max_hold_bars),
        TradeModel::TrendContinuation => (cfg.tc_stop_loss, cfg.tc_take_profit, cfg.tc_max_hold_bars),
    };
    let (stop, target) = match direction {
        TradeDirection::Long => (entry - sl, entry + tp),
        TradeDirection::Short => (entry + sl, entry - tp),
    };
    let end: usize = if (bars.len() as u128) < entry_idx as u128 + max_hold as u128 + 1 {
        bars.len()
    } else {
        entry_idx + max_hold as usize + 1
    };
    let s = hold_over(bars, entry_idx, end, direction, model, entry, stop, target, cfg.tc_trailing_stop);
    let exit_price = if s.outcome == TradeOutcome::Timeout {
        proof {
            assert(bounded(bars@[s.exit_idx as int].close as int));
        }
        bars[s.exit_idx].close
    } else {
        s.exit_price
    };
    if entry < 1_000_000 || entry > 5_000_000 {
        return None;
    }
    let distance: i64 = if exit_price >= entry { exit_price - entry } else { entry - exit_price };
    if distance > 50_000 {
        return None;
    }
    let pnl = match direction {
        TradeDirection::Long => exit_price - entry,
        TradeDirection::Short => entry - exit_price,
    };
    let outcome = match s.outcome {
        TradeOutcome::Win => TradeOutcome::Win,
        _ => if pnl > 0 {
            TradeOutcome::Timeout
        } else {
            TradeOutcome::Loss
        },
    };
    Some(SimulatedTrade { entry_idx, exit_idx: s.exit_idx, entry_price: entry, exit_price, stop_loss: stop, take_profit: target, pnl, outcome })
}


/// Statistics of a set of trades, P&L in price units: counts by outcome, the total, the
/// gains (wins, and timeouts at a profit or flat) and losses (losses, and timeouts at a
/// loss, as positive amounts), and the largest win and loss.
#[derive(Debug, Clone, Copy, PartialEq, Eq, Structural)]
pub struct ModelStats {
    pub trade_count: u32,
    pub wins: u32,
    pub losses: u32,
    pub timeouts: u32,
    pub total_pnl: i64,
    pub total_wins: i64,
    pub total_losses: i64,
    pub largest_win: Price,
    pub largest_loss: Price,
}

/// The statistics of no trades.
pub open spec fn empty_stats() -> ModelStats {
    ModelStats {
        trade_count: 0,
        wins: 0,
        losses: 0,
        timeouts: 0,
        total_pnl: 0,
        total_wins: 0,
        total_losses: 0,
        largest_win: 0,
        largest_loss: 0,
    }
}

/// The statistics after one more trade (the count is set separately).
pub open spec fn stats_add(st: ModelStats, t: SimulatedTrade) -> ModelStats {
    let p = t.pnl as int;
    let added = ModelStats { total_pnl: (st.total_pnl + p) as i64, ..st };
    match t.outcome {
        TradeOutcome::Win => ModelStats {
            wins: (st.wins + 1) as u32,
            total_wins: (st.total_wins + p) as i64,
            largest_win: if p > st.largest_win { p as i64 } else { st.largest_win },
            ..added
        },
        TradeOutcome::Loss => ModelStats {
            losses: (st.losses + 1) as u32,
            total_losses: (st.total_losses + abs(p)) as i64,
            largest_loss: if abs(p) > st.largest_loss { abs(p) as i64 } else { st.largest_loss },
            ..added
        },
        TradeOutcome::Timeout => if p >= 0 {
            ModelStats { timeouts: (st.timeouts + 1) as u32, total_wins: (st.total_wins + p) as i64, ..added }
        } else {
            ModelStats { timeouts: (st.timeouts + 1) as u32, total_losses: (st.total_losses + abs(p)) as i64, ..added }
        },
    }
}

/// The statistics of the trades, counted in order.
pub open spec fn stats_of(trades: Seq<SimulatedTrade>) -> ModelStats
    decreases trades.len(),
{
    if trades.len() == 0 {
        empty_stats()
    } else {
        stats_add(stats_of(trades.drop_last()), trades.last())
    }
}

/// Whether every trade's P&L is within 2^31 price units of zero.
pub open spec fn pnl_bounded(trades: Seq<SimulatedTrade>) -> bool {
    forall|i: int| 0 <= i < trades.len() ==> -0x8000_0000 <= #[trigger] trades[i].pnl <= 0x8000_0000
}

proof fn lemma_stats_bounds(trades: Seq<SimulatedTrade>)
    requires
        pnl_bounded(trades),
        trades.len() <= u32::MAX,
    ensures
        stats_of(trades).wins + stats_of(trades).losses + stats_of(trades).timeouts == trades.len(),
        stats_of(trades).wins <= trades.len(),
        stats_of(trades).losses <= trades.len(),
        stats_of(trades).timeouts <= trades.len(),
        abs(stats_of(trades).total_pnl as int) <= trades.len() * 0x8000_0000,
        abs(stats_of(trades).total_wins as int) <= trades.len() * 0x8000_0000,
        0 <= stats_of(trades).total_losses <= trades.len() * 0x8000_0000,
        0 <= stats_of(trades).largest_win <= 0x8000_0000,
        0 <= stats_of(trades).largest_loss <= 0x8000_0000,
    decreases trades.len(),
{
    if trades.len() > 0 {
        let t = trades.drop_last();
        assert(pnl_bounded(t)) by {
            assert forall|i: int| 0 <= i < t.len() implies -0x8000_0000 <= #[trigger] t[i].pnl <= 0x8000_0000 by {
                assert(t[i] == trades[i]);
            }
        }
        lemma_stats_bounds(t);
        assert(trades[trades.len() - 1] == trades.last());
        let n = trades.len();
        assert((n - 1) * 0x8000_0000 + 0x8000_0000 == n * 0x8000_0000) by (nonlinear_arith);
        assert(n * 0x8000_0000 <= 0xffff_ffff * 0x8000_0000) by (nonlinear_arith)
            requires n <= 0xffff_ffff;
    }
}

/// The share of won trades in percent, as a fraction; zero without trades.
pub open spec fn win_rate_of(st: ModelStats) -> Fraction {
    if st.trade_count == 0 {
        Fraction { num: 0, den: 1 }
    } else {
        Fraction { num: (st.wins * 100) as i64, den: st.trade_count as i64 }
    }
}

/// The gains per won trade, as a fraction; zero without wins.
pub open spec fn avg_win_of(st: ModelStats) -> Fraction {
    if st.wins == 0 {
        Fraction { num: 0, den: 1 }
    } else {
        Fraction { num: st.total_wins, den: st.wins as i64 }
    }
}

/// The losses per lost trade, as a fraction; zero without losses.
pub open spec fn avg_loss_of(st: ModelStats) -> Fraction {
    if st.losses == 0 {
        Fraction { num: 0, den: 1 }
    } else {
        Fraction { num: st.total_losses, den: st.losses as i64 }
    }
}

/// Gains over losses, as a fraction: `None` (unbounded) where there are gains and no
/// losses, zero where there are neither.
pub open spec fn profit_factor_of(st: ModelStats) -> Option<Fraction> {
    if st.total_losses > 0 {
        Some(Fraction { num: st.total_wins, den: st.total_losses })
    } else if st.total_wins > 0 {
        None
    } else {
        Some(Fraction { num: 0, den: 1 })
    }
}

impl ModelStats {
    /// The share of won trades in percent (see `win_rate_of`).
    pub fn win_rate(&self) -> (r: Fraction)
        ensures
            r == win_rate_of(*self),
    {
        if self.trade_count == 0 {
            Fraction { num: 0, den: 1 }
        } else {
            Fraction { num: self.wins as i64 * 100, den: self.trade_count as i64 }
        }
    }

    /// The gains per won trade (see `avg_win_of`).
    pub fn avg_win(&self) -> (r: Fraction)
        ensures
            r == avg_win_of(*self),
    {
        if self.wins == 0 {
            Fraction { num: 0, den: 1 }
        } else {
            Fraction { num: self.total_wins, den: self.wins as i64 }
        }
    }

    /// The losses per lost trade (see `avg_loss_of`).
    pub fn avg_loss(&self) -> (r: Fraction)
        ensures
            r == avg_loss_of(*self),
    {
        if self.losses == 0 {
            Fraction { num: 0, den: 1 }
        } else {
            Fraction { num: self.total_losses, den: self.losses as i64 }
        }
    }

    /// Gains over losses (see `profit_factor_of`).
    pub fn profit_factor(&self) -> (r: Option<Fraction>)
        ensures
            r == profit_factor_of(*self),
    {
        if self.total_losses > 0 {
            Some(Fraction { num: self.total_wins, den: self.total_losses })
        } else if self.total_wins > 0 {
            None
        } else {
            Some(Fraction { num: 0, den: 1 })
        }
    }

    /// The statistics of the trades (see `stats_of`), with their number as the count.
    pub fn from_trades(trades: &[SimulatedTrade]) -> (r: ModelStats)
        requires
            trades@.len() <= u32::MAX,
            pnl_bounded(trades@),
        ensures
            r == (ModelStats { trade_count: trades@.len() as u32, ..stats_of(trades@) }),
    {
        let mut st = ModelStats {
            trade_count: 0,
            wins: 0,
            losses: 0,
            timeouts: 0,
            total_pnl: 0,
            total_wins: 0,
            total_losses: 0,
            largest_win: 0,
            largest_loss: 0,
        };
        let mut i: usize = 0;
        while i < trades.len()
            invariant
                i <= trades@.len(),
                trades@.len() <= u32::MAX,
                pnl_bounded(trades@),
                st == stats_of(trades@.take(i as int)),
            decreases trades@.len() - i,
        {
            let t = trades[i];
            proof {
                assert(trades@.take(i + 1).drop_last() =~= trades@.take(i as int));
                assert(pnl_bounded(trades@.take(i as int))) by {
                    assert forall|j: int| 0 <= j < i implies -0x8000_0000 <= #[trigger] trades@.take(i as int)[j].pnl <= 0x8000_0000 by {
                        assert(trades@.take(i as int)[j] == trades@[j]);
                    }
                }
                lemma_stats_bounds(trades@.take(i as int));
                assert(-0x8000_0000 <= t.pnl <= 0x8000_0000);
                assert(i * 0x8000_0000 <= 0xffff_ffff * 0x8000_0000) by (nonlinear_arith)
                    requires i <= 0xffff_ffff;
            }
            let p = t.pnl;
            st.total_pnl = st.total_pnl + p;
            match t.outcome {
                TradeOutcome::Win => {
                    st.wins = st.wins + 1;
                    st.total_wins = st.total_wins + p;
                    if p > st.largest_win {
                        st.largest_win = p;
                    }
                },
                TradeOutcome::Loss => {
                    let a = if p < 0 { -p } else { p };
                    st.losses = st.losses + 1;
                    st.total_losses = st.total_losses + a;
                    if a > st.largest_loss {
                        st.largest_loss = a;
                    }
                },
                TradeOutcome::Timeout => {
                    st.timeouts = st.timeouts + 1;
                    if p >= 0 {
                        st.total_wins = st.total_wins + p;
                    } else {
                        st.total_losses = st.total_losses - p;
                    }
                },
            }
            i += 1;
        }
        proof {
            assert(trades@.take(i as int) =~= trades@);
        }
        st.trade_count = trades.len() as u32;
        st
    }
}

/// The largest fall of cumulative P&L from its running peak (the peak starts at zero),
/// with the final cumulative P&L and peak.
pub open spec fn drawdown_of(pnls: Seq<i64>) -> (int, int, int)
    decreases pnls.len(),
{
    if pnls.len() == 0 {
        (0, 0, 0)
    } else {
        let (cum, peak, dd) = drawdown_of(pnls.drop_last());
        let c = cum + pnls.last();
        let pk = if c > peak { c } else { peak };
        let d = if pk - c > dd { pk - c } else { dd };
        (c, pk, d)
    }
}

/// The largest drawdown of a sequence of trade P&Ls (see `drawdown_of`).
pub fn max_drawdown(pnls: &[i64]) -> (r: i128)
    requires
        pnls@.len() <= u32::MAX,
    ensures
        r == drawdown_of(pnls@).2,
{
    let mut cum: i128 = 0;
    let mut peak: i128 = 0;
    let mut dd: i128 = 0;
    let mut i: usize = 0;
    while i < pnls.len()
        invariant
            i <= pnls@.len(),
            pnls@.len() <= u32::MAX,
            (cum as int, peak as int, dd as int) == drawdown_of(pnls@.take(i as int)),
            -i * 0x8000_0000_0000_0000 <= cum <= i * 0x8000_0000_0000_0000,
            0 <= peak <= i * 0x8000_0000_0000_0000,
            0 <= dd <= 2 * i * 0x8000_0000_0000_0000,
        decreases pnls@.len() - i,
    {
        proof {
            assert(pnls@.take(i + 1).drop_last() =~= pnls@.take(i as int));
            assert(pnls@.take(i + 1).last() == pnls@[i as int]);
            assert(i * 0x8000_0000_0000_0000 <= 0xffff_ffff * 0x8000_0000_0000_0000) by (nonlinear_arith)
                requires i <= 0xffff_ffff;
        }
        cum = cum + pnls[i] as i128;
        if cum > peak {
            peak = cum;
        }
        if peak - cum > dd {
            dd = peak - cum;
        }
        i += 1;
    }
    proof {
        assert(pnls@.take(i as int) =~= pnls@);
    }
    dd
}


/// Holding a trade reads only the bars it walks over.
proof fn lemma_hold_reads_from(
    bars1: Seq<Bar>,
    bars2: Seq<Bar>,
    first: int,
    k: int,
    init: HoldState,
    direction: TradeDirection,
    model: TradeModel,
    entry: int,
    target: int,
    trail: int,
)
    requires
        forall|i: int| first <= i < k ==> bars1[i] == bars2[i],
    ensures
        hold(bars1, first, k, init, direction, model, entry, target, trail) == hold(bars2, first, k, init, direction, model, entry, target, trail),
    decreases k - first,
{
    if k > first {
        lemma_hold_reads_from(bars1, bars2, first, k - 1, init, direction, model, entry, target, trail);
    }
}

proof fn lemma_hold_exit_index(
    bars: Seq<Bar>,
    first: int,
    k: int,
    init: HoldState,
    direction: TradeDirection,
    model: TradeModel,
    entry: int,
    target: int,
    trail: int,
)
    requires
        first <= k,
    ensures
        hold(bars, first, k, init, direction, model, entry, target, trail).exit_idx == init.exit_idx
            || first <= hold(bars, first, k, init, direction, model, entry, target, trail).exit_idx < k,
    decreases k - first,
{
    if k > first {
        lemma_hold_exit_index(bars, first, k - 1, init, direction, model, entry, target, trail);
    }
}

/// No look-ahead: a simulated trade depends only on the bars after its signal bar. Two bar
/// series of the same length that agree from the entry bar on give the same trade.
pub proof fn lemma_no_lookahead(
    bars1: Seq<Bar>,
    bars2: Seq<Bar>,
    signal_idx: int,
    direction: TradeDirection,
    model: TradeModel,
    cfg: ThreeElementConfig,
)
    requires
        0 <= signal_idx,
        bars1.len() == bars2.len(),
        forall|i: int| signal_idx < i < bars1.len() ==> bars1[i] == bars2[i],
    ensures
        simulated(bars1, signal_idx, direction, model, cfg) == simulated(bars2, signal_idx, direction, model, cfg),
{
    let entry_idx = signal_idx + 1;
    if entry_idx < bars1.len() && entry_idx >= 0 {
        let entry = bars1[entry_idx].open as int;
        let (sl, tp, max_hold) = exit_params(model, cfg);
        let (stop, target) = match direction {
            TradeDirection::Long => (entry - sl, entry + tp),
            TradeDirection::Short => (entry + sl, entry - tp),
        };
        let end = if bars1.len() < entry_idx + max_hold + 1 { bars1.len() as int } else { entry_idx + max_hold + 1 };
        let init = HoldState {
            exit_idx: entry_idx,
            exit_price: entry,
            outcome: TradeOutcome::Timeout,
            trailing: stop,
            highest: entry,
            lowest: entry,
            closed: false,
        };
        lemma_hold_reads_from(bars1, bars2, entry_idx + 1, end, init, direction, model, entry, target, cfg.tc_trailing_stop as int);
        lemma_hold_exit_index(bars1, entry_idx + 1, end, init, direction, model, entry, target, cfg.tc_trailing_stop as int);
    }
}

/// A bar seen upside down: every price negated, so its high is the negated low.
pub open spec fn mirrored_bar(b: Bar) -> Bar {
    Bar { open: (-b.open) as i64, high: (-b.low) as i64, low: (-b.high) as i64, close: (-b.close) as i64, ..b }
}

/// A held trade seen upside down: prices negated, the highest and lowest swapped.
pub open spec fn mirrored_hold(s: HoldState) -> HoldState {
    HoldState { exit_price: -s.exit_price, trailing: -s.trailing, highest: -s.lowest, lowest: -s.highest, ..s }
}

/// A short is a long upside down: holding a short over a bar gives what holding a long
/// over the mirrored bar gives, with the entry, target, stop and extremes mirrored.
pub proof fn lemma_hold_step_mirror(
    s: HoldState,
    i: int,
    bar: Bar,
    model: TradeModel,
    entry: int,
    target: int,
    trail: int,
)
    requires
        bar.open > i64::MIN,
        bar.high > i64::MIN,
        bar.low > i64::MIN,
        bar.close > i64::MIN,
    ensures
        hold_step(s, i, bar, TradeDirection::Short, model, entry, target, trail) == mirrored_hold(
            hold_step(mirrored_hold(s), i, mirrored_bar(bar), TradeDirection::Long, model, -entry, -target, trail),
        ),
{
}

/// A simulated trade's target is the model's take-profit distance on the winning side of
/// the entry and its stop the model's stop distance on the losing side; its P&L is the
/// exit less the entry for a long and the entry less the exit for a short; a trade that
/// did not win is a timeout exactly when it made money; and a win exits at the target.
pub proof fn lemma_simulated_trade_sides(
    bars: Seq<Bar>,
    signal_idx: int,
    direction: TradeDirection,
    model: TradeModel,
    cfg: ThreeElementConfig,
)
    requires
        bounded(exit_params(model, cfg).0 as int),
        bounded(exit_params(model, cfg).1 as int),
    ensures
        simulated(bars, signal_idx, direction, model, cfg) matches Some(t) ==> {
            let (sl, tp, _) = exit_params(model, cfg);
            &&& direction == TradeDirection::Long ==> t.take_profit == t.entry_price + tp && t.stop_loss == t.entry_price - sl
                && t.pnl == t.exit_price - t.entry_price
            &&& direction == TradeDirection::Short ==> t.take_profit == t.entry_price - tp && t.stop_loss == t.entry_price + sl
                && t.pnl == t.entry_price - t.exit_price
            &&& t.outcome != TradeOutcome::Win ==> (t.outcome == TradeOutcome::Timeout <==> t.pnl > 0)
        },
{
}

/// The three elements only ever confirm the aggression's own direction: in a balanced
/// market never a short off support nor a long off resistance, and at the point of
/// control or an LVN the aggression's direction; in an imbalanced market exactly the
/// aggression that goes with the trend.
pub proof fn lemma_allowed_direction_sides(balanced: bool, trend_direction: i8, level: LevelType, aggression: TradeDirection)
    ensures
        allowed_direction(balanced, trend_direction, level, aggression) matches Some(d) ==> d == aggression,
        balanced && (level == LevelType::VAL || level == LevelType::PDL || level == LevelType::ONL) ==> (allowed_direction(
            balanced,
            trend_direction,
            level,
            aggression,
        ) is Some <==> aggression == TradeDirection::Long),
        balanced && (level == LevelType::VAH || level == LevelType::PDH || level == LevelType::ONH) ==> (allowed_direction(
            balanced,
            trend_direction,
            level,
            aggression,
        ) is Some <==> aggression == TradeDirection::Short),
        balanced && (level == LevelType::POC || level == LevelType::LVN) ==> allowed_direction(
            balanced,
            trend_direction,
            level,
            aggression,
        ) == Some(aggression),
        !balanced ==> (allowed_direction(balanced, trend_direction, level, aggression) is Some <==> (trend_direction > 0
            && aggression == TradeDirection::Long) || (trend_direction < 0 && aggression == TradeDirection::Short)),
{
}

} // verus!
