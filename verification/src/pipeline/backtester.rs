//! The three-element backtester: aggression read from the bars, at a key level of the
//! day, in a market state that allows its direction, makes a simulated trade.

use vstd::prelude::*;

use crate::pipeline::aggression::{
    aggression_config_fits, deltas_bounded, detect_aggression_from_bars, events_upto, lemma_events_count, timestamps_sorted,
    AggressionEvent,
};
use crate::pipeline::bars::{day_of, utc_day, Bar};
use crate::pipeline::keyed::{find_key, key_map, keys_sorted, lemma_key_map, sorted_insert};
use crate::pipeline::level_index::{near, positive_strengths, strongest, KeyLevel, LevelIndex};
use crate::pipeline::levels::{bar_prices_bounded, bars_volume, compute_daily_levels, DailyLevels, LevelType};
use crate::pipeline::lvn::LvnLevel;
use crate::pipeline::three_element::{
    allowed_direction, bars_bounded, bounded, drawdown_of, in_traded_session, is_rth, max_drawdown, model_for,
    should_take_trade, simulate_trade, simulated, stats_of, trade_model, utc_minute_of_day, AggressionType, ModelStats,
    SimulatedTrade, ThreeElementConfig, TradeDirection, TradeModel, TradeOutcome,
};
use crate::units::Price;

verus! {

/// The market state at a bar: balanced or not, and the trend's direction (its sign).
#[derive(Debug, Clone, Copy, PartialEq, Eq, Structural)]
pub struct MarketReading {
    pub balanced: bool,
    pub trend_direction: i8,
}

/// A trade of the three-element backtest, with what made it. Prices and P&L in price
/// units, times in milliseconds since the Unix epoch.
#[derive(Debug, Clone, Copy, PartialEq, Eq, Structural)]
pub struct ThreeElementTrade {
    /// The bar the trade entered at
    pub entry_idx: usize,
    pub entry_time: i64,
    pub exit_time: i64,
    pub direction: TradeDirection,
    pub model: TradeModel,
    pub entry_price: Price,
    pub exit_price: Price,
    pub stop_loss: Price,
    pub take_profit: Price,
    pub pnl_points: Price,
    pub outcome: TradeOutcome,
    pub aggression_type: AggressionType,
    pub level_type: LevelType,
    pub level_price: Price,
    pub balanced: bool,
    pub delta_change: i64,
    pub trend_direction: i8,
    /// The bar the trade left at
    pub exit_idx: usize,
}

/// The trade record of a simulated trade and what made it.
pub open spec fn trade_record(
    bars: Seq<Bar>,
    t: SimulatedTrade,
    ev: AggressionEvent,
    level: KeyLevel,
    ms: MarketReading,
    direction: TradeDirection,
) -> ThreeElementTrade {
    ThreeElementTrade {
        entry_idx: t.entry_idx,
        entry_time: bars[t.entry_idx as int].timestamp,
        exit_time: bars[t.exit_idx as int].timestamp,
        direction,
        model: model_for(ms.balanced),
        entry_price: t.entry_price,
        exit_price: t.exit_price,
        stop_loss: t.stop_loss,
        take_profit: t.take_profit,
        pnl_points: t.pnl,
        outcome: t.outcome,
        aggression_type: ev.aggression_type,
        level_type: level.level_type,
        level_price: level.price,
        balanced: ms.balanced,
        delta_change: ev.delta_change,
        trend_direction: ms.trend_direction,
        exit_idx: t.exit_idx,
    }
}

/// What the backtest holds between aggression events: the exit bar of the last trade,
/// the exit bar of the last trade of each level (by its price), and the trades.
pub struct RunState {
    pub last_exit: Option<usize>,
    pub traded: Map<i64, usize>,
    pub trades: Seq<ThreeElementTrade>,
}

/// The backtest after one more aggression event: nothing happens up to the global
/// cooldown after the last exit, outside the traded sessions (when trading only those),
/// for an event past the market states, away from every level of the day, before the
/// level cooldown after the strongest near level's last exit, or where the market state
/// does not allow the aggression's direction at that level (see `allowed_direction`);
/// otherwise the trade simulated from the event's bar (see `simulated`) is kept, and its
/// exit bar marks the level and starts the cooldowns.
pub open spec fn run_step(
    bars: Seq<Bar>,
    levels: Seq<KeyLevel>,
    tolerance: Price,
    states: Seq<MarketReading>,
    cfg: ThreeElementConfig,
    st: RunState,
    ev: AggressionEvent,
) -> RunState {
    if st.last_exit matches Some(x) && ev.bar_idx <= x + cfg.global_cooldown {
        st
    } else if cfg.rth_only && !in_traded_session(utc_minute_of_day(ev.timestamp as int)) {
        st
    } else if ev.bar_idx >= states.len() {
        st
    } else {
        match strongest(levels.filter(near(ev.price, day_of(ev.timestamp as int) as i64, tolerance))) {
            None => st,
            Some(level) => if st.traded.contains_key(level.price) && ev.bar_idx < st.traded[level.price] + cfg.level_cooldown {
                st
            } else {
                let ms = states[ev.bar_idx as int];
                match allowed_direction(ms.balanced, ms.trend_direction, level.level_type, ev.direction) {
                    None => st,
                    Some(d) => match simulated(bars, ev.bar_idx as int, d, model_for(ms.balanced), cfg) {
                        None => st,
                        Some(t) => RunState {
                            last_exit: Some(t.exit_idx),
                            traded: st.traded.insert(level.price, t.exit_idx),
                            trades: st.trades.push(trade_record(bars, t, ev, level, ms, d)),
                        },
                    },
                }
            },
        }
    }
}

/// The backtest after the first `k` aggression events.
pub open spec fn run_upto(
    bars: Seq<Bar>,
    levels: Seq<KeyLevel>,
    tolerance: Price,
    states: Seq<MarketReading>,
    cfg: ThreeElementConfig,
    events: Seq<AggressionEvent>,
    k: int,
) -> RunState
    decreases k,
{
    if k <= 0 {
        RunState { last_exit: None, traded: Map::empty(), trades: Seq::empty() }
    } else {
        run_step(bars, levels, tolerance, states, cfg, run_upto(bars, levels, tolerance, states, cfg, events, k - 1), events[k - 1])
    }
}

/// Whether the bars suit the backtest: prices and deltas bounded, volume that fits a
/// `u64`, and timestamps in order.
pub open spec fn bars_fit(bars: Seq<Bar>) -> bool {
    &&& bars_bounded(bars)
    &&& bar_prices_bounded(bars)
    &&& deltas_bounded(bars)
    &&& bars_volume(bars) <= u64::MAX
    &&& timestamps_sorted(bars)
    &&& bars.len() <= 0x5555_5555
}

/// Whether the backtest's settings are bounded.
pub open spec fn config_fits(cfg: ThreeElementConfig) -> bool {
    &&& aggression_config_fits(cfg.aggression)
    &&& bounded(cfg.mr_stop_loss as int)
    &&& bounded(cfg.mr_take_profit as int)
    &&& bounded(cfg.tc_stop_loss as int)
    &&& bounded(cfg.tc_take_profit as int)
    &&& bounded(cfg.tc_trailing_stop as int)
}

/// Whether every trade's P&L is within 500 points.
pub open spec fn trades_bounded(trades: Seq<ThreeElementTrade>) -> bool {
    forall|i: int| 0 <= i < trades.len() ==> -50_000 <= #[trigger] trades[i].pnl_points <= 50_000
}

/// The backtest keeps at most one trade per event, each within 500 points.
proof fn lemma_run_bounds(
    bars: Seq<Bar>,
    levels: Seq<KeyLevel>,
    tolerance: Price,
    states: Seq<MarketReading>,
    cfg: ThreeElementConfig,
    events: Seq<AggressionEvent>,
    k: int,
)
    requires
        0 <= k <= events.len(),
    ensures
        run_upto(bars, levels, tolerance, states, cfg, events, k).trades.len() <= k,
        trades_bounded(run_upto(bars, levels, tolerance, states, cfg, events, k).trades),
    decreases k,
{
    if k > 0 {
        lemma_run_bounds(bars, levels, tolerance, states, cfg, events, k - 1);
        let st = run_upto(bars, levels, tolerance, states, cfg, events, k - 1);
        let ev = events[k - 1];
        if ev.bar_idx < states.len() {
            let ms = states[ev.bar_idx as int];
            match strongest(levels.filter(near(ev.price, day_of(ev.timestamp as int) as i64, tolerance))) {
                Some(level) => match allowed_direction(ms.balanced, ms.trend_direction, level.level_type, ev.direction) {
                    Some(d) => if simulated(bars, ev.bar_idx as int, d, model_for(ms.balanced), cfg) is Some {
                        crate::pipeline::three_element::lemma_simulated_indices(bars, ev.bar_idx as int, d, model_for(ms.balanced), cfg);
                    },
                    None => {},
                },
                None => {},
            }
        }
        let next = run_upto(bars, levels, tolerance, states, cfg, events, k);
        assert forall|i: int| 0 <= i < next.trades.len() implies -50_000 <= #[trigger] next.trades[i].pnl_points <= 50_000 by {
            if i < st.trades.len() {
                assert(next.trades.len() == st.trades.len() || next.trades[i] == st.trades[i]);
            }
        }
    }
}

/// The simulated trade inside a trade record.
pub open spec fn simulated_part(t: ThreeElementTrade) -> SimulatedTrade {
    SimulatedTrade {
        entry_idx: t.entry_idx,
        exit_idx: t.exit_idx,
        entry_price: t.entry_price,
        exit_price: t.exit_price,
        stop_loss: t.stop_loss,
        take_profit: t.take_profit,
        pnl: t.pnl_points,
        outcome: t.outcome,
    }
}

/// What selects trades for a statistic.
#[derive(Debug, Clone, Copy, PartialEq, Eq, Structural)]
pub enum TradeGroup {
    Model(TradeModel),
    Level(LevelType),
    Aggression(AggressionType),
}

/// Whether a trade belongs to a group.
pub open spec fn in_group(g: TradeGroup) -> spec_fn(ThreeElementTrade) -> bool {
    |t: ThreeElementTrade| match g {
        TradeGroup::Model(m) => t.model == m,
        TradeGroup::Level(l) => t.level_type == l,
        TradeGroup::Aggression(a) => t.aggression_type == a,
    }
}

/// The trades of a group, as simulated trades, in order.
pub open spec fn group_trades(trades: Seq<ThreeElementTrade>, g: TradeGroup) -> Seq<SimulatedTrade> {
    trades.filter(in_group(g)).map_values(|t: ThreeElementTrade| simulated_part(t))
}

/// The statistics of some trades with their number as the count (see `stats_of`).
pub open spec fn stats_with_count(s: Seq<SimulatedTrade>) -> ModelStats {
    ModelStats { trade_count: s.len() as u32, ..stats_of(s) }
}

/// The statistics of the groups that have trades, in the groups' order.
pub open spec fn group_stats<K>(trades: Seq<ThreeElementTrade>, keys: Seq<K>, group: spec_fn(K) -> TradeGroup) -> Seq<(K, ModelStats)>
    decreases keys.len(),
{
    if keys.len() == 0 {
        Seq::empty()
    } else {
        let rest = group_stats(trades, keys.drop_last(), group);
        let s = group_trades(trades, group(keys.last()));
        if s.len() > 0 {
            rest.push((keys.last(), stats_with_count(s)))
        } else {
            rest
        }
    }
}

/// The level types in their order.
pub open spec fn level_types() -> Seq<LevelType> {
    seq![
        LevelType::POC,
        LevelType::VAH,
        LevelType::VAL,
        LevelType::PDH,
        LevelType::PDL,
        LevelType::ONH,
        LevelType::ONL,
        LevelType::LVN,
    ]
}

/// The aggression types in their order.
pub open spec fn aggression_types() -> Seq<AggressionType> {
    seq![
        AggressionType::DeltaMomentumUp,
        AggressionType::DeltaMomentumDown,
        AggressionType::StackedBidImbalance,
        AggressionType::StackedAskImbalance,
        AggressionType::TradeFlowImbalance,
        AggressionType::CapturedSignal,
    ]
}

/// Counts and sums of trades: winners (by outcome), total P&L, profit of the trades at a
/// profit, loss of the trades at a loss (as a positive amount).
pub open spec fn totals(trades: Seq<ThreeElementTrade>) -> (int, int, int, int)
    decreases trades.len(),
{
    if trades.len() == 0 {
        (0, 0, 0, 0)
    } else {
        let (w, p, gp, gl) = totals(trades.drop_last());
        let t = trades.last();
        (
            w + if t.outcome == TradeOutcome::Win { 1int } else { 0int },
            p + t.pnl_points,
            gp + if t.pnl_points > 0 { t.pnl_points as int } else { 0int },
            gl + if t.pnl_points < 0 { -t.pnl_points } else { 0int },
        )
    }
}

/// Results of a three-element backtest. P&L in price units; ratios (win rate, profit
/// factor) follow from the counts and sums.
#[derive(Debug)]
pub struct ThreeElementResults {
    pub total_trades: u32,
    pub wins: u32,
    pub total_pnl: i64,
    pub gross_profit: i64,
    pub gross_loss: i64,
    pub max_drawdown: i128,
    pub mean_reversion_stats: ModelStats,
    pub trend_continuation_stats: ModelStats,
    /// The statistics of each level type that has trades, in the types' order
    pub stats_by_level: Vec<(LevelType, ModelStats)>,
    /// The statistics of each aggression type that has trades, in the types' order
    pub stats_by_aggression: Vec<(AggressionType, ModelStats)>,
    pub trades: Vec<ThreeElementTrade>,
}

/// The trades of a group, as simulated trades (see `group_trades`).
fn select_group(trades: &Vec<ThreeElementTrade>, g: TradeGroup) -> (r: Vec<SimulatedTrade>)
    requires
        trades_bounded(trades@),
    ensures
        r@ == group_trades(trades@, g),
        r@.len() <= trades@.len(),
        crate::pipeline::three_element::pnl_bounded(r@),
{
    let mut out: Vec<SimulatedTrade> = Vec::new();
    let mut i: usize = 0;
    while i < trades.len()
        invariant
            i <= trades@.len(),
            trades_bounded(trades@),
            out@ == group_trades(trades@.take(i as int), g),
            out@.len() <= i,
            crate::pipeline::three_element::pnl_bounded(out@),
        decreases trades@.len() - i,
    {
        let t = trades[i];
        proof {
            assert(trades@.take(i + 1) =~= trades@.take(i as int).push(t));
            trades@.take(i as int).lemma_filter_push(t, in_group(g));
            trades@.take(i as int).filter(in_group(g)).lemma_filter_len(in_group(g));
            assert(-50_000 <= trades@[i as int].pnl_points <= 50_000);
        }
        let member = match g {
            TradeGroup::Model(m) => t.model == m,
            TradeGroup::Level(l) => t.level_type == l,
            TradeGroup::Aggression(a) => t.aggression_type == a,
        };
        if member {
            let ghost before = out@;
            out.push(
                SimulatedTrade {
                    entry_idx: t.entry_idx,
                    exit_idx: t.exit_idx,
                    entry_price: t.entry_price,
                    exit_price: t.exit_price,
                    stop_loss: t.stop_loss,
                    take_profit: t.take_profit,
                    pnl: t.pnl_points,
                    outcome: t.outcome,
                },
            );
            proof {
                assert(trades@.take(i as int).filter(in_group(g)).push(t).map_values(|t: ThreeElementTrade| simulated_part(t))
                    =~= before.push(simulated_part(t)));
                assert forall|j: int| 0 <= j < out@.len() implies -0x8000_0000 <= #[trigger] out@[j].pnl <= 0x8000_0000 by {
                    if j < before.len() {
                        assert(out@[j] == before[j]);
                    }
                }
            }
        }
        i += 1;
    }
    proof {
        assert(trades@.take(i as int) =~= trades@);
    }
    out
}

/// The statistics of a group of trades (see `stats_with_count`).
fn group_stats_of(trades: &Vec<ThreeElementTrade>, g: TradeGroup) -> (r: (usize, ModelStats))
    requires
        trades_bounded(trades@),
        trades@.len() <= u32::MAX,
    ensures
        r.0 == group_trades(trades@, g).len(),
        r.1 == stats_with_count(group_trades(trades@, g)),
{
    let selected = select_group(trades, g);
    (selected.len(), ModelStats::from_trades(&selected))
}

/// The statistics of a backtest's trades: the counts and sums (see `totals`), the
/// largest drawdown of the running P&L (see `drawdown_of`), and the statistics of each
/// model, of each level type with trades and of each aggression type with trades (see
/// `group_stats`).
pub fn calculate_results(trades: Vec<ThreeElementTrade>) -> (r: ThreeElementResults)
    requires
        trades_bounded(trades@),
        trades@.len() <= u32::MAX,
    ensures
        r.trades@ == trades@,
        r.total_trades == trades@.len(),
        r.wins == totals(trades@).0,
        r.total_pnl == totals(trades@).1,
        r.gross_profit == totals(trades@).2,
        r.gross_loss == totals(trades@).3,
        r.max_drawdown == drawdown_of(trades@.map_values(|t: ThreeElementTrade| t.pnl_points)).2,
        r.mean_reversion_stats == stats_with_count(group_trades(trades@, TradeGroup::Model(TradeModel::MeanReversion))),
        r.trend_continuation_stats == stats_with_count(group_trades(trades@, TradeGroup::Model(TradeModel::TrendContinuation))),
        r.stats_by_level@ == group_stats(trades@, level_types(), |l: LevelType| TradeGroup::Level(l)),
        r.stats_by_aggression@ == group_stats(trades@, aggression_types(), |a: AggressionType| TradeGroup::Aggression(a)),
{
    let mut wins: u32 = 0;
    let mut total_pnl: i64 = 0;
    let mut gross_profit: i64 = 0;
    let mut gross_loss: i64 = 0;
    let mut pnls: Vec<i64> = Vec::new();
    let mut i: usize = 0;
    while i < trades.len()
        invariant
            i <= trades@.len(),
            trades@.len() <= u32::MAX,
            trades_bounded(trades@),
            (wins as int, total_pnl as int, gross_profit as int, gross_loss as int) == totals(trades@.take(i as int)),
            0 <= wins <= i,
            -50_000 * i <= total_pnl <= 50_000 * i,
            0 <= gross_profit <= 50_000 * i,
            0 <= gross_loss <= 50_000 * i,
            pnls@ == trades@.take(i as int).map_values(|t: ThreeElementTrade| t.pnl_points),
        decreases trades@.len() - i,
    {
        let t = trades[i];
        proof {
            assert(trades@.take(i + 1).drop_last() =~= trades@.take(i as int));
            assert(trades@.take(i + 1).last() == t);
            assert(-50_000 <= trades@[i as int].pnl_points <= 50_000);
            assert(50_000 * (i + 1) == 50_000 * i + 50_000);
            assert(50_000 * i <= 50_000 * 0xffff_ffff) by (nonlinear_arith)
                requires i <= 0xffff_ffff;
        }
        if t.outcome == TradeOutcome::Win {
            wins = wins + 1;
        }
        total_pnl = total_pnl + t.pnl_points;
        if t.pnl_points > 0 {
            gross_profit = gross_profit + t.pnl_points;
        }
        if t.pnl_points < 0 {
            gross_loss = gross_loss - t.pnl_points;
        }
        let ghost before = pnls@;
        pnls.push(t.pnl_points);
        proof {
            assert(trades@.take(i + 1).map_values(|t: ThreeElementTrade| t.pnl_points) =~= before.push(t.pnl_points));
        }
        i += 1;
    }
    proof {
        assert(trades@.take(i as int) =~= trades@);
    }
    let max_dd = max_drawdown(&pnls);
    let (_, mean_reversion_stats) = group_stats_of(&trades, TradeGroup::Model(TradeModel::MeanReversion));
    let (_, trend_continuation_stats) = group_stats_of(&trades, TradeGroup::Model(TradeModel::TrendContinuation));
    let level_list: [LevelType; 8] = [
        LevelType::POC,
        LevelType::VAH,
        LevelType::VAL,
        LevelType::PDH,
        LevelType::PDL,
        LevelType::ONH,
        LevelType::ONL,
        LevelType::LVN,
    ];
    let mut stats_by_level: Vec<(LevelType, ModelStats)> = Vec::new();
    let mut k: usize = 0;
    while k < 8
        invariant
            k <= 8,
            level_list@ == level_types(),
            trades_bounded(trades@),
            trades@.len() <= u32::MAX,
            stats_by_level@ == group_stats(trades@, level_types().take(k as int), |l: LevelType| TradeGroup::Level(l)),
        decreases 8 - k,
    {
        let lt = level_list[k];
        proof {
            assert(level_types().take(k + 1).drop_last() =~= level_types().take(k as int));
            assert(level_types().take(k + 1).last() == lt);
        }
        let (n, st) = group_stats_of(&trades, TradeGroup::Level(lt));
        if n > 0 {
            stats_by_level.push((lt, st));
        }
        k += 1;
    }
    let aggression_list: [AggressionType; 6] = [
        AggressionType::DeltaMomentumUp,
        AggressionType::DeltaMomentumDown,
        AggressionType::StackedBidImbalance,
        AggressionType::StackedAskImbalance,
        AggressionType::TradeFlowImbalance,
        AggressionType::CapturedSignal,
    ];
    let mut stats_by_aggression: Vec<(AggressionType, ModelStats)> = Vec::new();
    let mut k: usize = 0;
    while k < 6
        invariant
            k <= 6,
            aggression_list@ == aggression_types(),
            trades_bounded(trades@),
            trades@.len() <= u32::MAX,
            stats_by_aggression@ == group_stats(trades@, aggression_types().take(k as int), |a: AggressionType| TradeGroup::Aggression(a)),
        decreases 6 - k,
    {
        let at = aggression_list[k];
        proof {
            assert(aggression_types().take(k + 1).drop_last() =~= aggression_types().take(k as int));
            assert(aggression_types().take(k + 1).last() == at);
        }
        let (n, st) = group_stats_of(&trades, TradeGroup::Aggression(at));
        if n > 0 {
            stats_by_aggression.push((at, st));
        }
        k += 1;
    }
    proof {
        assert(level_types().take(8) =~= level_types());
        assert(aggression_types().take(6) =~= aggression_types());
    }
    ThreeElementResults {
        total_trades: trades.len() as u32,
        wins,
        total_pnl,
        gross_profit,
        gross_loss,
        max_drawdown: max_dd,
        mean_reversion_stats,
        trend_continuation_stats,
        stats_by_level,
        stats_by_aggression,
        trades,
    }
}

/// The three-element backtester over a run of bars: the days' levels computed from the
/// bars and the LVNs, indexed by price, and the market state of each bar.
pub struct ThreeElementBacktester {
    bars: Vec<Bar>,
    daily_levels: Vec<DailyLevels>,
    lvn_levels: Vec<LvnLevel>,
    level_index: LevelIndex,
    market_states: Vec<MarketReading>,
    config: ThreeElementConfig,
}

impl ThreeElementBacktester {
    pub closed spec fn bars_spec(&self) -> Seq<Bar> {
        self.bars@
    }

    pub closed spec fn levels_spec(&self) -> Seq<KeyLevel> {
        self.level_index@
    }

    pub closed spec fn tolerance_spec(&self) -> Price {
        self.level_index.tolerance_of()
    }

    pub closed spec fn states_spec(&self) -> Seq<MarketReading> {
        self.market_states@
    }

    pub closed spec fn config_spec(&self) -> ThreeElementConfig {
        self.config
    }

    /// Whether the backtester's bars and settings suit the backtest, and its levels have
    /// positive strengths.
    pub closed spec fn wf(&self) -> bool {
        &&& bars_fit(self.bars@)
        &&& config_fits(self.config)
        &&& positive_strengths(self.level_index@)
    }

    /// A backtester over the bars, with the days' levels of the bars (see
    /// `compute_daily_levels`) and the LVNs indexed at the configured tolerance (see
    /// `LevelIndex::new`), and the market state of each bar.
    pub fn new(bars: Vec<Bar>, lvn_levels: Vec<LvnLevel>, config: ThreeElementConfig, market_states: Vec<MarketReading>) -> (r: Self)
        requires
            bars_fit(bars@),
            config_fits(config),
        ensures
            r.wf(),
            r.bars_spec() == bars@,
            r.states_spec() == market_states@,
            r.config_spec() == config,
            r.tolerance_spec() == config.level_tolerance,
    {
        let daily_levels = compute_daily_levels(&bars);
        let level_index = LevelIndex::new(&daily_levels, &lvn_levels, config.level_tolerance);
        ThreeElementBacktester { bars, daily_levels, lvn_levels, level_index, market_states, config }
    }

    /// The backtest: the aggression read from the bars (see `events_upto`), in time order
    /// (see `lemma_events_in_time_order`), taken event by event (see `run_step`), and the
    /// results of its trades (see `calculate_results`).
    pub fn run(&self) -> (r: ThreeElementResults)
        requires
            self.wf(),
        ensures
            r.trades@ == run_upto(
                self.bars_spec(),
                self.levels_spec(),
                self.tolerance_spec(),
                self.states_spec(),
                self.config_spec(),
                events_upto(self.bars_spec(), self.bars_spec().len() as int, self.config_spec().aggression),
                events_upto(self.bars_spec(), self.bars_spec().len() as int, self.config_spec().aggression).len() as int,
            ).trades,
    {
        let events = detect_aggression_from_bars(&self.bars, &self.config.aggression);
        let cfg = &self.config;
        let mut trades: Vec<ThreeElementTrade> = Vec::new();
        let mut last_exit: Option<usize> = None;
        let mut traded: Vec<(i64, usize)> = Vec::new();
        let ghost levels = self.level_index@;
        let ghost tolerance = self.level_index.tolerance_of();
        let mut k: usize = 0;
        while k < events.len()
            invariant
                k <= events@.len(),
                self.wf(),
                *cfg == self.config,
                levels == self.level_index@,
                tolerance == self.level_index.tolerance_of(),
                events@ == events_upto(self.bars@, self.bars@.len() as int, self.config.aggression),
                keys_sorted(traded@),
                trades@ == run_upto(self.bars@, levels, tolerance, self.market_states@, *cfg, events@, k as int).trades,
                last_exit == run_upto(self.bars@, levels, tolerance, self.market_states@, *cfg, events@, k as int).last_exit,
                key_map(traded@) == run_upto(self.bars@, levels, tolerance, self.market_states@, *cfg, events@, k as int).traded,
            decreases events@.len() - k,
        {
            let ev = events[k];
            proof {
                assert(ev == events@[k as int]);
                lemma_key_map(traded@);
            }
            let cooling = match last_exit {
                Some(x) => (ev.bar_idx as u128) <= x as u128 + cfg.global_cooldown as u128,
                None => false,
            };
            if !cooling && !(cfg.rth_only && !is_rth(ev.timestamp)) && ev.bar_idx < self.market_states.len() {
                let day = utc_day(ev.timestamp);
                match self.level_index.strongest_level_near(ev.price, day) {
                    Some(level) => {
                        let level_cooling = match find_key(&traded, level.price) {
                            Some(j) => (ev.bar_idx as u128) < traded[j].1 as u128 + cfg.level_cooldown as u128,
                            None => false,
                        };
                        if !level_cooling {
                            let ms = self.market_states[ev.bar_idx];
                            let model = trade_model(ms.balanced);
                            match should_take_trade(ms.balanced, ms.trend_direction, level.level_type, ev.direction) {
                                Some(direction) => {
                                    match simulate_trade(&self.bars, ev.bar_idx, direction, model, cfg) {
                                        Some(t) => {
                                            proof {
                                                assert(t.entry_idx < self.bars@.len() && t.exit_idx < self.bars@.len()) by {
                                                    crate::pipeline::three_element::lemma_simulated_indices(
                                                        self.bars@,
                                                        ev.bar_idx as int,
                                                        direction,
                                                        model,
                                                        *cfg,
                                                    );
                                                }
                                            }
                                            let record = ThreeElementTrade {
                                                entry_idx: t.entry_idx,
                                                entry_time: self.bars[t.entry_idx].timestamp,
                                                exit_time: self.bars[t.exit_idx].timestamp,
                                                direction,
                                                model,
                                                entry_price: t.entry_price,
                                                exit_price: t.exit_price,
                                                stop_loss: t.stop_loss,
                                                take_profit: t.take_profit,
                                                pnl_points: t.pnl,
                                                outcome: t.outcome,
                                                aggression_type: ev.aggression_type,
                                                level_type: level.level_type,
                                                level_price: level.price,
                                                balanced: ms.balanced,
                                                delta_change: ev.delta_change,
                                                trend_direction: ms.trend_direction,
                                                exit_idx: t.exit_idx,
                                            };
                                            last_exit = Some(t.exit_idx);
                                            sorted_insert(&mut traded, level.price, t.exit_idx);
                                            trades.push(record);
                                        },
                                        None => {},
                                    }
                                },
                                None => {},
                            }
                        }
                    },
                    None => {},
                }
            }
            k += 1;
        }
        proof {
            lemma_run_bounds(self.bars@, levels, tolerance, self.market_states@, *cfg, events@, k as int);
            lemma_events_count(self.bars@, self.bars@.len() as int, self.config.aggression);
        }
        calculate_results(trades)
    }
}

/// One trade at a time: each trade of the backtest enters after the global cooldown
/// that follows the previous trade's exit, and the backtest remembers the last exit.
pub proof fn lemma_trades_do_not_overlap(
    bars: Seq<Bar>,
    levels: Seq<KeyLevel>,
    tolerance: Price,
    states: Seq<MarketReading>,
    cfg: ThreeElementConfig,
    events: Seq<AggressionEvent>,
    k: int,
)
    requires
        0 <= k <= events.len(),
        bars.len() < usize::MAX,
    ensures
        ({
            let st = run_upto(bars, levels, tolerance, states, cfg, events, k);
            &&& st.trades.len() == 0 <==> st.last_exit is None
            &&& st.trades.len() > 0 ==> st.last_exit == Some(st.trades.last().exit_idx)
            &&& forall|i: int| 0 <= i < st.trades.len() - 1 ==> #[trigger] st.trades[i + 1].entry_idx > st.trades[i].exit_idx
                + cfg.global_cooldown
        }),
    decreases k,
{
    if k > 0 {
        lemma_trades_do_not_overlap(bars, levels, tolerance, states, cfg, events, k - 1);
        let st = run_upto(bars, levels, tolerance, states, cfg, events, k - 1);
        let next = run_upto(bars, levels, tolerance, states, cfg, events, k);
        let ev = events[k - 1];
        if next.trades.len() > st.trades.len() {
            let ms = states[ev.bar_idx as int];
            let level = strongest(levels.filter(near(ev.price, day_of(ev.timestamp as int) as i64, tolerance)))->0;
            let d = allowed_direction(ms.balanced, ms.trend_direction, level.level_type, ev.direction)->0;
            let t = simulated(bars, ev.bar_idx as int, d, model_for(ms.balanced), cfg)->0;
            assert(t.entry_idx == ev.bar_idx + 1);
            assert(next.trades == st.trades.push(trade_record(bars, t, ev, level, ms, d)));
            assert forall|i: int| 0 <= i < next.trades.len() - 1 implies #[trigger] next.trades[i + 1].entry_idx > next.trades[i].exit_idx
                + cfg.global_cooldown by {
                if i + 1 < st.trades.len() {
                    assert(next.trades[i] == st.trades[i] && next.trades[i + 1] == st.trades[i + 1]);
                } else {
                    assert(next.trades[i] == st.trades.last());
                }
            }
        }
    }
}

} // verus!
