//! Backtest of the LVN retest strategy over historical bars: levels move through their
//! states bar by bar, a retest with heavy aggression in the trend's direction opens a
//! trade at the next bar's open with its stop beyond the level, and the trade trails
//! its stop until stopped out, at its target, or out of time.

use vstd::prelude::*;

use crate::pipeline::bars::{day_of, utc_day, Bar};
use crate::pipeline::keyed::key_map;
use crate::pipeline::lvn::LvnLevel;
use crate::pipeline::lvn_retest::{
    first_signal, in_trading_window, level_key, levels_added, levels_stepped, trade_direction, Direction, LevelState,
    LvnRetestConfig, LvnSignalGenerator, Outcome, TrackedLevel,
};
use crate::pipeline::three_element::{bars_bounded, bounded, drawdown_of, max_drawdown};
use crate::units::{abs, Price};

verus! {

/// A backtested trade. Prices and P&L in price units.
#[derive(Debug, Clone, Copy, PartialEq, Eq, Structural)]
pub struct RetestTrade {
    pub entry_idx: usize,
    pub exit_idx: usize,
    /// Milliseconds since the Unix epoch
    pub entry_time: i64,
    pub exit_time: i64,
    pub direction: Direction,
    pub entry_price: Price,
    pub exit_price: Price,
    pub stop_loss: Price,
    pub take_profit: Price,
    pub pnl: Price,
    /// Largest favorable excursion while held
    pub peak_unrealized: Price,
    pub outcome: Outcome,
    pub level_price: Price,
    pub hold_bars: usize,
}

/// The outcome of a trade with `profit`: a win above half a point, breakeven within half a
/// point, a loss below.
pub open spec fn classify(profit: int) -> Outcome {
    if profit > 50 {
        Outcome::Win
    } else if profit >= -50 {
        Outcome::Breakeven
    } else {
        Outcome::Loss
    }
}

/// A held retest trade.
pub struct RetestHold {
    pub exit_idx: int,
    pub exit_price: int,
    pub outcome: Outcome,
    pub trailing: int,
    pub highest: int,
    pub lowest: int,
    pub closed: bool,
}

/// A held trade after bar `i`: the extremes extend; the stop trails the extreme by the
/// trailing distance once the extreme is that far in profit (and only tightens); the stop
/// is checked before the target; a bar that hits neither leaves the trade at its close.
pub open spec fn retest_step(s: RetestHold, i: int, bar: Bar, direction: Direction, entry: int, target: int, trail: int) -> RetestHold {
    let highest = if bar.high > s.highest { bar.high as int } else { s.highest };
    let lowest = if bar.low < s.lowest { bar.low as int } else { s.lowest };
    match direction {
        Direction::Long => {
            let trailing = if highest >= entry + trail && highest - trail > s.trailing { highest - trail } else { s.trailing };
            let held = RetestHold { exit_idx: i, highest, lowest, trailing, ..s };
            if bar.low <= trailing {
                RetestHold { exit_price: trailing, outcome: classify(trailing - entry), closed: true, ..held }
            } else if bar.high >= target {
                RetestHold { exit_price: target, outcome: Outcome::Win, closed: true, ..held }
            } else {
                RetestHold { exit_price: bar.close as int, ..held }
            }
        },
        Direction::Short => {
            let trailing = if lowest <= entry - trail && lowest + trail < s.trailing { lowest + trail } else { s.trailing };
            let held = RetestHold { exit_idx: i, highest, lowest, trailing, ..s };
            if bar.high >= trailing {
                RetestHold { exit_price: trailing, outcome: classify(entry - trailing), closed: true, ..held }
            } else if bar.low <= target {
                RetestHold { exit_price: target, outcome: Outcome::Win, closed: true, ..held }
            } else {
                RetestHold { exit_price: bar.close as int, ..held }
            }
        },
    }
}

/// The held trade after the bars `first .. k`, stopping at the bar that closes it.
pub open spec fn retest_hold(
    bars: Seq<Bar>,
    first: int,
    k: int,
    init: RetestHold,
    direction: Direction,
    entry: int,
    target: int,
    trail: int,
) -> RetestHold
    decreases k - first,
{
    if k <= first {
        init
    } else {
        let s = retest_hold(bars, first, k - 1, init, direction, entry, target, trail);
        if s.closed {
            s
        } else {
            retest_step(s, k - 1, bars[k - 1], direction, entry, target, trail)
        }
    }
}

proof fn lemma_retest_hold_closed(
    bars: Seq<Bar>,
    first: int,
    k: int,
    k2: int,
    init: RetestHold,
    direction: Direction,
    entry: int,
    target: int,
    trail: int,
)
    requires
        first <= k <= k2,
        retest_hold(bars, first, k, init, direction, entry, target, trail).closed,
    ensures
        retest_hold(bars, first, k2, init, direction, entry, target, trail) == retest_hold(bars, first, k, init, direction, entry, target, trail),
    decreases k2 - k,
{
    if k2 > k {
        lemma_retest_hold_closed(bars, first, k, k2 - 1, init, direction, entry, target, trail);
    }
}

/// The trade of a signal at bar `signal_idx` on the level with key `key`: it enters at
/// the next bar's open, with the stop the structure buffer beyond the level and the
/// target the take profit beyond the entry; it is held over at most the maximum holding
/// bars (see `retest_hold`). A trade that neither stopped nor reached its target is
/// classified by its P&L. No trade without a next bar.
pub open spec fn retest_trade(bars: Seq<Bar>, signal_idx: int, direction: Direction, key: i64, cfg: LvnRetestConfig) -> Option<RetestTrade> {
    let entry_idx = signal_idx + 1;
    if entry_idx >= bars.len() {
        None
    } else {
        let entry = bars[entry_idx].open as int;
        let level = key * 10;
        let (stop, target) = match direction {
            Direction::Long => (level - cfg.structure_stop_buffer, entry + cfg.take_profit),
            Direction::Short => (level + cfg.structure_stop_buffer, entry - cfg.take_profit),
        };
        let end = if entry_idx + cfg.max_hold_bars < bars.len() { entry_idx + cfg.max_hold_bars } else { bars.len() as int };
        let init = RetestHold {
            exit_idx: entry_idx,
            exit_price: entry,
            outcome: Outcome::Timeout,
            trailing: stop,
            highest: entry,
            lowest: entry,
            closed: false,
        };
        let s = retest_hold(bars, entry_idx + 1, end, init, direction, entry, target, cfg.trailing_stop as int);
        let pnl = match direction {
            Direction::Long => s.exit_price - entry,
            Direction::Short => entry - s.exit_price,
        };
        let outcome = if s.outcome == Outcome::Timeout { classify(pnl) } else { s.outcome };
        Some(RetestTrade {
            entry_idx: entry_idx as usize,
            exit_idx: s.exit_idx as usize,
            entry_time: bars[entry_idx].timestamp,
            exit_time: bars[s.exit_idx].timestamp,
            direction,
            entry_price: entry as i64,
            exit_price: s.exit_price as i64,
            stop_loss: stop as i64,
            take_profit: target as i64,
            pnl: pnl as i64,
            peak_unrealized: (match direction {
                Direction::Long => s.highest - entry,
                Direction::Short => entry - s.lowest,
            }) as i64,
            outcome,
            level_price: level as i64,
            hold_bars: (s.exit_idx - entry_idx) as usize,
        })
    }
}

/// Whether the strategy's distances are bounded.
pub open spec fn config_bounded(cfg: LvnRetestConfig) -> bool {
    &&& bounded(cfg.take_profit as int)
    &&& bounded(cfg.trailing_stop as int)
    &&& bounded(cfg.structure_stop_buffer as int)
}

struct Held {
    exit_idx: usize,
    exit_price: i64,
    outcome: Outcome,
    trailing: i64,
    highest: i64,
    lowest: i64,
    closed: bool,
}

impl Held {
    spec fn state(&self) -> RetestHold {
        RetestHold {
            exit_idx: self.exit_idx as int,
            exit_price: self.exit_price as int,
            outcome: self.outcome,
            trailing: self.trailing as int,
            highest: self.highest as int,
            lowest: self.lowest as int,
            closed: self.closed,
        }
    }

    spec fn in_range(&self) -> bool {
        &&& -0x4000_0000_0000_0000 <= self.trailing <= 0x4000_0000_0000_0000
        &&& -0x4000_0000_0000_0000 <= self.exit_price <= 0x4000_0000_0000_0000
        &&& bounded(self.highest as int)
        &&& bounded(self.lowest as int)
    }
}

fn classify_exec(profit: i64) -> (r: Outcome)
    ensures
        r == classify(profit as int),
{
    if profit > 50 {
        Outcome::Win
    } else if profit >= -50 {
        Outcome::Breakeven
    } else {
        Outcome::Loss
    }
}

fn retest_bar(s: Held, i: usize, bar: &Bar, direction: Direction, entry: i64, target: i64, trail: i64) -> (r: Held)
    requires
        s.in_range(),
        bounded(bar.high as int),
        bounded(bar.low as int),
        bounded(bar.close as int),
        bounded(entry as int),
        bounded(trail as int),
        -0x4000_0000_0000_0000 <= target <= 0x4000_0000_0000_0000,
    ensures
        r.in_range(),
        r.state() == retest_step(s.state(), i as int, *bar, direction, entry as int, target as int, trail as int),
{
    let highest = if bar.high > s.highest { bar.high } else { s.highest };
    let lowest = if bar.low < s.lowest { bar.low } else { s.lowest };
    match direction {
        Direction::Long => {
            let trailing = if highest >= entry + trail && highest - trail > s.trailing { highest - trail } else { s.trailing };
            let held = Held { exit_idx: i, highest, lowest, trailing, ..s };
            if bar.low <= trailing {
                Held { exit_price: trailing, outcome: classify_exec(trailing - entry), closed: true, ..held }
            } else if bar.high >= target {
                Held { exit_price: target, outcome: Outcome::Win, closed: true, ..held }
            } else {
                Held { exit_price: bar.close, ..held }
            }
        },
        Direction::Short => {
            let trailing = if lowest <= entry - trail && lowest + trail < s.trailing { lowest + trail } else { s.trailing };
            let held = Held { exit_idx: i, highest, lowest, trailing, ..s };
            if bar.high >= trailing {
                Held { exit_price: trailing, outcome: classify_exec(entry - trailing), closed: true, ..held }
            } else if bar.low <= target {
                Held { exit_price: target, outcome: Outcome::Win, closed: true, ..held }
            } else {
                Held { exit_price: bar.close, ..held }
            }
        },
    }
}

/// Simulates the trade of a signal at bar `signal_idx` on the level with key `key` (see
/// `retest_trade`).
pub fn simulate_retest_trade(bars: &[Bar], signal_idx: usize, direction: Direction, key: i64, cfg: &LvnRetestConfig) -> (r: Option<RetestTrade>)
    requires
        bars_bounded(bars@),
        config_bounded(*cfg),
        bounded(key * 10),
    ensures
        r == retest_trade(bars@, signal_idx as int, direction, key, *cfg),
{
    if signal_idx as u128 + 1 >= bars.len() as u128 {
        return None;
    }
    let entry_idx = signal_idx + 1;
    let entry = bars[entry_idx].open;
    proof {
        assert(bounded(bars@[entry_idx as int].open as int));
    }
    let level = key * 10;
    let (stop, target) = match direction {
        Direction::Long => (level - cfg.structure_stop_buffer, entry + cfg.take_profit),
        Direction::Short => (level + cfg.structure_stop_buffer, entry - cfg.take_profit),
    };
    let end: usize = if (entry_idx as u128 + cfg.max_hold_bars as u128) < bars.len() as u128 {
        entry_idx + cfg.max_hold_bars
    } else {
        bars.len()
    };
    let trail = cfg.trailing_stop;
    let ghost init = RetestHold {
        exit_idx: entry_idx as int,
        exit_price: entry as int,
        outcome: Outcome::Timeout,
        trailing: stop as int,
        highest: entry as int,
        lowest: entry as int,
        closed: false,
    };
    let mut s = Held { exit_idx: entry_idx, exit_price: entry, outcome: Outcome::Timeout, trailing: stop, highest: entry, lowest: entry, closed: false };
    let mut i = entry_idx + 1;
    if end < i {
        proof {
            assert(retest_hold(bars@, entry_idx + 1, end as int, init, direction, entry as int, target as int, trail as int) == init);
        }
    } else {
        while i < end && !s.closed
            invariant
                entry_idx + 1 <= i <= end,
                end <= bars@.len(),
                entry_idx < bars@.len(),
                bars_bounded(bars@),
                bounded(entry as int),
                bounded(trail as int),
                -0x4000_0000_0000_0000 <= target <= 0x4000_0000_0000_0000,
                s.in_range(),
                s.exit_idx < bars@.len(),
                s.exit_idx >= entry_idx,
                s.state() == retest_hold(bars@, entry_idx + 1, i as int, init, direction, entry as int, target as int, trail as int),
            decreases end - i,
        {
            proof {
                assert(bounded(bars@[i as int].high as int) && bounded(bars@[i as int].low as int) && bounded(bars@[i as int].close as int));
            }
            s = retest_bar(s, i, &bars[i], direction, entry, target, trail);
            i = i + 1;
        }
        proof {
            if s.closed {
                lemma_retest_hold_closed(bars@, entry_idx + 1, i as int, end as int, init, direction, entry as int, target as int, trail as int);
            }
        }
    }
    let pnl: i64 = match direction {
        Direction::Long => s.exit_price - entry,
        Direction::Short => entry - s.exit_price,
    };
    let outcome = if s.outcome == Outcome::Timeout { classify_exec(pnl) } else { s.outcome };
    let peak: i64 = match direction {
        Direction::Long => s.highest - entry,
        Direction::Short => entry - s.lowest,
    };
    Some(RetestTrade {
        entry_idx,
        exit_idx: s.exit_idx,
        entry_time: bars[entry_idx].timestamp,
        exit_time: bars[s.exit_idx].timestamp,
        direction,
        entry_price: entry,
        exit_price: s.exit_price,
        stop_loss: stop,
        take_profit: target,
        pnl,
        peak_unrealized: peak,
        outcome,
        level_price: level,
        hold_bars: s.exit_idx - entry_idx,
    })
}


/// Every key of the LVNs added to a map is one of the map's or an LVN's.
proof fn lemma_levels_added_keys(m: Map<i64, TrackedLevel>, lvns: Seq<LvnLevel>, max_bp: u64, impulse: Option<u128>)
    ensures
        forall|k: i64| #[trigger] levels_added(m, lvns, max_bp, impulse).contains_key(k) ==> m.contains_key(k) || exists|i: int|
            0 <= i < lvns.len() && level_key(lvns[i].price) == k,
    decreases lvns.len(),
{
    if lvns.len() > 0 {
        let t = lvns.drop_last();
        lemma_levels_added_keys(m, t, max_bp, impulse);
        assert forall|k: i64| #[trigger] levels_added(m, lvns, max_bp, impulse).contains_key(k) implies m.contains_key(k) || exists|i: int|
            0 <= i < lvns.len() && level_key(lvns[i].price) == k by {
            if levels_added(m, t, max_bp, impulse).contains_key(k) {
                if !m.contains_key(k) {
                    let i = choose|i: int| 0 <= i < t.len() && level_key(t[i].price) == k;
                    assert(lvns[i] == t[i]);
                }
            } else {
                assert(level_key(lvns[lvns.len() - 1].price) == k);
            }
        }
    }
}

/// What the backtest holds between bars.
pub struct BacktestState {
    pub levels: Seq<(i64, TrackedLevel)>,
    pub last_exit: Option<usize>,
    pub trades: Seq<RetestTrade>,
}

/// The backtest after bar `i` (from the second bar on), the previous bar's close being
/// where price came from. During the cooldown after a trade's exit the levels still step
/// and nothing else happens; outside the trading window (when trading only there) nothing
/// happens at all; otherwise the levels step and, in an imbalanced market with heavy
/// delta, the first level that signals (see `first_signal`) is traded unless it is on its
/// own cooldown; a trade marks its exit bar on the level, which goes back to touched, and
/// starts the cooldown.
pub open spec fn backtest_bar(bars: Seq<Bar>, imbalanced: Seq<bool>, cfg: LvnRetestConfig, st: BacktestState, i: int) -> BacktestState {
    let bar = bars[i];
    let stepped = levels_stepped(st.levels, cfg, i as usize, bar.close, bars[i - 1].close);
    let moved = BacktestState { levels: stepped, ..st };
    let cooling = match st.last_exit {
        Some(e) => i < e + cfg.cooldown_bars,
        None => false,
    };
    if cooling {
        moved
    } else if cfg.rth_only && !in_trading_window(cfg, bar.timestamp) {
        st
    } else if !imbalanced[i] || abs(bar.delta as int) < cfg.min_delta_for_absorption {
        moved
    } else {
        match first_signal(stepped, cfg, bar.close, bar.high, bar.low, bar.delta, day_of(bar.timestamp as int)) {
            None => moved,
            Some(j) => {
                let key = stepped[j].0;
                let level = stepped[j].1;
                let level_cooling = match level.last_traded_bar {
                    Some(l) => i < l + cfg.level_cooldown_bars,
                    None => false,
                };
                if level_cooling {
                    moved
                } else {
                    match retest_trade(bars, i, trade_direction(level.impulse_direction), key, cfg) {
                        None => moved,
                        Some(t) => BacktestState {
                            levels: stepped.update(
                                j,
                                (key, TrackedLevel { last_traded_bar: Some(t.exit_idx), state: LevelState::Touched, ..level }),
                            ),
                            last_exit: Some(t.exit_idx),
                            trades: st.trades.push(t),
                        },
                    }
                }
            },
        }
    }
}

/// The backtest after the bars before `k`, from the levels `init`.
pub open spec fn backtest_upto(
    bars: Seq<Bar>,
    imbalanced: Seq<bool>,
    cfg: LvnRetestConfig,
    init: Seq<(i64, TrackedLevel)>,
    k: int,
) -> BacktestState
    decreases k,
{
    if k <= 1 {
        BacktestState { levels: init, last_exit: None, trades: Seq::empty() }
    } else {
        backtest_bar(bars, imbalanced, cfg, backtest_upto(bars, imbalanced, cfg, init, k - 1), k - 1)
    }
}

/// Whether every level's key times ten is bounded.
pub open spec fn level_prices_bounded(s: Seq<(i64, TrackedLevel)>) -> bool {
    forall|i: int| 0 <= i < s.len() ==> bounded((#[trigger] s[i]).0 * 10)
}

/// The trades of the LVN retest strategy over the bars, with `imbalanced` the market
/// state of each bar: the LVNs thin enough are tracked by key (a later LVN with the same
/// key replaces an earlier one), then every bar after the first goes through
/// `backtest_bar`.
pub fn run_backtest(bars: &[Bar], lvns: &[LvnLevel], cfg: LvnRetestConfig, imbalanced: &[bool]) -> (r: Vec<RetestTrade>)
    requires
        imbalanced@.len() == bars@.len(),
        bars_bounded(bars@),
        config_bounded(cfg),
        forall|i: int| 0 <= i < lvns@.len() ==> bounded((#[trigger] lvns@[i]).price as int),
        forall|i: int| 0 <= i < lvns@.len() ==> (#[trigger] lvns@[i]).volume * lvns@[i].profile_buckets * 10_000 <= u128::MAX,
    ensures
        exists|init: Seq<(i64, TrackedLevel)>| {
            &&& crate::pipeline::keyed::keys_sorted(init)
            &&& key_map(init) == levels_added(Map::empty(), lvns@, cfg.max_lvn_volume_ratio_bp, None)
            &&& r@ == backtest_upto(bars@, imbalanced@, cfg, init, bars@.len() as int).trades
        },
        r@.len() <= bars@.len(),
{
    let mut generator = LvnSignalGenerator::new(cfg);
    generator.add_lvn_levels(lvns);
    let ghost init = generator@.levels;
    proof {
        lemma_levels_added_keys(Map::empty(), lvns@, cfg.max_lvn_volume_ratio_bp, None);
        crate::pipeline::keyed::lemma_key_map(init);
        assert forall|i: int| 0 <= i < init.len() implies bounded((#[trigger] init[i]).0 * 10) by {
            assert(key_map(init).contains_key(init[i].0));
            let x = choose|x: int| 0 <= x < lvns@.len() && level_key(lvns@[x].price) == init[i].0;
            assert(bounded(lvns@[x].price as int));
        }
    }
    let mut trades: Vec<RetestTrade> = Vec::new();
    let mut last_exit: Option<usize> = None;
    if bars.len() == 0 {
        return trades;
    }
    let mut i: usize = 1;
    while i < bars.len()
        invariant
            1 <= i <= bars@.len(),
            imbalanced@.len() == bars@.len(),
            bars_bounded(bars@),
            config_bounded(cfg),
            generator.wf(),
            generator@.config == cfg,
            level_prices_bounded(generator@.levels),
            trades@.len() < i,
            (BacktestState { levels: generator@.levels, last_exit, trades: trades@ }) == backtest_upto(bars@, imbalanced@, cfg, init, i as int),
        decreases bars@.len() - i,
    {
        let ghost st = BacktestState { levels: generator@.levels, last_exit, trades: trades@ };
        let bar = &bars[i];
        let prev_close = bars[i - 1].close;
        let cooling = match last_exit {
            Some(e) => (i as u128) < e as u128 + cfg.cooldown_bars as u128,
            None => false,
        };
        let ghost g0 = generator@;
        if cooling {
            generator.update_level_states(i, bar.close, prev_close);
        } else if cfg.rth_only && !generator.trading_hours(bar.timestamp) {
        } else {
            generator.update_level_states(i, bar.close, prev_close);
            let ad: i128 = if bar.delta < 0 { -(bar.delta as i128) } else { bar.delta as i128 };
            if imbalanced[i] && ad >= cfg.min_delta_for_absorption as i128 {
                let day = utc_day(bar.timestamp);
                match generator.find_signal(bar.close, bar.high, bar.low, bar.delta, day) {
                    None => {},
                    Some(j) => {
                        let (key, level) = generator.levels()[j];
                        let level_cooling = match level.last_traded_bar {
                            Some(l) => (i as u128) < l as u128 + cfg.level_cooldown_bars as u128,
                            None => false,
                        };
                        if !level_cooling {
                            let direction = match level.impulse_direction {
                                crate::pipeline::lvn::ImpulseDirection::Up => Direction::Long,
                                crate::pipeline::lvn::ImpulseDirection::Down => Direction::Short,
                            };
                            proof {
                                assert(bounded(generator@.levels[j as int].0 * 10));
                            }
                            match simulate_retest_trade(bars, i, direction, key, &cfg) {
                                None => {},
                                Some(t) => {
                                    generator.mark_level_traded(j, t.exit_idx);
                                    last_exit = Some(t.exit_idx);
                                    trades.push(t);
                                },
                            }
                        }
                    },
                }
            }
        }
        proof {
            assert forall|k: int| 0 <= k < generator@.levels.len() implies bounded((#[trigger] generator@.levels[k]).0 * 10) by {
                assert(generator@.levels[k].0 == g0.levels[k].0);
            }
        }
        i += 1;
    }
    trades
}


/// Counts and sums of backtested trades, P&L in price units: trades by outcome, the total
/// P&L, the gains of the profitable trades and the losses (as a positive amount) of the
/// losing ones with their numbers, and the largest drawdown of the running P&L.
#[derive(Debug, Clone, Copy, PartialEq, Eq, Structural)]
pub struct RetestSummary {
    pub total_trades: u32,
    pub wins: u32,
    pub losses: u32,
    pub breakevens: u32,
    pub timeouts: u32,
    pub total_pnl: i128,
    pub gross_profit: i128,
    pub gross_loss: i128,
    pub winning_trades: u32,
    pub losing_trades: u32,
    pub max_drawdown: i128,
}

/// The summary of the trades, without its drawdown (counted in order).
pub open spec fn tally(trades: Seq<RetestTrade>) -> RetestSummary
    decreases trades.len(),
{
    if trades.len() == 0 {
        RetestSummary {
            total_trades: 0,
            wins: 0,
            losses: 0,
            breakevens: 0,
            timeouts: 0,
            total_pnl: 0,
            gross_profit: 0,
            gross_loss: 0,
            winning_trades: 0,
            losing_trades: 0,
            max_drawdown: 0,
        }
    } else {
        let r = tally(trades.drop_last());
        let t = trades.last();
        let p = t.pnl as int;
        RetestSummary {
            total_trades: (r.total_trades + 1) as u32,
            wins: if t.outcome == Outcome::Win { (r.wins + 1) as u32 } else { r.wins },
            losses: if t.outcome == Outcome::Loss { (r.losses + 1) as u32 } else { r.losses },
            breakevens: if t.outcome == Outcome::Breakeven { (r.breakevens + 1) as u32 } else { r.breakevens },
            timeouts: if t.outcome == Outcome::Timeout { (r.timeouts + 1) as u32 } else { r.timeouts },
            total_pnl: (r.total_pnl + p) as i128,
            gross_profit: if p > 0 { (r.gross_profit + p) as i128 } else { r.gross_profit },
            gross_loss: if p < 0 { (r.gross_loss - p) as i128 } else { r.gross_loss },
            winning_trades: if p > 0 { (r.winning_trades + 1) as u32 } else { r.winning_trades },
            losing_trades: if p < 0 { (r.losing_trades + 1) as u32 } else { r.losing_trades },
            max_drawdown: 0,
        }
    }
}

/// The P&Ls of the trades, in order.
pub open spec fn pnls(trades: Seq<RetestTrade>) -> Seq<i64> {
    trades.map_values(|t: RetestTrade| t.pnl)
}

proof fn lemma_tally_bounds(trades: Seq<RetestTrade>)
    requires
        trades.len() <= u32::MAX,
    ensures
        tally(trades).total_trades == trades.len(),
        tally(trades).wins <= trades.len() && tally(trades).losses <= trades.len(),
        tally(trades).breakevens <= trades.len() && tally(trades).timeouts <= trades.len(),
        tally(trades).winning_trades <= trades.len() && tally(trades).losing_trades <= trades.len(),
        abs(tally(trades).total_pnl as int) <= trades.len() * 0x8000_0000_0000_0000,
        0 <= tally(trades).gross_profit <= trades.len() * 0x8000_0000_0000_0000,
        0 <= tally(trades).gross_loss <= trades.len() * 0x8000_0000_0000_0000,
    decreases trades.len(),
{
    if trades.len() > 0 {
        let t = trades.drop_last();
        lemma_tally_bounds(t);
        let n = trades.len();
        assert((n - 1) * 0x8000_0000_0000_0000 + 0x8000_0000_0000_0000 == n * 0x8000_0000_0000_0000) by (nonlinear_arith);
        assert(n * 0x8000_0000_0000_0000 <= 0xffff_ffff * 0x8000_0000_0000_0000) by (nonlinear_arith)
            requires n <= 0xffff_ffff;
    }
}

/// The summary of backtested trades (see `tally`), with the largest drawdown of their
/// running P&L (see `drawdown_of`).
pub fn summarize(trades: &[RetestTrade]) -> (r: RetestSummary)
    requires
        trades@.len() <= u32::MAX,
    ensures
        r == (RetestSummary { max_drawdown: drawdown_of(pnls(trades@)).2 as i128, ..tally(trades@) }),
{
    let mut st = RetestSummary {
        total_trades: 0,
        wins: 0,
        losses: 0,
        breakevens: 0,
        timeouts: 0,
        total_pnl: 0,
        gross_profit: 0,
        gross_loss: 0,
        winning_trades: 0,
        losing_trades: 0,
        max_drawdown: 0,
    };
    let mut values: Vec<i64> = Vec::new();
    let mut i: usize = 0;
    while i < trades.len()
        invariant
            i <= trades@.len(),
            trades@.len() <= u32::MAX,
            st == tally(trades@.take(i as int)),
            values@ == pnls(trades@.take(i as int)),
        decreases trades@.len() - i,
    {
        let t = trades[i];
        proof {
            assert(trades@.take(i + 1).drop_last() =~= trades@.take(i as int));
            lemma_tally_bounds(trades@.take(i as int));
            assert(i * 0x8000_0000_0000_0000 <= 0xffff_ffff * 0x8000_0000_0000_0000) by (nonlinear_arith)
                requires i <= 0xffff_ffff;
        }
        let p = t.pnl;
        st.total_trades = st.total_trades + 1;
        match t.outcome {
            Outcome::Win => st.wins = st.wins + 1,
            Outcome::Loss => st.losses = st.losses + 1,
            Outcome::Breakeven => st.breakevens = st.breakevens + 1,
            Outcome::Timeout => st.timeouts = st.timeouts + 1,
        }
        st.total_pnl = st.total_pnl + p as i128;
        if p > 0 {
            st.gross_profit = st.gross_profit + p as i128;
            st.winning_trades = st.winning_trades + 1;
        }
        if p < 0 {
            st.gross_loss = st.gross_loss - p as i128;
            st.losing_trades = st.losing_trades + 1;
        }
        values.push(p);
        proof {
            assert(values@ =~= pnls(trades@.take(i + 1)));
        }
        i += 1;
    }
    proof {
        assert(trades@.take(i as int) =~= trades@);
    }
    st.max_drawdown = max_drawdown(values.as_slice());
    st
}


/// Results of an LVN retest backtest: the summary of its trades (see `summarize`), and
/// the trades.
pub struct Results {
    pub summary: RetestSummary,
    pub trades: Vec<RetestTrade>,
}

/// The LVN retest backtester over a run of bars and the LVNs to trade.
pub struct LvnRetestBacktester {
    bars: Vec<Bar>,
    lvn_levels: Vec<LvnLevel>,
    config: LvnRetestConfig,
}

impl LvnRetestBacktester {
    pub closed spec fn bars_spec(&self) -> Seq<Bar> {
        self.bars@
    }

    pub closed spec fn lvns_spec(&self) -> Seq<LvnLevel> {
        self.lvn_levels@
    }

    pub closed spec fn config_spec(&self) -> LvnRetestConfig {
        self.config
    }

    pub fn new(bars: Vec<Bar>, lvn_levels: Vec<LvnLevel>, config: LvnRetestConfig) -> (r: Self)
        ensures
            r.bars_spec() == bars@,
            r.lvns_spec() == lvn_levels@,
            r.config_spec() == config,
    {
        LvnRetestBacktester { bars, lvn_levels, config }
    }

    /// The backtest, with `imbalanced` the market state of each bar: its trades (see
    /// `run_backtest`) and their summary (see `summarize`).
    pub fn run(&self, imbalanced: &[bool]) -> (r: Results)
        requires
            imbalanced@.len() == self.bars_spec().len(),
            self.bars_spec().len() <= u32::MAX,
            bars_bounded(self.bars_spec()),
            config_bounded(self.config_spec()),
            forall|i: int| 0 <= i < self.lvns_spec().len() ==> bounded((#[trigger] self.lvns_spec()[i]).price as int),
            forall|i: int| 0 <= i < self.lvns_spec().len() ==> (#[trigger] self.lvns_spec()[i]).volume * self.lvns_spec()[i].profile_buckets
                * 10_000 <= u128::MAX,
        ensures
            exists|init: Seq<(i64, TrackedLevel)>| {
                &&& crate::pipeline::keyed::keys_sorted(init)
                &&& key_map(init) == levels_added(Map::empty(), self.lvns_spec(), self.config_spec().max_lvn_volume_ratio_bp, None)
                &&& r.trades@ == backtest_upto(self.bars_spec(), imbalanced@, self.config_spec(), init, self.bars_spec().len() as int).trades
            },
            r.summary == (RetestSummary { max_drawdown: drawdown_of(pnls(r.trades@)).2 as i128, ..tally(r.trades@) }),
    {
        let trades = run_backtest(&self.bars, &self.lvn_levels, self.config, imbalanced);
        let summary = summarize(&trades);
        Results { summary, trades }
    }
}

proof fn lemma_retest_hold_reads_from(
    bars1: Seq<Bar>,
    bars2: Seq<Bar>,
    first: int,
    k: int,
    init: RetestHold,
    direction: Direction,
    entry: int,
    target: int,
    trail: int,
)
    requires
        forall|i: int| first <= i < k ==> bars1[i] == bars2[i],
    ensures
        retest_hold(bars1, first, k, init, direction, entry, target, trail) == retest_hold(bars2, first, k, init, direction, entry, target, trail),
    decreases k - first,
{
    if k > first {
        lemma_retest_hold_reads_from(bars1, bars2, first, k - 1, init, direction, entry, target, trail);
    }
}

proof fn lemma_retest_exit_index(
    bars: Seq<Bar>,
    first: int,
    k: int,
    init: RetestHold,
    direction: Direction,
    entry: int,
    target: int,
    trail: int,
)
    requires
        first <= k,
    ensures
        retest_hold(bars, first, k, init, direction, entry, target, trail).exit_idx == init.exit_idx
            || first <= retest_hold(bars, first, k, init, direction, entry, target, trail).exit_idx < k,
    decreases k - first,
{
    if k > first {
        lemma_retest_exit_index(bars, first, k - 1, init, direction, entry, target, trail);
    }
}

/// No look-ahead: a backtested trade depends only on the bars after its signal bar; two bar
/// series of the same length that agree from the entry bar on give the same trade. The
/// trade also exits no earlier than it enters.
pub proof fn lemma_retest_no_lookahead(
    bars1: Seq<Bar>,
    bars2: Seq<Bar>,
    signal_idx: int,
    direction: Direction,
    key: i64,
    cfg: LvnRetestConfig,
)
    requires
        0 <= signal_idx,
        bars1.len() == bars2.len(),
        bars1.len() <= usize::MAX,
        forall|i: int| signal_idx < i < bars1.len() ==> bars1[i] == bars2[i],
    ensures
        retest_trade(bars1, signal_idx, direction, key, cfg) == retest_trade(bars2, signal_idx, direction, key, cfg),
        retest_trade(bars1, signal_idx, direction, key, cfg) matches Some(t) ==> t.entry_idx == signal_idx + 1 && t.entry_idx
            <= t.exit_idx < bars1.len(),
{
    let entry_idx = signal_idx + 1;
    if entry_idx < bars1.len() {
        let entry = bars1[entry_idx].open as int;
        let level = key * 10;
        let (stop, target) = match direction {
            Direction::Long => (level - cfg.structure_stop_buffer, entry + cfg.take_profit),
            Direction::Short => (level + cfg.structure_stop_buffer, entry - cfg.take_profit),
        };
        let end = if entry_idx + cfg.max_hold_bars < bars1.len() { entry_idx + cfg.max_hold_bars } else { bars1.len() as int };
        let init = RetestHold {
            exit_idx: entry_idx,
            exit_price: entry,
            outcome: Outcome::Timeout,
            trailing: stop,
            highest: entry,
            lowest: entry,
            closed: false,
        };
        lemma_retest_hold_reads_from(bars1, bars2, entry_idx + 1, end, init, direction, entry, target, cfg.trailing_stop as int);
        if entry_idx + 1 <= end {
            lemma_retest_exit_index(bars1, entry_idx + 1, end, init, direction, entry, target, cfg.trailing_stop as int);
        }
    }
}

/// One trade at a time, with a cooldown: each backtested trade's signal bar comes at
/// least the cooldown after the previous trade's exit bar (so it enters after that exit),
/// and the backtest remembers the last exit.
pub proof fn lemma_retest_trades_spaced(
    bars: Seq<Bar>,
    imbalanced: Seq<bool>,
    cfg: LvnRetestConfig,
    init: Seq<(i64, TrackedLevel)>,
    k: int,
)
    requires
        bars.len() <= usize::MAX,
        k <= bars.len(),
    ensures
        ({
            let st = backtest_upto(bars, imbalanced, cfg, init, k);
            &&& st.trades.len() == 0 <==> st.last_exit is None
            &&& st.trades.len() > 0 ==> st.last_exit == Some(st.trades.last().exit_idx)
            &&& forall|n: int| 0 <= n < st.trades.len() - 1 ==> #[trigger] st.trades[n + 1].entry_idx >= st.trades[n].exit_idx
                + cfg.cooldown_bars + 1
        }),
    decreases k,
{
    if k > 1 {
        lemma_retest_trades_spaced(bars, imbalanced, cfg, init, k - 1);
        let st = backtest_upto(bars, imbalanced, cfg, init, k - 1);
        let next = backtest_upto(bars, imbalanced, cfg, init, k);
        let i = k - 1;
        if next.trades.len() > st.trades.len() {
            let stepped = levels_stepped(st.levels, cfg, i as usize, bars[i].close, bars[i - 1].close);
            let bar = bars[i];
            let j = first_signal(stepped, cfg, bar.close, bar.high, bar.low, bar.delta, day_of(bar.timestamp as int))->0;
            let level = stepped[j].1;
            let t = retest_trade(bars, i, trade_direction(level.impulse_direction), stepped[j].0, cfg)->0;
            lemma_retest_no_lookahead(bars, bars, i, trade_direction(level.impulse_direction), stepped[j].0, cfg);
            assert(next.trades == st.trades.push(t));
            assert forall|n: int| 0 <= n < next.trades.len() - 1 implies #[trigger] next.trades[n + 1].entry_idx >= next.trades[n].exit_idx
                + cfg.cooldown_bars + 1 by {
                if n + 1 < st.trades.len() {
                    assert(next.trades[n] == st.trades[n] && next.trades[n + 1] == st.trades[n + 1]);
                } else {
                    assert(next.trades[n] == st.trades.last());
                }
            }
        }
    }
}

/// A bar seen upside down: every price negated, so its high is the negated low.
pub open spec fn mirrored_retest_bar(b: Bar) -> Bar {
    Bar { open: (-b.open) as i64, high: (-b.low) as i64, low: (-b.high) as i64, close: (-b.close) as i64, ..b }
}

/// A held retest trade seen upside down: prices negated, the extremes swapped.
pub open spec fn mirrored_retest(s: RetestHold) -> RetestHold {
    RetestHold { exit_price: -s.exit_price, trailing: -s.trailing, highest: -s.lowest, lowest: -s.highest, ..s }
}

/// A short retest is a long one upside down: holding a short over a bar gives what
/// holding a long over the mirrored bar gives, with prices and extremes mirrored.
pub proof fn lemma_retest_step_mirror(s: RetestHold, i: int, bar: Bar, entry: int, target: int, trail: int)
    requires
        bar.open > i64::MIN,
        bar.high > i64::MIN,
        bar.low > i64::MIN,
        bar.close > i64::MIN,
    ensures
        retest_step(s, i, bar, Direction::Short, entry, target, trail) == mirrored_retest(
            retest_step(mirrored_retest(s), i, mirrored_retest_bar(bar), Direction::Long, -entry, -target, trail),
        ),
{
}

/// A retest trade's target is the take-profit distance on the winning side of its entry
/// and its stop the structure buffer beyond the level on the losing side; its P&L is the
/// exit less the entry for a long and the entry less the exit for a short.
pub proof fn lemma_retest_trade_sides(bars: Seq<Bar>, signal_idx: int, direction: Direction, key: i64, cfg: LvnRetestConfig)
    requires
        bounded(cfg.take_profit as int),
        bounded(cfg.structure_stop_buffer as int),
        bounded(key * 10),
        0 <= signal_idx,
        signal_idx + 1 < bars.len() ==> bounded(bars[signal_idx + 1].open as int),
        forall|k: int| 0 <= k < bars.len() ==> bounded(#[trigger] bars[k].close as int) && bounded(bars[k].high as int)
            && bounded(bars[k].low as int),
        bounded(cfg.trailing_stop as int),
    ensures
        retest_trade(bars, signal_idx, direction, key, cfg) matches Some(t) ==> {
            &&& direction == Direction::Long ==> t.take_profit == t.entry_price + cfg.take_profit && t.stop_loss == t.level_price
                - cfg.structure_stop_buffer
            &&& direction == Direction::Short ==> t.take_profit == t.entry_price - cfg.take_profit && t.stop_loss == t.level_price
                + cfg.structure_stop_buffer
            &&& t.level_price == key * 10
        },
{
}

/// A trade's outcome mirrors its P&L: it is a win exactly when the opposite P&L is a
/// loss, breakeven exactly when the opposite one is, and wins need more than half a
/// point.
pub proof fn lemma_classify_sides(profit: int)
    ensures
        classify(profit) == Outcome::Win <==> classify(-profit) == Outcome::Loss,
        classify(profit) == Outcome::Breakeven <==> classify(-profit) == Outcome::Breakeven,
        classify(profit) == Outcome::Win <==> profit > 50,
        classify(profit) != Outcome::Timeout,
{
}

} // verus!
