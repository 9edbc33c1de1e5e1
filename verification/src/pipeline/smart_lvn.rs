//! The smart LVN strategy's vocabulary and its exit simulation: trailing the best price,
//! taking profit, and leaving at the end of the New York session.

use vstd::prelude::*;

use crate::clock::{new_york_clock, new_york_time};
use crate::pipeline::backtester::MarketReading;
use crate::pipeline::bars::Bar;
use crate::pipeline::levels::{bars_volume, lemma_bars_volume_prefix, max_high, min_low};
use crate::pipeline::lvn::{round_div, round_div_exec, ImpulseDirection, LvnLevel};
use crate::pipeline::profile::{
    lemma_sorted_entries, lemma_volume_map, sorted_entries, total_volume, volume_in, volume_map, VolumeProfile,
};
use crate::units::{trunc_div, Price};

verus! {

/// Direction of an impulse.
#[derive(Debug, Clone, Copy, PartialEq, Eq, Structural)]
pub enum ImpulseDir {
    Up,
    Down,
}

/// Why a trade left.
#[derive(Debug, Clone, Copy, PartialEq, Eq, Structural)]
pub enum ExitReason {
    TakeProfit,
    TrailingStop,
    EndOfDay,
}

/// A trading window of the sweep, in Eastern hours.
#[derive(Debug, Clone, Copy, PartialEq, Eq)]
pub struct TimeWindow {
    pub start_hour: u32,
    pub end_hour: u32,
    pub name: &'static str,
}

impl TimeWindow {
    /// 9:00 to 16:00.
    pub fn all_day() -> (r: TimeWindow)
        ensures
            r.start_hour == 9 && r.end_hour == 16 && r.name@ == "all_day"@,
    {
        proof {
            reveal_strlit("all_day");
        }
        TimeWindow { start_hour: 9, end_hour: 16, name: "all_day" }
    }

    /// 9:00 to 12:00.
    pub fn morning() -> (r: TimeWindow)
        ensures
            r.start_hour == 9 && r.end_hour == 12 && r.name@ == "morning"@,
    {
        proof {
            reveal_strlit("morning");
        }
        TimeWindow { start_hour: 9, end_hour: 12, name: "morning" }
    }

    /// 10:00 to 14:00.
    pub fn midday() -> (r: TimeWindow)
        ensures
            r.start_hour == 10 && r.end_hour == 14 && r.name@ == "midday"@,
    {
        proof {
            reveal_strlit("midday");
        }
        TimeWindow { start_hour: 10, end_hour: 14, name: "midday" }
    }

    /// 12:00 to 16:00.
    pub fn afternoon() -> (r: TimeWindow)
        ensures
            r.start_hour == 12 && r.end_hour == 16 && r.name@ == "afternoon"@,
    {
        proof {
            reveal_strlit("afternoon");
        }
        TimeWindow { start_hour: 12, end_hour: 16, name: "afternoon" }
    }

    /// 9:00 to 11:00.
    pub fn open_hour() -> (r: TimeWindow)
        ensures
            r.start_hour == 9 && r.end_hour == 11 && r.name@ == "open_hour"@,
    {
        proof {
            reveal_strlit("open_hour");
        }
        TimeWindow { start_hour: 9, end_hour: 11, name: "open_hour" }
    }
}

/// Settings of the smart LVN strategy. Prices and distances in price units.
#[derive(Debug, Clone, Copy, PartialEq, Eq, Structural)]
pub struct SmartLvnConfig {
    /// Trades allowed per day
    pub max_trades_per_day: usize,
    /// Delta at the level that confirms an entry
    pub min_delta_confirmation: i64,
    /// Smallest impulse move
    pub min_impulse_size: Price,
    /// Longest impulse, in bars
    pub max_impulse_bars: usize,
    /// Distance within which price is at a level
    pub level_tolerance: Price,
    /// Distance the stop trails the best price
    pub trailing_stop: Price,
    /// Profit that is taken (zero: trail only)
    pub take_profit: Price,
    /// Distance of the first stop beyond the LVN
    pub stop_buffer: Price,
    /// Trading window, New York hours: from half past the start hour to the end hour
    pub start_hour: u32,
    pub end_hour: u32,
}

impl Default for SmartLvnConfig {
    /// Five trades a day, 30 contracts of delta, impulses of 25 points within 120 bars,
    /// 2 points of tolerance, a 4-point trail, a 20-point target, a 2-point stop buffer,
    /// trading 9:30 to 15:00.
    fn default() -> (c: SmartLvnConfig)
        ensures
            c == (SmartLvnConfig {
                max_trades_per_day: 5,
                min_delta_confirmation: 30,
                min_impulse_size: 2_500,
                max_impulse_bars: 120,
                level_tolerance: 200,
                trailing_stop: 400,
                take_profit: 2_000,
                stop_buffer: 200,
                start_hour: 9,
                end_hour: 15,
            }),
    {
        SmartLvnConfig {
            max_trades_per_day: 5,
            min_delta_confirmation: 30,
            min_impulse_size: 2_500,
            max_impulse_bars: 120,
            level_tolerance: 200,
            trailing_stop: 400,
            take_profit: 2_000,
            stop_buffer: 200,
            start_hour: 9,
            end_hour: 15,
        }
    }
}

/// Whether a bar falls at or after 16:00 in New York (a time chrono cannot represent
/// does not).
pub open spec fn at_session_end(bar: Bar) -> bool {
    match new_york_clock(bar.timestamp) {
        Some((h, _)) => h >= 16,
        None => false,
    }
}

/// The exit of a trade held from bar `i` on, with the best price and the stop so far: at
/// the first bar at or after 16:00 New York at its close; otherwise the bar moves the best
/// price and the stop trails it, the profit target (when set) is checked, then the stop;
/// after the last bar, at its close.
pub open spec fn exit_from(
    bars: Seq<Bar>,
    i: int,
    entry: int,
    direction: ImpulseDir,
    best: int,
    stop: int,
    cfg: SmartLvnConfig,
) -> (int, i64, ExitReason)
    decreases bars.len() - i,
{
    if i >= bars.len() || i < 0 {
        (bars.last().close as int, bars.last().timestamp, ExitReason::EndOfDay)
    } else {
        let bar = bars[i];
        if at_session_end(bar) {
            (bar.close as int, bar.timestamp, ExitReason::EndOfDay)
        } else {
            match direction {
                ImpulseDir::Up => {
                    let (b, s) = if bar.high > best { (bar.high as int, bar.high - cfg.trailing_stop) } else { (best, stop) };
                    if cfg.take_profit > 0 && bar.high >= entry + cfg.take_profit {
                        (entry + cfg.take_profit, bar.timestamp, ExitReason::TakeProfit)
                    } else if bar.low <= s {
                        (s, bar.timestamp, ExitReason::TrailingStop)
                    } else {
                        exit_from(bars, i + 1, entry, direction, b, s, cfg)
                    }
                },
                ImpulseDir::Down => {
                    let (b, s) = if bar.low < best { (bar.low as int, bar.low + cfg.trailing_stop) } else { (best, stop) };
                    if cfg.take_profit > 0 && bar.low <= entry - cfg.take_profit {
                        (entry - cfg.take_profit, bar.timestamp, ExitReason::TakeProfit)
                    } else if bar.high >= s {
                        (s, bar.timestamp, ExitReason::TrailingStop)
                    } else {
                        exit_from(bars, i + 1, entry, direction, b, s, cfg)
                    }
                },
            }
        }
    }
}

/// The exit of a trade entered at the bar `entry_idx`, with the first stop the stop
/// buffer beyond the LVN (see `exit_from`).
pub open spec fn trade_exit(bars: Seq<Bar>, entry_idx: int, entry: int, direction: ImpulseDir, lvn: int, cfg: SmartLvnConfig) -> (Price, i64, ExitReason) {
    let stop = match direction {
        ImpulseDir::Up => lvn - cfg.stop_buffer,
        ImpulseDir::Down => lvn + cfg.stop_buffer,
    };
    let (p, t, reason) = exit_from(bars, entry_idx + 1, entry, direction, entry, stop, cfg);
    (p as i64, t, reason)
}

/// Bound on the prices and distances of the exit simulation: 2^60 price units.
pub open spec fn within(x: int) -> bool {
    -0x1000_0000_0000_0000 <= x <= 0x1000_0000_0000_0000
}

/// Bound on LVN prices: 2^61 price units.
pub open spec fn lvn_within(x: int) -> bool {
    -0x2000_0000_0000_0000 <= x <= 0x2000_0000_0000_0000
}

/// Whether the opens, highs, lows and closes of the bars are bounded.
pub open spec fn bars_within(bars: Seq<Bar>) -> bool {
    forall|i: int| 0 <= i < bars.len() ==> within((#[trigger] bars[i]).high as int) && within(bars[i].low as int) && within(
        bars[i].close as int,
    ) && within(bars[i].open as int)
}

/// The exit of a trade entered at the bar `entry_idx` (see `exit_from`): the first stop
/// lies the stop buffer beyond the LVN; the result is the exit price, the exit bar's
/// timestamp and the reason. No exit without bars.
pub fn simulate_exit(
    bars: &[Bar],
    entry_idx: usize,
    entry_price: Price,
    direction: ImpulseDir,
    lvn_price: Price,
    cfg: &SmartLvnConfig,
) -> (r: Option<(Price, i64, ExitReason)>)
    requires
        bars_within(bars@),
        within(entry_price as int),
        lvn_within(lvn_price as int),
        within(cfg.trailing_stop as int),
        within(cfg.take_profit as int),
        within(cfg.stop_buffer as int),
    ensures
        bars@.len() == 0 ==> r is None,
        bars@.len() > 0 ==> r == Some(trade_exit(bars@, entry_idx as int, entry_price as int, direction, lvn_price as int, *cfg)),
{
    if bars.len() == 0 {
        return None;
    }
    let stop0: i64 = match direction {
        ImpulseDir::Up => lvn_price - cfg.stop_buffer,
        ImpulseDir::Down => lvn_price + cfg.stop_buffer,
    };
    let ghost target = exit_from(bars@, entry_idx + 1, entry_price as int, direction, entry_price as int, stop0 as int, *cfg);
    proof {
        assert(trade_exit(bars@, entry_idx as int, entry_price as int, direction, lvn_price as int, *cfg) == (target.0 as i64, target.1, target.2));
    }
    let mut best = entry_price;
    let mut stop = stop0;
    if entry_idx as u128 + 1 > bars.len() as u128 {
        let last = &bars[bars.len() - 1];
        return Some((last.close, last.timestamp, ExitReason::EndOfDay));
    }
    let mut i = entry_idx + 1;
    while i < bars.len()
        invariant
            entry_idx + 1 <= i <= bars@.len(),
            bars@.len() > 0,
            bars_within(bars@),
            within(entry_price as int),
            within(cfg.trailing_stop as int),
            within(cfg.take_profit as int),
            within(best as int),
            -0x4000_0000_0000_0000 <= stop <= 0x4000_0000_0000_0000,
            exit_from(bars@, i as int, entry_price as int, direction, best as int, stop as int, *cfg) == target,
            trade_exit(bars@, entry_idx as int, entry_price as int, direction, lvn_price as int, *cfg) == (target.0 as i64, target.1, target.2),
        decreases bars@.len() - i,
    {
        let bar = &bars[i];
        proof {
            assert(within(bar.high as int) && within(bar.low as int) && within(bar.close as int));
        }
        let clock = new_york_time(bar.timestamp);
        let session_over = match clock {
            Some((h, _)) => h >= 16,
            None => false,
        };
        if session_over {
            return Some((bar.close, bar.timestamp, ExitReason::EndOfDay));
        }
        match direction {
            ImpulseDir::Up => {
                if bar.high > best {
                    best = bar.high;
                    stop = best - cfg.trailing_stop;
                }
                if cfg.take_profit > 0 && bar.high >= entry_price + cfg.take_profit {
                    return Some((entry_price + cfg.take_profit, bar.timestamp, ExitReason::TakeProfit));
                }
                if bar.low <= stop {
                    return Some((stop, bar.timestamp, ExitReason::TrailingStop));
                }
            },
            ImpulseDir::Down => {
                if bar.low < best {
                    best = bar.low;
                    stop = best + cfg.trailing_stop;
                }
                if cfg.take_profit > 0 && bar.low <= entry_price - cfg.take_profit {
                    return Some((entry_price - cfg.take_profit, bar.timestamp, ExitReason::TakeProfit));
                }
                if bar.high >= stop {
                    return Some((stop, bar.timestamp, ExitReason::TrailingStop));
                }
            },
        }
        i = i + 1;
    }
    let last = &bars[bars.len() - 1];
    Some((last.close, last.timestamp, ExitReason::EndOfDay))
}

/// Whether the strategy's distances are bounded.
pub open spec fn config_within(cfg: SmartLvnConfig) -> bool {
    &&& within(cfg.min_impulse_size as int)
    &&& within(cfg.level_tolerance as int)
    &&& within(cfg.trailing_stop as int)
    &&& within(cfg.take_profit as int)
    &&& within(cfg.stop_buffer as int)
}

/// The exit price of a held trade stays within 2^62 price units.
proof fn lemma_exit_bounded(
    bars: Seq<Bar>,
    i: int,
    entry: int,
    direction: ImpulseDir,
    best: int,
    stop: int,
    cfg: SmartLvnConfig,
)
    requires
        bars.len() > 0,
        bars_within(bars),
        within(entry),
        within(best),
        -0x4000_0000_0000_0000 <= stop <= 0x4000_0000_0000_0000,
        within(cfg.trailing_stop as int),
        within(cfg.take_profit as int),
    ensures
        -0x4000_0000_0000_0000 <= exit_from(bars, i, entry, direction, best, stop, cfg).0 <= 0x4000_0000_0000_0000,
    decreases bars.len() - i,
{
    if i >= bars.len() || i < 0 {
        assert(bars[bars.len() - 1] == bars.last());
    } else {
        let bar = bars[i];
        assert(within(bar.high as int) && within(bar.low as int) && within(bar.close as int));
        match direction {
            ImpulseDir::Up => {
                let (b, s) = if bar.high > best { (bar.high as int, bar.high - cfg.trailing_stop) } else { (best, stop) };
                lemma_exit_bounded(bars, i + 1, entry, direction, b, s, cfg);
            },
            ImpulseDir::Down => {
                let (b, s) = if bar.low < best { (bar.low as int, bar.low + cfg.trailing_stop) } else { (best, stop) };
                lemma_exit_bounded(bars, i + 1, entry, direction, b, s, cfg);
            },
        }
    }
}

/// A trade of the smart LVN strategy. Prices and P&L in price units, times in
/// milliseconds since the Unix epoch.
#[derive(Debug, Clone, Copy, PartialEq, Eq, Structural)]
pub struct SmartTrade {
    pub entry_time: i64,
    pub exit_time: i64,
    pub entry_price: Price,
    pub exit_price: Price,
    pub direction: ImpulseDir,
    pub pnl_points: Price,
    pub lvn_price: Price,
    /// The delta that confirmed the entry
    pub entry_delta: i64,
    pub exit_reason: ExitReason,
}

/// Whether a bar's range reaches within the tolerance of a level.
pub open spec fn touches(bar: Bar, level: Price, tolerance: Price) -> bool {
    bar.low <= level + tolerance && bar.high >= level - tolerance
}

/// Whether a bar's delta confirms a retest: buying of at least the minimum after an up
/// impulse, selling of at least the minimum after a down impulse.
pub open spec fn delta_confirms(bar: Bar, direction: ImpulseDir, min_delta: i64) -> bool {
    match direction {
        ImpulseDir::Up => bar.delta >= min_delta,
        ImpulseDir::Down => bar.delta <= -min_delta,
    }
}

/// The trade entered at the close of bar `i` on a retest of the LVN (see `trade_exit`).
pub open spec fn smart_trade_at(bars: Seq<Bar>, i: int, direction: ImpulseDir, lvn: Price, cfg: SmartLvnConfig) -> SmartTrade {
    let bar = bars[i];
    let e = trade_exit(bars, i, bar.close as int, direction, lvn as int, cfg);
    SmartTrade {
        entry_time: bar.timestamp,
        exit_time: e.1,
        entry_price: bar.close,
        exit_price: e.0,
        direction,
        pnl_points: (match direction {
            ImpulseDir::Up => e.0 - bar.close,
            ImpulseDir::Down => bar.close - e.0,
        }) as i64,
        lvn_price: lvn,
        entry_delta: bar.delta,
        exit_reason: e.2,
    }
}

/// The end of a search of `span` bars from `start`, within the bars.
pub open spec fn search_end(start: int, len: int, span: int) -> int {
    if start + span < len {
        start + span
    } else {
        len
    }
}

/// The retest trade found from bar `i` to before bar `end`: none once a bar is at or
/// after the end hour in New York; otherwise the first bar that touches the LVN with a
/// confirming delta is entered at its close.
pub open spec fn retest_from(bars: Seq<Bar>, i: int, end: int, direction: ImpulseDir, lvn: Price, cfg: SmartLvnConfig) -> Option<SmartTrade>
    decreases end - i,
{
    if i >= end {
        None
    } else if new_york_clock(bars[i].timestamp) matches Some(hm) && hm.0 >= cfg.end_hour {
        None
    } else if touches(bars[i], lvn, cfg.level_tolerance) && delta_confirms(bars[i], direction, cfg.min_delta_confirmation) {
        Some(smart_trade_at(bars, i, direction, lvn, cfg))
    } else {
        retest_from(bars, i + 1, end, direction, lvn, cfg)
    }
}

fn touches_exec(bar: &Bar, level: Price, tolerance: Price) -> (r: bool)
    ensures
        r == touches(*bar, level, tolerance),
{
    (bar.low as i128) <= level as i128 + tolerance as i128 && (bar.high as i128) >= level as i128 - tolerance as i128
}

fn confirms_exec(bar: &Bar, direction: ImpulseDir, min_delta: i64) -> (r: bool)
    ensures
        r == delta_confirms(*bar, direction, min_delta),
{
    match direction {
        ImpulseDir::Up => bar.delta >= min_delta,
        ImpulseDir::Down => (bar.delta as i128) <= -(min_delta as i128),
    }
}

/// The trade entered at the close of bar `i` (see `smart_trade_at`).
fn entry_trade(bars: &[Bar], i: usize, direction: ImpulseDir, lvn_price: Price, cfg: &SmartLvnConfig) -> (r: SmartTrade)
    requires
        i < bars@.len(),
        bars_within(bars@),
        lvn_within(lvn_price as int),
        config_within(*cfg),
    ensures
        r == smart_trade_at(bars@, i as int, direction, lvn_price, *cfg),
{
    let bar = &bars[i];
    proof {
        assert(within(bar.high as int) && within(bar.low as int) && within(bar.close as int));
        let stop = match direction {
            ImpulseDir::Up => lvn_price - cfg.stop_buffer,
            ImpulseDir::Down => lvn_price + cfg.stop_buffer,
        };
        lemma_exit_bounded(bars@, i + 1, bar.close as int, direction, bar.close as int, stop, *cfg);
    }
    let (exit_price, exit_time, exit_reason) = simulate_exit(bars, i, bar.close, direction, lvn_price, cfg).unwrap();
    let pnl_points = match direction {
        ImpulseDir::Up => exit_price - bar.close,
        ImpulseDir::Down => bar.close - exit_price,
    };
    SmartTrade {
        entry_time: bar.timestamp,
        exit_time,
        entry_price: bar.close,
        exit_price,
        direction,
        pnl_points,
        lvn_price,
        entry_delta: bar.delta,
        exit_reason,
    }
}

/// The retest of an impulse's LVN within the hour of bars from `search_start` (see
/// `retest_from`).
pub fn find_retest_trade(bars: &[Bar], direction: ImpulseDir, lvn_price: Price, search_start: usize, cfg: &SmartLvnConfig) -> (r: Option<SmartTrade>)
    requires
        bars_within(bars@),
        lvn_within(lvn_price as int),
        config_within(*cfg),
    ensures
        r == retest_from(bars@, search_start as int, search_end(search_start as int, bars@.len() as int, 3600), direction, lvn_price, *cfg),
{
    let end: usize = if (search_start as u128) + 3600 < bars.len() as u128 { search_start + 3600 } else { bars.len() };
    let ghost target = retest_from(bars@, search_start as int, end as int, direction, lvn_price, *cfg);
    let mut i = search_start;
    while i < end
        invariant
            end <= bars@.len(),
            end as int == search_end(search_start as int, bars@.len() as int, 3600),
            target == retest_from(bars@, search_start as int, end as int, direction, lvn_price, *cfg),
            bars_within(bars@),
            lvn_within(lvn_price as int),
            config_within(*cfg),
            retest_from(bars@, i as int, end as int, direction, lvn_price, *cfg) == target,
        decreases end - i,
    {
        let bar = &bars[i];
        let clock = new_york_time(bar.timestamp);
        if let Some((hour, _)) = clock {
            if hour >= cfg.end_hour {
                return None;
            }
        }
        if touches_exec(bar, lvn_price, cfg.level_tolerance) && confirms_exec(bar, direction, cfg.min_delta_confirmation) {
            return Some(entry_trade(bars, i, direction, lvn_price, cfg));
        }
        i += 1;
    }
    None
}

/// An impulse move and the LVN it left. Prices in price units.
#[derive(Debug, Clone, Copy, PartialEq, Eq, Structural)]
pub struct ValidImpulse {
    pub start_idx: usize,
    pub end_idx: usize,
    pub start_price: Price,
    pub end_price: Price,
    pub direction: ImpulseDir,
    /// The LVN of the impulse
    pub lvn_price: Price,
    /// Delta over the impulse's bars
    pub impulse_delta: i128,
}

/// The first-touch key of an LVN price: its price in quarter points, rounded toward zero.
pub open spec fn lvn_bucket(price: Price) -> i64 {
    trunc_div(price as int, 25) as i64
}

fn lvn_bucket_exec(price: Price) -> (r: i64)
    ensures
        r == lvn_bucket(price),
{
    price / 25
}

/// What a day of trading holds: its trades, the LVN keys already traded, and the bar
/// before which no new trade starts.
pub struct DayState {
    pub trades: Seq<SmartTrade>,
    pub used: Seq<i64>,
    pub in_position_until: int,
}

/// The index of the first bar from `k` on whose timestamp is at or after `t` (the number
/// of bars if none is).
pub open spec fn first_at_or_after(bars: Seq<Bar>, k: int, t: i64) -> int
    decreases bars.len() - k,
{
    if k >= bars.len() {
        bars.len() as int
    } else if bars[k].timestamp >= t {
        k
    } else {
        first_at_or_after(bars, k + 1, t)
    }
}

/// A day after one more impulse: once the day's trades are done, or when the impulse's
/// LVN was traded already, nothing changes; otherwise its retest is searched for from
/// after the impulse and after the last trade's exit, and a trade found is kept, its LVN
/// marked and its exit bar awaited.
pub open spec fn day_step(bars: Seq<Bar>, st: DayState, imp: ValidImpulse, cfg: SmartLvnConfig) -> DayState {
    if st.trades.len() >= cfg.max_trades_per_day {
        st
    } else if st.used.contains(lvn_bucket(imp.lvn_price)) {
        st
    } else {
        let start = if imp.end_idx + 1 > st.in_position_until { imp.end_idx + 1 } else { st.in_position_until };
        match retest_from(bars, start, search_end(start, bars.len() as int, 3600), imp.direction, imp.lvn_price, cfg) {
            None => st,
            Some(t) => DayState {
                trades: st.trades.push(t),
                used: st.used.push(lvn_bucket(imp.lvn_price)),
                in_position_until: first_at_or_after(bars, 0, t.exit_time) + 1,
            },
        }
    }
}

/// The day after the first `k` impulses.
pub open spec fn day_upto(bars: Seq<Bar>, impulses: Seq<ValidImpulse>, cfg: SmartLvnConfig, k: int) -> DayState
    decreases k,
{
    if k <= 0 {
        DayState { trades: Seq::empty(), used: Seq::empty(), in_position_until: 0 }
    } else {
        day_step(bars, day_upto(bars, impulses, cfg, k - 1), impulses[k - 1], cfg)
    }
}

fn contains_key(keys: &Vec<i64>, key: i64) -> (r: bool)
    ensures
        r == keys@.contains(key),
{
    let mut i: usize = 0;
    while i < keys.len()
        invariant
            i <= keys@.len(),
            forall|j: int| 0 <= j < i ==> keys@[j] != key,
        decreases keys@.len() - i,
    {
        if keys[i] == key {
            return true;
        }
        i += 1;
    }
    false
}

fn first_at_or_after_exec(bars: &[Bar], t: i64) -> (r: usize)
    ensures
        r == first_at_or_after(bars@, 0, t),
        r <= bars@.len(),
{
    let mut k: usize = 0;
    while k < bars.len()
        invariant
            k <= bars@.len(),
            first_at_or_after(bars@, k as int, t) == first_at_or_after(bars@, 0, t),
        decreases bars@.len() - k,
    {
        if bars[k].timestamp >= t {
            return k;
        }
        k += 1;
    }
    k
}

/// The trades of a day on its impulses, taken in order (see `day_step`).
pub fn trade_day(bars: &[Bar], impulses: &[ValidImpulse], cfg: &SmartLvnConfig) -> (r: Vec<SmartTrade>)
    requires
        bars_within(bars@),
        config_within(*cfg),
        bars@.len() < usize::MAX,
        forall|i: int| 0 <= i < impulses@.len() ==> (#[trigger] impulses@[i]).end_idx < usize::MAX && lvn_within(impulses@[i].lvn_price as int),
    ensures
        r@ == day_upto(bars@, impulses@, *cfg, impulses@.len() as int).trades,
{
    let mut trades: Vec<SmartTrade> = Vec::new();
    let mut used: Vec<i64> = Vec::new();
    let mut in_position_until: usize = 0;
    let mut k: usize = 0;
    while k < impulses.len() && trades.len() < cfg.max_trades_per_day
        invariant
            k <= impulses@.len(),
            bars_within(bars@),
            config_within(*cfg),
            bars@.len() < usize::MAX,
            forall|i: int| 0 <= i < impulses@.len() ==> (#[trigger] impulses@[i]).end_idx < usize::MAX && lvn_within(impulses@[i].lvn_price as int),
            trades@ == day_upto(bars@, impulses@, *cfg, k as int).trades,
            used@ == day_upto(bars@, impulses@, *cfg, k as int).used,
            in_position_until == day_upto(bars@, impulses@, *cfg, k as int).in_position_until,
        decreases impulses@.len() - k,
    {
        let imp = impulses[k];
        proof {
            assert(imp == impulses@[k as int]);
        }
        let bucket = lvn_bucket_exec(imp.lvn_price);
        if !contains_key(&used, bucket) {
            let start = if imp.end_idx + 1 > in_position_until { imp.end_idx + 1 } else { in_position_until };
            match find_retest_trade(bars, imp.direction, imp.lvn_price, start, cfg) {
                Some(t) => {
                    let exit_idx = first_at_or_after_exec(bars, t.exit_time);
                    in_position_until = exit_idx + 1;
                    used.push(bucket);
                    trades.push(t);
                },
                None => {},
            }
        }
        k += 1;
    }
    proof {
        lemma_day_done(bars@, impulses@, *cfg, k as int);
    }
    trades
}

/// Once a day's trades are done, the remaining impulses change nothing.
proof fn lemma_day_done(bars: Seq<Bar>, impulses: Seq<ValidImpulse>, cfg: SmartLvnConfig, k: int)
    requires
        0 <= k <= impulses.len(),
        k == impulses.len() || day_upto(bars, impulses, cfg, k).trades.len() >= cfg.max_trades_per_day,
    ensures
        day_upto(bars, impulses, cfg, impulses.len() as int) == day_upto(bars, impulses, cfg, k),
    decreases impulses.len() - k,
{
    if k < impulses.len() {
        assert(day_upto(bars, impulses, cfg, k + 1) == day_upto(bars, impulses, cfg, k));
        lemma_day_done(bars, impulses, cfg, k + 1);
    }
}

/// Whether an LVN is too thick to trade: its volume ratio (its volume over the average
/// bucket volume of its profile, `volume * buckets / profile_volume`) is above 15%.
pub open spec fn too_thick(l: LvnLevel) -> bool {
    100 * l.volume * l.profile_buckets > 15 * l.profile_volume
}

fn too_thick_exec(l: &LvnLevel) -> (r: bool)
    ensures
        r == too_thick(*l),
{
    proof {
        assert(l.volume * l.profile_buckets <= u64::MAX * u64::MAX) by (nonlinear_arith)
            requires 0 <= l.volume <= u64::MAX, 0 <= l.profile_buckets <= u64::MAX;
        assert(100 * l.volume * l.profile_buckets == (l.volume * l.profile_buckets) * 100) by (nonlinear_arith);
    }
    let rhs: u128 = 15 * l.profile_volume as u128;
    match (l.volume as u128 * l.profile_buckets as u128).checked_mul(100) {
        Some(lhs) => lhs > rhs,
        None => true,
    }
}

/// The trading direction of an LVN's impulse.
pub open spec fn direction_of(d: ImpulseDirection) -> ImpulseDir {
    match d {
        ImpulseDirection::Up => ImpulseDir::Up,
        ImpulseDirection::Down => ImpulseDir::Down,
    }
}

/// Whether a New York clock time lies in the trading window: from half past the start
/// hour to before the end hour. A timestamp without a clock time lies outside.
pub open spec fn in_window(clock: Option<(u32, u32)>, start_hour: u32, end_hour: u32) -> bool {
    match clock {
        Some(hm) => (hm.0 > start_hour || (hm.0 == start_hour && hm.1 >= 30)) && hm.0 < end_hour,
        None => false,
    }
}

fn in_window_exec(clock: Option<(u32, u32)>, start_hour: u32, end_hour: u32) -> (r: bool)
    ensures
        r == in_window(clock, start_hour, end_hour),
{
    match clock {
        Some((hour, minute)) => (hour > start_hour || (hour == start_hour && minute >= 30)) && hour < end_hour,
        None => false,
    }
}

/// The index of the first bar from `k` on whose timestamp is after `t` (the number of bars
/// if none is).
pub open spec fn first_after(bars: Seq<Bar>, k: int, t: i64) -> int
    decreases bars.len() - k,
{
    if k >= bars.len() {
        bars.len() as int
    } else if bars[k].timestamp > t {
        k
    } else {
        first_after(bars, k + 1, t)
    }
}

fn first_after_exec(bars: &[Bar], t: i64) -> (r: usize)
    ensures
        r == first_after(bars@, 0, t),
        r <= bars@.len(),
{
    let mut k: usize = 0;
    while k < bars.len()
        invariant
            k <= bars@.len(),
            first_after(bars@, k as int, t) == first_after(bars@, 0, t),
        decreases bars@.len() - k,
    {
        if bars[k].timestamp > t {
            return k;
        }
        k += 1;
    }
    k
}

/// The retest trade of a precomputed LVN found from bar `i` to before bar `end`: bars
/// outside the trading window are passed over; the first bar in it that touches the LVN
/// with a confirming delta is entered at its close.
pub open spec fn real_retest_from(bars: Seq<Bar>, i: int, end: int, direction: ImpulseDir, lvn: Price, cfg: SmartLvnConfig) -> Option<SmartTrade>
    decreases end - i,
{
    if i >= end {
        None
    } else if !in_window(new_york_clock(bars[i].timestamp), cfg.start_hour, cfg.end_hour) {
        real_retest_from(bars, i + 1, end, direction, lvn, cfg)
    } else if touches(bars[i], lvn, cfg.level_tolerance) && delta_confirms(bars[i], direction, cfg.min_delta_confirmation) {
        Some(smart_trade_at(bars, i, direction, lvn, cfg))
    } else {
        real_retest_from(bars, i + 1, end, direction, lvn, cfg)
    }
}

/// A day after one more precomputed LVN: once the day's trades are done, for an LVN too
/// thick, for one already traded, and for one without bars after its impulse (or whose
/// impulse ends before the first bar), nothing changes; otherwise its retest is searched
/// for over the two hours of bars after its impulse, and a trade found is kept and its
/// LVN marked.
pub open spec fn real_day_step(bars: Seq<Bar>, st: DayState, l: LvnLevel, cfg: SmartLvnConfig) -> DayState {
    let start = first_after(bars, 0, l.impulse_end_time);
    if st.trades.len() >= cfg.max_trades_per_day {
        st
    } else if too_thick(l) {
        st
    } else if st.used.contains(lvn_bucket(l.price)) {
        st
    } else if start == 0 || start >= bars.len() {
        st
    } else {
        match real_retest_from(bars, start, search_end(start, bars.len() as int, 7200), direction_of(l.impulse_direction), l.price, cfg) {
            None => st,
            Some(t) => DayState { trades: st.trades.push(t), used: st.used.push(lvn_bucket(l.price)), ..st },
        }
    }
}

/// The day after the first `k` precomputed LVNs.
pub open spec fn real_day_upto(bars: Seq<Bar>, lvns: Seq<LvnLevel>, cfg: SmartLvnConfig, k: int) -> DayState
    decreases k,
{
    if k <= 0 {
        DayState { trades: Seq::empty(), used: Seq::empty(), in_position_until: 0 }
    } else {
        real_day_step(bars, real_day_upto(bars, lvns, cfg, k - 1), lvns[k - 1], cfg)
    }
}

proof fn lemma_real_day_done(bars: Seq<Bar>, lvns: Seq<LvnLevel>, cfg: SmartLvnConfig, k: int)
    requires
        0 <= k <= lvns.len(),
        k == lvns.len() || real_day_upto(bars, lvns, cfg, k).trades.len() >= cfg.max_trades_per_day,
    ensures
        real_day_upto(bars, lvns, cfg, lvns.len() as int) == real_day_upto(bars, lvns, cfg, k),
    decreases lvns.len() - k,
{
    if k < lvns.len() {
        assert(real_day_upto(bars, lvns, cfg, k + 1) == real_day_upto(bars, lvns, cfg, k));
        lemma_real_day_done(bars, lvns, cfg, k + 1);
    }
}

/// The smart LVN strategy traded on precomputed LVNs.
pub struct RealLvnBacktest {
    pub config: SmartLvnConfig,
}

impl RealLvnBacktest {
    pub fn new(config: SmartLvnConfig) -> (r: RealLvnBacktest)
        ensures
            r.config == config,
    {
        RealLvnBacktest { config }
    }

    /// The retest of a precomputed LVN within the two hours of bars from `search_start`
    /// (see `real_retest_from`).
    pub fn find_real_lvn_retest(&self, bars: &[Bar], lvn_price: Price, direction: ImpulseDir, search_start: usize) -> (r: Option<SmartTrade>)
        requires
            bars_within(bars@),
            lvn_within(lvn_price as int),
            config_within(self.config),
        ensures
            r == real_retest_from(bars@, search_start as int, search_end(search_start as int, bars@.len() as int, 7200), direction, lvn_price, self.config),
    {
        let cfg = &self.config;
        let end: usize = if (search_start as u128) + 7200 < bars.len() as u128 { search_start + 7200 } else { bars.len() };
        let ghost target = real_retest_from(bars@, search_start as int, end as int, direction, lvn_price, *cfg);
        let mut i = search_start;
        while i < end
            invariant
                end <= bars@.len(),
                end as int == search_end(search_start as int, bars@.len() as int, 7200),
                *cfg == self.config,
                target == real_retest_from(bars@, search_start as int, end as int, direction, lvn_price, *cfg),
                bars_within(bars@),
                lvn_within(lvn_price as int),
                config_within(*cfg),
                real_retest_from(bars@, i as int, end as int, direction, lvn_price, *cfg) == target,
            decreases end - i,
        {
            let bar = &bars[i];
            let clock = new_york_time(bar.timestamp);
            if in_window_exec(clock, cfg.start_hour, cfg.end_hour) && touches_exec(bar, lvn_price, cfg.level_tolerance)
                && confirms_exec(bar, direction, cfg.min_delta_confirmation) {
                return Some(entry_trade(bars, i, direction, lvn_price, cfg));
            }
            i += 1;
        }
        None
    }

    /// The trades of a day on its precomputed LVNs, taken in order (see `real_day_step`).
    pub fn trade_day_real_lvns(&self, bars: &[Bar], lvns: &[LvnLevel]) -> (r: Vec<SmartTrade>)
        requires
            bars_within(bars@),
            config_within(self.config),
            forall|i: int| 0 <= i < lvns@.len() ==> lvn_within((#[trigger] lvns@[i]).price as int),
        ensures
            r@ == real_day_upto(bars@, lvns@, self.config, lvns@.len() as int).trades,
    {
        let mut trades: Vec<SmartTrade> = Vec::new();
        let mut used: Vec<i64> = Vec::new();
        let mut k: usize = 0;
        while k < lvns.len() && trades.len() < self.config.max_trades_per_day
            invariant
                k <= lvns@.len(),
                bars_within(bars@),
                config_within(self.config),
                forall|i: int| 0 <= i < lvns@.len() ==> lvn_within((#[trigger] lvns@[i]).price as int),
                trades@ == real_day_upto(bars@, lvns@, self.config, k as int).trades,
                used@ == real_day_upto(bars@, lvns@, self.config, k as int).used,
            decreases lvns@.len() - k,
        {
            let lvn = &lvns[k];
            let start = first_after_exec(bars, lvn.impulse_end_time);
            if !too_thick_exec(lvn) {
                let bucket = lvn_bucket_exec(lvn.price);
                if !contains_key(&used, bucket) && start != 0 && start < bars.len() {
                    let direction = match lvn.impulse_direction {
                        ImpulseDirection::Up => ImpulseDir::Up,
                        ImpulseDirection::Down => ImpulseDir::Down,
                    };
                    match self.find_real_lvn_retest(bars, lvn.price, direction, start) {
                        Some(t) => {
                            used.push(bucket);
                            trades.push(t);
                        },
                        None => {},
                    }
                }
            }
            k += 1;
        }
        proof {
            lemma_real_day_done(bars@, lvns@, self.config, k as int);
        }
        trades
    }
}

/// Bucket size of an impulse's profile: two points.
pub const IMPULSE_BUCKET_SIZE: Price = 200;

/// The profile of bars' closes: each bar's volume in the two-point bucket of its close.
pub open spec fn close_profile(bars: Seq<Bar>) -> Map<i64, u64>
    decreases bars.len(),
{
    if bars.len() == 0 {
        Map::empty()
    } else {
        let m = close_profile(bars.drop_last());
        let b = round_div(bars.last().close as int, IMPULSE_BUCKET_SIZE as int) as i64;
        m.insert(b, (volume_in(m, b) + bars.last().volume) as u64)
    }
}

/// The buckets of a close profile of bounded bars lie near bounded prices.
proof fn lemma_close_buckets_bounded(bars: Seq<Bar>)
    requires
        bars_within(bars),
    ensures
        forall|k: i64| #[trigger] close_profile(bars).contains_key(k)
            ==> -0x1000_0000_0000_0000 - 100 <= k * IMPULSE_BUCKET_SIZE <= 0x1000_0000_0000_0000 + 100,
    decreases bars.len(),
{
    if bars.len() > 0 {
        let t = bars.drop_last();
        assert(bars_within(t)) by {
            assert forall|i: int| 0 <= i < t.len() implies #[trigger] t[i] == bars[i] by {}
        }
        lemma_close_buckets_bounded(t);
        let p = bars.last().close as int;
        assert(bars[bars.len() - 1] == bars.last());
        let b = round_div(p, 200);
        assert(p - 100 <= b * 200 <= p + 100) by {
            if p >= 0 {
                assert(p - 100 <= (p + 100) / 200 * 200 <= p + 100) by (nonlinear_arith)
                    requires p >= 0;
            } else {
                assert(-p - 100 <= (-p + 100) / 200 * 200 <= -p + 100) by (nonlinear_arith)
                    requires -p > 0;
            }
        }
        let m = close_profile(t);
        assert forall|k: i64| #[trigger] close_profile(bars).contains_key(k)
            implies -0x1000_0000_0000_0000 - 100 <= k * IMPULSE_BUCKET_SIZE <= 0x1000_0000_0000_0000 + 100 by {
            if k != b as i64 {
                assert(m.contains_key(k));
            }
        }
    }
}

/// Whether a price lies in the middle 60% of the range from `lo` to `hi`.
pub open spec fn in_middle(p: int, lo: int, hi: int) -> bool {
    5 * p >= 5 * lo + (hi - lo) && 5 * p <= 5 * hi - (hi - lo)
}

/// Whether a bucket's volume is above half the average bucket volume.
pub open spec fn heavy(volume: int, buckets: int, total: int) -> bool {
    2 * volume * buckets > total
}

/// Whether a bucket's volume is at most 30% of the average bucket volume.
pub open spec fn thin(volume: int, buckets: int, total: int) -> bool {
    10 * volume * buckets <= 3 * total
}

/// Whether a bucket more than a bucket above price `p` is heavy.
pub open spec fn heavy_above(es: Seq<(i64, u64)>, p: int) -> bool {
    exists|j: int| #![trigger es[j]] 0 <= j < es.len() && es[j].0 * IMPULSE_BUCKET_SIZE > p + IMPULSE_BUCKET_SIZE
        && heavy(es[j].1 as int, es.len() as int, total_volume(es))
}

/// Whether a bucket more than a bucket below price `p` is heavy.
pub open spec fn heavy_below(es: Seq<(i64, u64)>, p: int) -> bool {
    exists|j: int| #![trigger es[j]] 0 <= j < es.len() && es[j].0 * IMPULSE_BUCKET_SIZE < p - IMPULSE_BUCKET_SIZE
        && heavy(es[j].1 as int, es.len() as int, total_volume(es))
}

/// Whether the bucket `j` of an impulse profile is an LVN candidate: in the middle of the
/// impulse's range, thin, and with heavy buckets both above and below it, where traders
/// are trapped.
pub open spec fn lvn_candidate(es: Seq<(i64, u64)>, j: int, lo: int, hi: int) -> bool {
    let p = es[j].0 * IMPULSE_BUCKET_SIZE;
    &&& in_middle(p, lo, hi)
    &&& thin(es[j].1 as int, es.len() as int, total_volume(es))
    &&& heavy_above(es, p)
    &&& heavy_below(es, p)
}

/// The thinnest candidate among the first `k` buckets, the first of the thinnest.
pub open spec fn thinnest_upto(es: Seq<(i64, u64)>, k: int, lo: int, hi: int) -> Option<int>
    decreases k,
{
    if k <= 0 {
        None
    } else {
        let prev = thinnest_upto(es, k - 1, lo, hi);
        if lvn_candidate(es, k - 1, lo, hi) && (prev matches Some(b) ==> es[k - 1].1 < es[b].1) {
            Some(k - 1)
        } else {
            prev
        }
    }
}

/// The LVN of the impulse over the bars `start ..= end`: the price of the thinnest
/// candidate bucket (see `lvn_candidate`) of the profile of the bars' closes, the lowest
/// of the thinnest; none for fewer than five buckets, a range under ten points, or a
/// window that is empty or runs past the bars.
pub open spec fn best_lvn_in(bars: Seq<Bar>, start: int, end: int) -> Option<Price> {
    if end <= start || end >= bars.len() {
        None
    } else {
        let w = bars.subrange(start, end + 1);
        let es = sorted_entries(close_profile(w));
        let lo = min_low(w);
        let hi = max_high(w);
        if es.len() < 5 || hi - lo < 1_000 {
            None
        } else {
            match thinnest_upto(es, es.len() as int, lo, hi) {
                Some(j) => Some((es[j].0 * IMPULSE_BUCKET_SIZE) as i64),
                None => None,
            }
        }
    }
}

fn heavy_exec(volume: u64, buckets: u64, total: u64) -> (r: bool)
    ensures
        r == heavy(volume as int, buckets as int, total as int),
{
    proof {
        assert(volume * buckets <= u64::MAX * u64::MAX) by (nonlinear_arith)
            requires 0 <= volume <= u64::MAX, 0 <= buckets <= u64::MAX;
        assert(2 * volume * buckets == (volume * buckets) * 2) by (nonlinear_arith);
    }
    match (volume as u128 * buckets as u128).checked_mul(2) {
        Some(lhs) => lhs > total as u128,
        None => true,
    }
}

fn thin_exec(volume: u64, buckets: u64, total: u64) -> (r: bool)
    ensures
        r == thin(volume as int, buckets as int, total as int),
{
    proof {
        assert(volume * buckets <= u64::MAX * u64::MAX) by (nonlinear_arith)
            requires 0 <= volume <= u64::MAX, 0 <= buckets <= u64::MAX;
        assert(10 * volume * buckets == (volume * buckets) * 10) by (nonlinear_arith);
    }
    match (volume as u128 * buckets as u128).checked_mul(10) {
        Some(lhs) => lhs <= 3 * total as u128,
        None => false,
    }
}

/// Whether a bucket more than a bucket above (or below) price `p` is heavy.
fn heavy_beyond(es: &[(i64, u64)], p: i64, total: u64, above: bool) -> (r: bool)
    requires
        total == total_volume(es@),
        -0x1000_0000_0000_0000 - 100 <= p <= 0x1000_0000_0000_0000 + 100,
        forall|j: int| 0 <= j < es@.len() ==> -0x1000_0000_0000_0000 - 100 <= (#[trigger] es@[j]).0 * IMPULSE_BUCKET_SIZE <= 0x1000_0000_0000_0000 + 100,
    ensures
        r == if above { heavy_above(es@, p as int) } else { heavy_below(es@, p as int) },
{
    let n = es.len();
    let mut j: usize = 0;
    while j < n
        invariant
            j <= n,
            n == es@.len(),
            total == total_volume(es@),
            -0x1000_0000_0000_0000 - 100 <= p <= 0x1000_0000_0000_0000 + 100,
            forall|i: int| 0 <= i < es@.len() ==> -0x1000_0000_0000_0000 - 100 <= (#[trigger] es@[i]).0 * IMPULSE_BUCKET_SIZE <= 0x1000_0000_0000_0000 + 100,
            forall|i: int| 0 <= i < j ==> !({
                &&& (if above { es@[i].0 * IMPULSE_BUCKET_SIZE > p + IMPULSE_BUCKET_SIZE } else { es@[i].0 * IMPULSE_BUCKET_SIZE < p - IMPULSE_BUCKET_SIZE })
                &&& heavy(es@[i].1 as int, es@.len() as int, total_volume(es@))
            }),
        decreases n - j,
    {
        let (bucket, volume) = es[j];
        proof {
            assert(es@[j as int] == (bucket, volume));
        }
        let price = bucket * IMPULSE_BUCKET_SIZE;
        let beyond = if above { price > p + IMPULSE_BUCKET_SIZE } else { price < p - IMPULSE_BUCKET_SIZE };
        if beyond && heavy_exec(volume, n as u64, total) {
            return true;
        }
        j += 1;
    }
    false
}

/// The LVN of an impulse over the bars `start_idx ..= end_idx` (see `best_lvn_in`).
pub fn find_best_lvn_in_impulse(bars: &[Bar], start_idx: usize, end_idx: usize, direction: ImpulseDir) -> (r: Option<Price>)
    requires
        bars_within(bars@),
        start_idx < end_idx < bars@.len() ==> bars_volume(bars@.subrange(start_idx as int, end_idx + 1)) <= u64::MAX,
    ensures
        r == best_lvn_in(bars@, start_idx as int, end_idx as int),
        r matches Some(p) ==> -0x1000_0000_0000_0000 - 100 <= p <= 0x1000_0000_0000_0000 + 100,
{
    if end_idx <= start_idx || end_idx >= bars.len() {
        return None;
    }
    let ghost w = bars@.subrange(start_idx as int, end_idx + 1);
    let mut profile = VolumeProfile::new();
    let mut lo = bars[start_idx].low;
    let mut hi = bars[start_idx].high;
    let mut k = start_idx;
    while k <= end_idx
        invariant
            start_idx <= k <= end_idx + 1,
            end_idx < bars@.len(),
            w == bars@.subrange(start_idx as int, end_idx + 1),
            bars_volume(w) <= u64::MAX,
            bars_within(bars@),
            profile.wf(),
            profile.wf_total(),
            volume_map(profile@) == close_profile(bars@.subrange(start_idx as int, k as int)),
            profile.total_spec() == bars_volume(bars@.subrange(start_idx as int, k as int)),
            k == start_idx ==> lo == bars@[start_idx as int].low && hi == bars@[start_idx as int].high,
            k > start_idx ==> lo == min_low(bars@.subrange(start_idx as int, k as int)) && hi == max_high(
                bars@.subrange(start_idx as int, k as int),
            ),
            within(lo as int),
            within(hi as int),
        decreases end_idx + 1 - k,
    {
        let bar = &bars[k];
        let ghost before = bars@.subrange(start_idx as int, k as int);
        let ghost after = bars@.subrange(start_idx as int, k + 1);
        proof {
            assert(after.drop_last() =~= before);
            assert(after.last() == bars@[k as int]);
            assert(bars@[k as int] == *bar);
            assert(within(bar.high as int) && within(bar.low as int) && within(bar.close as int));
            assert(w.take(k + 1 - start_idx) =~= after);
            lemma_bars_volume_prefix(w, k + 1 - start_idx);
            if k == start_idx {
                assert(after.len() == 1);
                assert(after[0] == *bar);
            }
        }
        let bucket = round_div_exec(bar.close, IMPULSE_BUCKET_SIZE);
        profile.add(bucket, bar.volume);
        if bar.low < lo {
            lo = bar.low;
        }
        if bar.high > hi {
            hi = bar.high;
        }
        k += 1;
    }
    proof {
        assert(bars@.subrange(start_idx as int, k as int) =~= w);
        lemma_sorted_entries(profile@);
        lemma_volume_map(profile@);
        lemma_close_buckets_bounded(w);
        assert(bars_within(w)) by {
            assert forall|i: int| 0 <= i < w.len() implies #[trigger] w[i] == bars@[start_idx + i] by {}
        }
        lemma_close_buckets_bounded(w);
    }
    let es = profile.entries();
    let total = profile.total();
    let n = es.len();
    if n < 5 || (hi as i128) - (lo as i128) < 1_000 {
        return None;
    }
    proof {
        assert forall|j: int| 0 <= j < es@.len() implies -0x1000_0000_0000_0000 - 100 <= (#[trigger] es@[j]).0 * IMPULSE_BUCKET_SIZE
            <= 0x1000_0000_0000_0000 + 100 by {
            assert(volume_map(es@).contains_key(es@[j].0));
        }
    }
    let mut best: Option<usize> = None;
    let mut j: usize = 0;
    while j < n
        invariant
            j <= n,
            n == es@.len(),
            es@ == sorted_entries(close_profile(w)),
            total == total_volume(es@),
            lo == min_low(w),
            hi == max_high(w),
            within(lo as int),
            within(hi as int),
            forall|i: int| 0 <= i < es@.len() ==> -0x1000_0000_0000_0000 - 100 <= (#[trigger] es@[i]).0 * IMPULSE_BUCKET_SIZE <= 0x1000_0000_0000_0000 + 100,
            match best {
                None => thinnest_upto(es@, j as int, lo as int, hi as int) is None,
                Some(b) => b < j && thinnest_upto(es@, j as int, lo as int, hi as int) == Some(b as int),
            },
        decreases n - j,
    {
        let (bucket, volume) = es[j];
        proof {
            assert(es@[j as int] == (bucket, volume));
        }
        let price = bucket * IMPULSE_BUCKET_SIZE;
        let middle = 5 * (price as i128) >= 5 * (lo as i128) + ((hi as i128) - (lo as i128)) && 5 * (price as i128) <= 5 * (hi as i128) - ((hi as i128) - (lo as i128));
        let candidate = middle && thin_exec(volume, n as u64, total) && heavy_beyond(es, price, total, true) && heavy_beyond(es, price, total, false);
        let thinner = match best {
            None => true,
            Some(b) => volume < es[b].1,
        };
        if candidate && thinner {
            best = Some(j);
        }
        j += 1;
    }
    match best {
        Some(b) => Some(es[b].0 * IMPULSE_BUCKET_SIZE),
        None => None,
    }
}

/// Total delta of the bars.
pub open spec fn delta_sum(bars: Seq<Bar>) -> int
    decreases bars.len(),
{
    if bars.len() == 0 {
        0
    } else {
        delta_sum(bars.drop_last()) + bars.last().delta
    }
}

/// The fallback LVN of an impulse: 38.2% of its move from its start, to the nearest price
/// unit.
pub open spec fn retracement(start: int, move_size: int, up: bool) -> int {
    if up {
        start + round_div(move_size * 382, 1000)
    } else {
        start - round_div(move_size * 382, 1000)
    }
}

/// The impulse over the bars `start ..= end`, if they make one: a move from the start
/// bar's open to the window's extreme of at least the minimum impulse size and more than
/// twice the move the other way (up is looked at first). Its LVN is the impulse's best LVN
/// (see `best_lvn_in`), else the 38.2% retracement.
pub open spec fn impulse_at(bars: Seq<Bar>, start: int, end: int, cfg: SmartLvnConfig) -> Option<ValidImpulse> {
    let w = bars.subrange(start, end + 1);
    let open = bars[start].open as int;
    let high = max_high(w);
    let low = min_low(w);
    let up = high - open;
    let down = open - low;
    if up >= cfg.min_impulse_size && up > 2 * down {
        Some(ValidImpulse {
            start_idx: start as usize,
            end_idx: end as usize,
            start_price: open as i64,
            end_price: high as i64,
            direction: ImpulseDir::Up,
            lvn_price: match best_lvn_in(bars, start, end) {
                Some(p) => p,
                None => retracement(open, up, true) as i64,
            },
            impulse_delta: delta_sum(w) as i128,
        })
    } else if down >= cfg.min_impulse_size && down > 2 * up {
        Some(ValidImpulse {
            start_idx: start as usize,
            end_idx: end as usize,
            start_price: open as i64,
            end_price: low as i64,
            direction: ImpulseDir::Down,
            lvn_price: match best_lvn_in(bars, start, end) {
                Some(p) => p,
                None => retracement(open, down, false) as i64,
            },
            impulse_delta: delta_sum(w) as i128,
        })
    } else {
        None
    }
}

/// The first impulse from `start` that ends at a bar from `end` to before `limit`.
pub open spec fn impulse_scan(bars: Seq<Bar>, start: int, end: int, limit: int, cfg: SmartLvnConfig) -> Option<ValidImpulse>
    decreases limit - end,
{
    if end >= limit {
        None
    } else {
        match impulse_at(bars, start, end, cfg) {
            Some(imp) => Some(imp),
            None => impulse_scan(bars, start, end + 1, limit, cfg),
        }
    }
}

/// The first impulse starting at bar `start` within the longest impulse's bars.
pub open spec fn impulse_from(bars: Seq<Bar>, start: int, cfg: SmartLvnConfig) -> Option<ValidImpulse> {
    let span = if cfg.max_impulse_bars < bars.len() - start { cfg.max_impulse_bars as int } else { bars.len() - start };
    impulse_scan(bars, start, start, start + span, cfg)
}

/// Whether every window of at most `width` bars has a volume that fits in a `u64`.
pub open spec fn windows_fit(bars: Seq<Bar>, width: int) -> bool {
    forall|a: int, b: int| 0 <= a <= b <= bars.len() && b - a <= width ==> #[trigger] bars_volume(bars.subrange(a, b)) <= u64::MAX
}

/// Whether every bar's delta lies within plus or minus 2^62.
pub open spec fn deltas_within(bars: Seq<Bar>) -> bool {
    forall|i: int| 0 <= i < bars.len() ==> -0x4000_0000_0000_0000 <= #[trigger] bars[i].delta <= 0x4000_0000_0000_0000
}

fn retracement_exec(start: Price, move_size: Price, up: bool) -> (r: Price)
    requires
        within(start as int),
        -0x2000_0000_0000_0000 <= move_size <= 0x2000_0000_0000_0000,
    ensures
        r == retracement(start as int, move_size as int, up),
        lvn_within(r as int),
{
    let n: i128 = move_size as i128 * 382;
    let q: i128 = if n >= 0 { (n + 500) / 1000 } else { -((-n + 500) / 1000) };
    proof {
        let m = move_size as int;
        if m >= 0 {
            assert(0 <= (m * 382 + 500) / 1000 <= m) by (nonlinear_arith)
                requires m >= 0;
            assert((m * 382 + 500) / 1000 <= 0x1000_0000_0000_0000) by (nonlinear_arith)
                requires 0 <= m <= 0x2000_0000_0000_0000;
        } else {
            assert(0 <= (-(m * 382) + 500) / 1000 <= -m) by (nonlinear_arith)
                requires m < 0;
            assert((-(m * 382) + 500) / 1000 <= 0x1000_0000_0000_0000) by (nonlinear_arith)
                requires 0 < -m <= 0x2000_0000_0000_0000;
        }
    }
    if up {
        start + q as i64
    } else {
        start - q as i64
    }
}

/// The impulse over the bars `start_idx ..= end`, given their highest high, lowest low
/// and total delta (see `impulse_at`).
fn impulse_check(bars: &[Bar], start_idx: usize, end: usize, high: Price, low: Price, total_delta: i128, cfg: &SmartLvnConfig) -> (r: Option<ValidImpulse>)
    requires
        start_idx <= end < bars@.len(),
        end + 1 - start_idx <= cfg.max_impulse_bars,
        bars_within(bars@),
        config_within(*cfg),
        windows_fit(bars@, cfg.max_impulse_bars as int),
        high == max_high(bars@.subrange(start_idx as int, end + 1)),
        low == min_low(bars@.subrange(start_idx as int, end + 1)),
        total_delta == delta_sum(bars@.subrange(start_idx as int, end + 1)),
        within(high as int),
        within(low as int),
    ensures
        r == impulse_at(bars@, start_idx as int, end as int, *cfg),
        r matches Some(imp) ==> imp.start_idx == start_idx && imp.end_idx == end && lvn_within(imp.lvn_price as int),
{
    let start_price = bars[start_idx].open;
    proof {
        assert(within(start_price as int)) by {
            assert(bars@[start_idx as int] == bars[start_idx as int]);
        }
        assert(bars_volume(bars@.subrange(start_idx as int, end + 1)) <= u64::MAX);
    }
    let up_move = high - start_price;
    let down_move = start_price - low;
    if up_move >= cfg.min_impulse_size && (up_move as i128) > 2 * (down_move as i128) {
        let lvn_price = match find_best_lvn_in_impulse(bars, start_idx, end, ImpulseDir::Up) {
            Some(p) => p,
            None => retracement_exec(start_price, up_move, true),
        };
        Some(
            ValidImpulse {
                start_idx,
                end_idx: end,
                start_price,
                end_price: high,
                direction: ImpulseDir::Up,
                lvn_price,
                impulse_delta: total_delta,
            },
        )
    } else if down_move >= cfg.min_impulse_size && (down_move as i128) > 2 * (up_move as i128) {
        let lvn_price = match find_best_lvn_in_impulse(bars, start_idx, end, ImpulseDir::Down) {
            Some(p) => p,
            None => retracement_exec(start_price, down_move, false),
        };
        Some(
            ValidImpulse {
                start_idx,
                end_idx: end,
                start_price,
                end_price: low,
                direction: ImpulseDir::Down,
                lvn_price,
                impulse_delta: total_delta,
            },
        )
    } else {
        None
    }
}

/// The impulse starting at bar `start_idx` (see `impulse_from`).
pub fn find_impulse_from(bars: &[Bar], start_idx: usize, cfg: &SmartLvnConfig) -> (r: Option<ValidImpulse>)
    requires
        start_idx < bars@.len(),
        bars_within(bars@),
        deltas_within(bars@),
        config_within(*cfg),
        windows_fit(bars@, cfg.max_impulse_bars as int),
    ensures
        r == impulse_from(bars@, start_idx as int, *cfg),
        r matches Some(imp) ==> imp.start_idx == start_idx && start_idx <= imp.end_idx < bars@.len() && lvn_within(
            imp.lvn_price as int,
        ),
{
    let mut high = bars[start_idx].high;
    let mut low = bars[start_idx].low;
    let mut total_delta: i128 = 0;
    let span: usize = if cfg.max_impulse_bars < bars.len() - start_idx { cfg.max_impulse_bars } else { bars.len() - start_idx };
    let limit = start_idx + span;
    let ghost target = impulse_scan(bars@, start_idx as int, start_idx as int, limit as int, *cfg);
    proof {
        assert(within(high as int) && within(low as int)) by {
            assert(bars@[start_idx as int] == bars[start_idx as int]);
        }
    }
    let mut end = start_idx;
    while end < limit
        invariant
            start_idx <= end <= limit,
            limit <= bars@.len(),
            limit - start_idx <= cfg.max_impulse_bars,
            bars_within(bars@),
            deltas_within(bars@),
            config_within(*cfg),
            windows_fit(bars@, cfg.max_impulse_bars as int),
            within(high as int),
            within(low as int),
            end == start_idx ==> high == bars@[start_idx as int].high && low == bars@[start_idx as int].low && total_delta == 0,
            end > start_idx ==> high == max_high(bars@.subrange(start_idx as int, end as int)) && low == min_low(
                bars@.subrange(start_idx as int, end as int),
            ) && total_delta == delta_sum(bars@.subrange(start_idx as int, end as int)),
            -0x4000_0000_0000_0000 * (end - start_idx) <= total_delta <= 0x4000_0000_0000_0000 * (end - start_idx),
            target == impulse_from(bars@, start_idx as int, *cfg),
            target == impulse_scan(bars@, start_idx as int, end as int, limit as int, *cfg),
        decreases limit - end,
    {
        let bar = &bars[end];
        let ghost w = bars@.subrange(start_idx as int, end + 1);
        proof {
            assert(bars@[end as int] == *bar);
            assert(within(bar.high as int) && within(bar.low as int));
            assert(w.drop_last() =~= bars@.subrange(start_idx as int, end as int));
            assert(w.last() == *bar);
            if end == start_idx {
                assert(w.len() == 1 && w[0] == *bar);
                assert(w.drop_last().len() == 0);
            }
            assert(-0x4000_0000_0000_0000 <= bar.delta <= 0x4000_0000_0000_0000);
            assert(0x4000_0000_0000_0000 * (end - start_idx + 1) <= 0x4000_0000_0000_0000 * 0xffff_ffff_ffff_ffff) by (nonlinear_arith)
                requires end - start_idx + 1 <= 0xffff_ffff_ffff_ffff;
            assert(0x4000_0000_0000_0000 * (end - start_idx + 1) == 0x4000_0000_0000_0000 * (end - start_idx) + 0x4000_0000_0000_0000) by (nonlinear_arith);
            assert(-0x4000_0000_0000_0000 * (end - start_idx + 1) == -0x4000_0000_0000_0000 * (end - start_idx) - 0x4000_0000_0000_0000) by (nonlinear_arith);
        }
        if bar.high > high {
            high = bar.high;
        }
        if bar.low < low {
            low = bar.low;
        }
        total_delta = total_delta + bar.delta as i128;
        proof {
            assert(delta_sum(w) == delta_sum(w.drop_last()) + w.last().delta);
            if end == start_idx {
                assert(delta_sum(w.drop_last()) == 0);
            }
            assert(total_delta == delta_sum(w));
            assert(high == max_high(w));
            assert(low == min_low(w));
        }
        let found = impulse_check(bars, start_idx, end, high, low, total_delta, cfg);
        if found.is_some() {
            return found;
        }
        end += 1;
    }
    None
}

/// Whether an impulse turned a balanced market imbalanced, or left it imbalanced with a
/// delta of more than 100 contracts either way: the market states before and after it
/// are given.
pub fn is_state_transition_impulse(balanced_before: bool, imbalanced_after: bool, impulse: &ValidImpulse) -> (r: bool)
    ensures
        r == ((balanced_before && imbalanced_after) || (imbalanced_after && (impulse.impulse_delta > 100 || impulse.impulse_delta < -100))),
{
    (balanced_before && imbalanced_after) || (imbalanced_after && (impulse.impulse_delta > 100 || impulse.impulse_delta < -100))
}

/// The impulses found from bar `i` on: bars outside the trading window are passed over;
/// an impulse found is kept and the search goes on after its last bar. No impulse starts
/// within the last longest-impulse's bars.
pub open spec fn detect_from(bars: Seq<Bar>, i: int, cfg: SmartLvnConfig) -> Seq<ValidImpulse>
    decreases bars.len() - i,
{
    if i >= bars.len() - cfg.max_impulse_bars || i < 0 {
        Seq::empty()
    } else if !in_window(new_york_clock(bars[i].timestamp), cfg.start_hour, cfg.end_hour) {
        detect_from(bars, i + 1, cfg)
    } else {
        match impulse_from(bars, i, cfg) {
            Some(imp) => seq![imp] + detect_from(
                bars,
                if i <= imp.end_idx < bars.len() { imp.end_idx + 1 } else { i + 1 },
                cfg,
            ),
            None => detect_from(bars, i + 1, cfg),
        }
    }
}

/// The impulses of a day's bars (see `detect_from`).
pub fn detect_valid_impulses(bars: &[Bar], cfg: &SmartLvnConfig) -> (r: Vec<ValidImpulse>)
    requires
        bars_within(bars@),
        deltas_within(bars@),
        config_within(*cfg),
        windows_fit(bars@, cfg.max_impulse_bars as int),
    ensures
        r@ == detect_from(bars@, 0, *cfg),
        forall|i: int| 0 <= i < r@.len() ==> (#[trigger] r@[i]).start_idx <= r@[i].end_idx < bars@.len() && lvn_within(
            r@[i].lvn_price as int,
        ),
{
    let mut impulses: Vec<ValidImpulse> = Vec::new();
    if bars.len() < cfg.max_impulse_bars {
        return impulses;
    }
    let stop = bars.len() - cfg.max_impulse_bars;
    let mut i: usize = 0;
    while i < stop
        invariant
            stop == bars@.len() - cfg.max_impulse_bars,
            bars_within(bars@),
            deltas_within(bars@),
            config_within(*cfg),
            windows_fit(bars@, cfg.max_impulse_bars as int),
            impulses@ + detect_from(bars@, i as int, *cfg) == detect_from(bars@, 0, *cfg),
            i <= bars@.len(),
            forall|k: int| 0 <= k < impulses@.len() ==> (#[trigger] impulses@[k]).start_idx <= impulses@[k].end_idx < bars@.len()
                && lvn_within(impulses@[k].lvn_price as int),
        decreases bars@.len() - i,
    {
        let clock = new_york_time(bars[i].timestamp);
        if !in_window_exec(clock, cfg.start_hour, cfg.end_hour) {
            i += 1;
        } else {
            match find_impulse_from(bars, i, cfg) {
                Some(imp) => {
                    let ghost before = impulses@;
                    impulses.push(imp);
                    proof {
                        let rest = detect_from(bars@, imp.end_idx + 1, *cfg);
                        assert(before + (seq![imp] + rest) =~= impulses@ + rest);
                    }
                    i = imp.end_idx + 1;
                },
                None => {
                    i += 1;
                },
            }
        }
    }
    proof {
        assert(detect_from(bars@, i as int, *cfg) =~= Seq::<ValidImpulse>::empty());
        assert(impulses@ + Seq::<ValidImpulse>::empty() =~= impulses@);
    }
    impulses
}

/// A day of precomputed data: its one-second bars and its LVNs.
pub struct DayData {
    /// `YYYYMMDD`
    pub date: String,
    pub bars_1s: Vec<Bar>,
    pub lvn_levels: Vec<LvnLevel>,
}

/// Results of a smart LVN backtest, P&L in price units: counts and sums of the trades'
/// P&L (win rate, profit factor and averages follow from them).
#[derive(Debug)]
pub struct BacktestResult {
    pub total_days: usize,
    pub total_impulses: usize,
    pub valid_impulses: usize,
    pub total_trades: usize,
    /// Trades at a profit
    pub wins: usize,
    /// Trades at a loss
    pub losses: usize,
    pub net_pnl: i128,
    pub gross_profit: i128,
    /// Loss of the trades at a loss, as a positive amount
    pub gross_loss: i128,
    pub trades: Vec<SmartTrade>,
}

/// Winners, losers, net P&L, profit of the winners and loss of the losers of trades.
pub open spec fn smart_totals(trades: Seq<SmartTrade>) -> (int, int, int, int, int)
    decreases trades.len(),
{
    if trades.len() == 0 {
        (0, 0, 0, 0, 0)
    } else {
        let (w, l, net, gp, gl) = smart_totals(trades.drop_last());
        let p = trades.last().pnl_points as int;
        (
            w + if p > 0 { 1int } else { 0int },
            l + if p < 0 { 1int } else { 0int },
            net + p,
            gp + if p > 0 { p } else { 0int },
            gl + if p < 0 { -p } else { 0int },
        )
    }
}

/// The results of trades (see `smart_totals`), with the counts of days and impulses.
pub fn compute_results(trades: Vec<SmartTrade>, total_impulses: usize, valid_impulses: usize, total_days: usize) -> (r: BacktestResult)
    ensures
        r.trades@ == trades@,
        r.total_trades == trades@.len(),
        r.total_days == total_days,
        r.total_impulses == total_impulses,
        r.valid_impulses == valid_impulses,
        (r.wins as int, r.losses as int, r.net_pnl as int, r.gross_profit as int, r.gross_loss as int) == smart_totals(trades@),
{
    let mut wins: usize = 0;
    let mut losses: usize = 0;
    let mut net: i128 = 0;
    let mut gross_profit: i128 = 0;
    let mut gross_loss: i128 = 0;
    let mut i: usize = 0;
    while i < trades.len()
        invariant
            i <= trades@.len(),
            (wins as int, losses as int, net as int, gross_profit as int, gross_loss as int) == smart_totals(trades@.take(i as int)),
            wins <= i && losses <= i,
            -0x8000_0000_0000_0000 * i <= net <= 0x8000_0000_0000_0000 * i,
            0 <= gross_profit <= 0x8000_0000_0000_0000 * i,
            0 <= gross_loss <= 0x8000_0000_0000_0000 * i,
        decreases trades@.len() - i,
    {
        let p = trades[i].pnl_points;
        proof {
            assert(trades@.take(i + 1).drop_last() =~= trades@.take(i as int));
            assert(trades@.take(i + 1).last() == trades@[i as int]);
            assert(0x8000_0000_0000_0000 * (i + 1) == 0x8000_0000_0000_0000 * i + 0x8000_0000_0000_0000) by (nonlinear_arith);
            assert(0x8000_0000_0000_0000 * (i + 1) <= 0x8000_0000_0000_0000 * 0xffff_ffff_ffff_ffff) by (nonlinear_arith)
                requires i + 1 <= 0xffff_ffff_ffff_ffff;
        }
        if p > 0 {
            wins = wins + 1;
            gross_profit = gross_profit + p as i128;
        }
        if p < 0 {
            losses = losses + 1;
            gross_loss = gross_loss - p as i128;
        }
        net = net + p as i128;
        i += 1;
    }
    proof {
        assert(trades@.take(i as int) =~= trades@);
    }
    let total_trades = trades.len();
    BacktestResult {
        total_days,
        total_impulses,
        valid_impulses,
        total_trades,
        wins,
        losses,
        net_pnl: net,
        gross_profit,
        gross_loss,
        trades,
    }
}

/// Whether a day's data suits the backtest: bounded bar prices and LVN prices.
pub open spec fn day_fits(day: DayData) -> bool {
    &&& bars_within(day.bars_1s@)
    &&& forall|i: int| 0 <= i < day.lvn_levels@.len() ==> lvn_within((#[trigger] day.lvn_levels@[i]).price as int)
}

/// The trades and the number of LVNs of the days before `k` that have bars and LVNs,
/// day by day (see `real_day_upto`).
pub open spec fn real_run_upto(days: Seq<DayData>, cfg: SmartLvnConfig, k: int) -> (Seq<SmartTrade>, int)
    decreases k,
{
    if k <= 0 {
        (Seq::empty(), 0)
    } else {
        let (trades, lvns) = real_run_upto(days, cfg, k - 1);
        let day = days[k - 1];
        if day.bars_1s@.len() == 0 || day.lvn_levels@.len() == 0 {
            (trades, lvns)
        } else {
            (
                trades + real_day_upto(day.bars_1s@, day.lvn_levels@, cfg, day.lvn_levels@.len() as int).trades,
                lvns + day.lvn_levels@.len(),
            )
        }
    }
}

impl RealLvnBacktest {
    /// The backtest over the days: each day with bars and LVNs traded on its LVNs (see
    /// `trade_day_real_lvns`), and the results of all the trades, with the days and the
    /// LVNs counted (see `compute_results`).
    pub fn run(&self, days: &[DayData]) -> (r: BacktestResult)
        requires
            config_within(self.config),
            forall|i: int| 0 <= i < days@.len() ==> day_fits(#[trigger] days@[i]),
            real_run_upto(days@, self.config, days@.len() as int).1 <= usize::MAX,
        ensures
            r.trades@ == real_run_upto(days@, self.config, days@.len() as int).0,
            r.valid_impulses == real_run_upto(days@, self.config, days@.len() as int).1,
            r.total_impulses == 0,
            r.total_days == days@.len(),
            r.total_trades == r.trades@.len(),
            (r.wins as int, r.losses as int, r.net_pnl as int, r.gross_profit as int, r.gross_loss as int) == smart_totals(r.trades@),
    {
        let mut all: Vec<SmartTrade> = Vec::new();
        let mut total_lvns: usize = 0;
        let mut k: usize = 0;
        while k < days.len()
            invariant
                k <= days@.len(),
                config_within(self.config),
                forall|i: int| 0 <= i < days@.len() ==> day_fits(#[trigger] days@[i]),
                real_run_upto(days@, self.config, days@.len() as int).1 <= usize::MAX,
                all@ == real_run_upto(days@, self.config, k as int).0,
                total_lvns == real_run_upto(days@, self.config, k as int).1,
            decreases days@.len() - k,
        {
            let day = &days[k];
            proof {
                assert(day_fits(days@[k as int]));
                lemma_real_run_monotone(days@, self.config, k + 1, days@.len() as int);
            }
            if day.bars_1s.len() > 0 && day.lvn_levels.len() > 0 {
                let mut day_trades = self.trade_day_real_lvns(&day.bars_1s, &day.lvn_levels);
                all.append(&mut day_trades);
                total_lvns = total_lvns + day.lvn_levels.len();
            }
            k += 1;
        }
        compute_results(all, 0, total_lvns, days.len())
    }
}

/// The number of LVNs counted never falls from one day to the next.
proof fn lemma_real_run_monotone(days: Seq<DayData>, cfg: SmartLvnConfig, j: int, k: int)
    requires
        0 <= j <= k,
    ensures
        real_run_upto(days, cfg, j).1 <= real_run_upto(days, cfg, k).1,
    decreases k - j,
{
    if j < k {
        lemma_real_run_monotone(days, cfg, j, k - 1);
    }
}

/// First touch only, and a daily limit: a day of impulses keeps at most its limit of
/// trades, one per traded LVN, and no LVN (by its first-touch key) is traded twice.
pub proof fn lemma_day_first_touch(bars: Seq<Bar>, impulses: Seq<ValidImpulse>, cfg: SmartLvnConfig, k: int)
    ensures
        day_upto(bars, impulses, cfg, k).trades.len() <= cfg.max_trades_per_day,
        day_upto(bars, impulses, cfg, k).used.len() == day_upto(bars, impulses, cfg, k).trades.len(),
        forall|i: int, j: int| 0 <= i < j < day_upto(bars, impulses, cfg, k).used.len()
            ==> day_upto(bars, impulses, cfg, k).used[i] != day_upto(bars, impulses, cfg, k).used[j],
    decreases k,
{
    if k > 0 {
        lemma_day_first_touch(bars, impulses, cfg, k - 1);
        let st = day_upto(bars, impulses, cfg, k - 1);
        let next = day_upto(bars, impulses, cfg, k);
        if next.used.len() > st.used.len() {
            let b = lvn_bucket(impulses[k - 1].lvn_price);
            assert(next.used == st.used.push(b));
            assert(!st.used.contains(b));
            assert forall|i: int, j: int| 0 <= i < j < next.used.len() implies next.used[i] != next.used[j] by {
                if j == next.used.len() - 1 {
                    assert(next.used[i] == st.used[i]);
                    assert(next.used[j] == b);
                } else {
                    assert(next.used[i] == st.used[i] && next.used[j] == st.used[j]);
                }
            }
        }
    }
}

/// The same holds of a day traded on precomputed LVNs.
pub proof fn lemma_real_day_first_touch(bars: Seq<Bar>, lvns: Seq<LvnLevel>, cfg: SmartLvnConfig, k: int)
    ensures
        real_day_upto(bars, lvns, cfg, k).trades.len() <= cfg.max_trades_per_day,
        real_day_upto(bars, lvns, cfg, k).used.len() == real_day_upto(bars, lvns, cfg, k).trades.len(),
        forall|i: int, j: int| 0 <= i < j < real_day_upto(bars, lvns, cfg, k).used.len()
            ==> real_day_upto(bars, lvns, cfg, k).used[i] != real_day_upto(bars, lvns, cfg, k).used[j],
    decreases k,
{
    if k > 0 {
        lemma_real_day_first_touch(bars, lvns, cfg, k - 1);
        let st = real_day_upto(bars, lvns, cfg, k - 1);
        let next = real_day_upto(bars, lvns, cfg, k);
        if next.used.len() > st.used.len() {
            let b = lvn_bucket(lvns[k - 1].price);
            assert(next.used == st.used.push(b));
            assert(!st.used.contains(b));
            assert forall|i: int, j: int| 0 <= i < j < next.used.len() implies next.used[i] != next.used[j] by {
                if j == next.used.len() - 1 {
                    assert(next.used[i] == st.used[i]);
                    assert(next.used[j] == b);
                } else {
                    assert(next.used[i] == st.used[i] && next.used[j] == st.used[j]);
                }
            }
        }
    }
}

/// Whether an impulse turned the market (see `is_state_transition_impulse`), given the
/// market state of each bar: the state before it is the bar before its start, or balanced
/// where fewer than `lookback` bars precede it; the state after it is its last bar's.
pub open spec fn state_transition(states: Seq<MarketReading>, imp: ValidImpulse, lookback: int) -> bool {
    let balanced_before = if imp.start_idx >= lookback { states[imp.start_idx - 1].balanced } else { true };
    let imbalanced_after = !states[imp.end_idx as int].balanced;
    (balanced_before && imbalanced_after) || (imbalanced_after && (imp.impulse_delta > 100 || imp.impulse_delta < -100))
}

/// The impulses that turned the market.
pub open spec fn turned(states: Seq<MarketReading>, lookback: int) -> spec_fn(ValidImpulse) -> bool {
    |imp: ValidImpulse| state_transition(states, imp, lookback)
}

/// Whether a day suits the smart backtest: bounded prices and deltas, impulse windows
/// whose volume fits, and a market state for each bar.
pub open spec fn smart_day_fits(bars: Seq<Bar>, states: Seq<MarketReading>, cfg: SmartLvnConfig) -> bool {
    &&& bars_within(bars)
    &&& deltas_within(bars)
    &&& windows_fit(bars, cfg.max_impulse_bars as int)
    &&& bars.len() < usize::MAX
    &&& states.len() == bars.len()
}

/// The trades, impulses and market-turning impulses of the days before `k` that have
/// bars: each day's impulses (see `detect_from`), those that turned the market, and the
/// trades of those (see `day_upto`).
pub open spec fn smart_run_upto(
    days: Seq<DayData>,
    states: Seq<Vec<MarketReading>>,
    cfg: SmartLvnConfig,
    lookback: int,
    k: int,
) -> (Seq<SmartTrade>, int, int)
    decreases k,
{
    if k <= 0 {
        (Seq::empty(), 0, 0)
    } else {
        let (trades, found, valid) = smart_run_upto(days, states, cfg, lookback, k - 1);
        let bars = days[k - 1].bars_1s@;
        if bars.len() == 0 {
            (trades, found, valid)
        } else {
            let imps = detect_from(bars, 0, cfg);
            let kept = imps.filter(turned(states[k - 1]@, lookback));
            (trades + day_upto(bars, kept, cfg, kept.len() as int).trades, found + imps.len(), valid + kept.len())
        }
    }
}

proof fn lemma_smart_run_monotone(
    days: Seq<DayData>,
    states: Seq<Vec<MarketReading>>,
    cfg: SmartLvnConfig,
    lookback: int,
    j: int,
    k: int,
)
    requires
        0 <= j <= k,
    ensures
        smart_run_upto(days, states, cfg, lookback, j).1 <= smart_run_upto(days, states, cfg, lookback, k).1,
        smart_run_upto(days, states, cfg, lookback, j).2 <= smart_run_upto(days, states, cfg, lookback, k).2,
        smart_run_upto(days, states, cfg, lookback, k).2 <= smart_run_upto(days, states, cfg, lookback, k).1,
    decreases k - j,
{
    lemma_smart_kept_le_found(days, states, cfg, lookback, k);
    if j < k {
        lemma_smart_run_monotone(days, states, cfg, lookback, j, k - 1);
        let bars = days[k - 1].bars_1s@;
        if bars.len() > 0 {
            let imps = detect_from(bars, 0, cfg);
            imps.lemma_filter_len(turned(states[k - 1]@, lookback));
        }
    }
}

/// No more impulses turn the market than are found.
proof fn lemma_smart_kept_le_found(days: Seq<DayData>, states: Seq<Vec<MarketReading>>, cfg: SmartLvnConfig, lookback: int, k: int)
    ensures
        smart_run_upto(days, states, cfg, lookback, k).2 <= smart_run_upto(days, states, cfg, lookback, k).1,
    decreases k,
{
    if k > 0 {
        lemma_smart_kept_le_found(days, states, cfg, lookback, k - 1);
        let bars = days[k - 1].bars_1s@;
        if bars.len() > 0 {
            detect_from(bars, 0, cfg).lemma_filter_len(turned(states[k - 1]@, lookback));
        }
    }
}

/// The smart LVN backtester: the impulses of each day, kept where they turned the market,
/// traded on their LVNs.
pub struct SmartLvnBacktest {
    pub config: SmartLvnConfig,
    /// Bars of history the market state needs before an impulse
    pub lookback_bars: usize,
}

impl SmartLvnBacktest {
    pub fn new(config: SmartLvnConfig, lookback_bars: usize) -> (r: SmartLvnBacktest)
        ensures
            r.config == config,
            r.lookback_bars == lookback_bars,
    {
        SmartLvnBacktest { config, lookback_bars }
    }

    /// The backtest over the days, with `states` the market state of each day's bars: the
    /// trades of the impulses that turned the market (see `smart_run_upto`) and their
    /// results, with the days and the impulses counted (see `compute_results`).
    pub fn run(&self, days: &[DayData], states: &[Vec<MarketReading>]) -> (r: BacktestResult)
        requires
            self.lookback_bars >= 1,
            config_within(self.config),
            states@.len() == days@.len(),
            forall|i: int| 0 <= i < days@.len() ==> smart_day_fits((#[trigger] days@[i]).bars_1s@, states@[i]@, self.config),
            smart_run_upto(days@, states@, self.config, self.lookback_bars as int, days@.len() as int).1 <= usize::MAX,
        ensures
            r.trades@ == smart_run_upto(days@, states@, self.config, self.lookback_bars as int, days@.len() as int).0,
            r.total_impulses == smart_run_upto(days@, states@, self.config, self.lookback_bars as int, days@.len() as int).1,
            r.valid_impulses == smart_run_upto(days@, states@, self.config, self.lookback_bars as int, days@.len() as int).2,
            r.total_days == days@.len(),
            r.total_trades == r.trades@.len(),
            (r.wins as int, r.losses as int, r.net_pnl as int, r.gross_profit as int, r.gross_loss as int) == smart_totals(r.trades@),
    {
        let cfg = &self.config;
        let lookback = self.lookback_bars;
        let mut all: Vec<SmartTrade> = Vec::new();
        let mut total_impulses: usize = 0;
        let mut total_valid: usize = 0;
        let mut k: usize = 0;
        while k < days.len()
            invariant
                k <= days@.len(),
                *cfg == self.config,
                lookback == self.lookback_bars,
                lookback >= 1,
                config_within(*cfg),
                states@.len() == days@.len(),
                forall|i: int| 0 <= i < days@.len() ==> smart_day_fits((#[trigger] days@[i]).bars_1s@, states@[i]@, *cfg),
                smart_run_upto(days@, states@, *cfg, lookback as int, days@.len() as int).1 <= usize::MAX,
                all@ == smart_run_upto(days@, states@, *cfg, lookback as int, k as int).0,
                total_impulses == smart_run_upto(days@, states@, *cfg, lookback as int, k as int).1,
                total_valid == smart_run_upto(days@, states@, *cfg, lookback as int, k as int).2,
            decreases days@.len() - k,
        {
            let day = &days[k];
            let day_states = &states[k];
            proof {
                assert(smart_day_fits(days@[k as int].bars_1s@, states@[k as int]@, *cfg));
                lemma_smart_run_monotone(days@, states@, *cfg, lookback as int, k + 1, days@.len() as int);
                lemma_smart_run_monotone(days@, states@, *cfg, lookback as int, 0, k + 1);
            }
            if day.bars_1s.len() > 0 {
                let impulses = detect_valid_impulses(&day.bars_1s, cfg);
                let ghost pred = turned(day_states@, lookback as int);
                let mut kept: Vec<ValidImpulse> = Vec::new();
                let mut j: usize = 0;
                while j < impulses.len()
                    invariant
                        j <= impulses@.len(),
                        lookback >= 1,
                        day_states@.len() == day.bars_1s@.len(),
                        day.bars_1s@.len() < usize::MAX,
                        pred == turned(day_states@, lookback as int),
                        forall|i: int| 0 <= i < impulses@.len() ==> (#[trigger] impulses@[i]).start_idx <= impulses@[i].end_idx
                            < day.bars_1s@.len() && lvn_within(impulses@[i].lvn_price as int),
                        kept@ == impulses@.take(j as int).filter(pred),
                        forall|i: int| 0 <= i < kept@.len() ==> (#[trigger] kept@[i]).end_idx < day.bars_1s@.len() && lvn_within(
                            kept@[i].lvn_price as int,
                        ),
                    decreases impulses@.len() - j,
                {
                    let imp = impulses[j];
                    proof {
                        assert(imp == impulses@[j as int]);
                        assert(impulses@.take(j + 1) =~= impulses@.take(j as int).push(imp));
                        impulses@.take(j as int).lemma_filter_push(imp, pred);
                    }
                    let balanced_before = if imp.start_idx >= lookback { day_states[imp.start_idx - 1].balanced } else { true };
                    let imbalanced_after = !day_states[imp.end_idx].balanced;
                    if is_state_transition_impulse(balanced_before, imbalanced_after, &imp) {
                        let ghost before = kept@;
                        kept.push(imp);
                        proof {
                            assert forall|i: int| 0 <= i < kept@.len() implies (#[trigger] kept@[i]).end_idx < day.bars_1s@.len()
                                && lvn_within(kept@[i].lvn_price as int) by {
                                if i < before.len() {
                                    assert(kept@[i] == before[i]);
                                }
                            }
                        }
                    }
                    j += 1;
                }
                proof {
                    assert(impulses@.take(j as int) =~= impulses@);
                    impulses@.lemma_filter_len(pred);
                }
                let mut day_trades = trade_day(&day.bars_1s, &kept, cfg);
                all.append(&mut day_trades);
                total_impulses = total_impulses + impulses.len();
                total_valid = total_valid + kept.len();
            }
            k += 1;
        }
        compute_results(all, total_impulses, total_valid, days.len())
    }
}

/// A smart LVN trade takes its profit only at the take-profit distance on the winning
/// side of the entry (above for an up impulse, below for a down one), and only when a
/// take-profit distance is set.
pub proof fn lemma_exit_from_take_profit(
    bars: Seq<Bar>,
    i: int,
    entry: int,
    direction: ImpulseDir,
    best: int,
    stop: int,
    cfg: SmartLvnConfig,
)
    ensures
        exit_from(bars, i, entry, direction, best, stop, cfg).2 == ExitReason::TakeProfit ==> cfg.take_profit > 0 && exit_from(
            bars,
            i,
            entry,
            direction,
            best,
            stop,
            cfg,
        ).0 == (if direction == ImpulseDir::Up { entry + cfg.take_profit } else { entry - cfg.take_profit }),
    decreases bars.len() - i,
{
    if 0 <= i < bars.len() {
        let bar = bars[i];
        if !at_session_end(bar) {
            match direction {
                ImpulseDir::Up => {
                    let (b, s) = if bar.high > best { (bar.high as int, bar.high - cfg.trailing_stop) } else { (best, stop) };
                    lemma_exit_from_take_profit(bars, i + 1, entry, direction, b, s, cfg);
                },
                ImpulseDir::Down => {
                    let (b, s) = if bar.low < best { (bar.low as int, bar.low + cfg.trailing_stop) } else { (best, stop) };
                    lemma_exit_from_take_profit(bars, i + 1, entry, direction, b, s, cfg);
                },
            }
        }
    }
}

/// A down impulse is an up one upside down: a bar confirms a down retest exactly when the
/// same bar with its delta negated confirms an up one, with the delta on the impulse's
/// side by at least the minimum; the fallback LVN lies the same distance from the
/// impulse's start on the side of the move (below the start for a down impulse).
pub proof fn lemma_smart_sides(bar: Bar, min_delta: i64, start: int, move_size: int)
    requires
        bar.delta > i64::MIN,
    ensures
        delta_confirms(bar, ImpulseDir::Down, min_delta) == delta_confirms(
            Bar { delta: (-bar.delta) as i64, ..bar },
            ImpulseDir::Up,
            min_delta,
        ),
        delta_confirms(bar, ImpulseDir::Up, min_delta) <==> bar.delta >= min_delta,
        retracement(start, move_size, false) == -retracement(-start, move_size, true),
        retracement(start, move_size, true) - start == start - retracement(start, move_size, false),
        move_size >= 0 ==> retracement(start, move_size, true) >= start && retracement(start, move_size, false) <= start,
{
    if move_size >= 0 {
        assert(move_size * 382 >= 0) by (nonlinear_arith)
            requires move_size >= 0;
    }
}

} // verus!
