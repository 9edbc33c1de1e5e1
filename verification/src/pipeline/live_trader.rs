//! The live trader's per-bar decisions: enter on the bar after a signal, trail the stop,
//! exit at the stop, the target or after the maximum hold, and stop for the day at the
//! loss limits.

use vstd::prelude::*;

use crate::clock::{new_york_clock, new_york_time, now_millis};
use crate::pipeline::bars::Bar;
use crate::pipeline::lvn::LvnLevel;
use crate::pipeline::lvn_retest::{Direction, GeneratorModel, LvnRetestConfig, LvnSignal, LvnSignalGenerator};
use crate::units::{fits_i32, fits_i64, Price};

verus! {

/// Configuration of live trading. Distances in price units, balances in cents, the
/// point value in dollars, the LVN ratio limit in hundredths of a percent.
#[derive(Debug, Clone)]
pub struct LiveConfig {
    pub symbol: String,
    pub exchange: String,
    /// Contracts per trade
    pub contracts: i32,
    /// Directory of the cached LVN levels
    pub cache_dir: String,
    pub take_profit: Price,
    pub trailing_stop: Price,
    /// Stop distance beyond the LVN level
    pub stop_buffer: Price,
    /// Trading window (local time)
    pub start_hour: u32,
    pub start_minute: u32,
    pub end_hour: u32,
    pub end_minute: u32,
    pub min_delta: i64,
    pub max_lvn_ratio_bp: u64,
    pub level_tolerance: Price,
    pub starting_balance: i64,
    /// Losing trades after which trading stops for the day (0: no limit)
    pub max_daily_losses: i32,
    /// Daily loss limit
    pub daily_loss_limit: Price,
    pub point_value: i64,
}

impl LiveConfig {
    /// The strategy configuration of these settings.
    pub open spec fn lvn_config(self) -> LvnRetestConfig {
        LvnRetestConfig {
            level_tolerance: self.level_tolerance,
            retest_distance: 800,
            min_delta_for_absorption: self.min_delta,
            max_range_for_absorption: 150,
            stop_loss: self.stop_buffer,
            take_profit: self.take_profit,
            trailing_stop: self.trailing_stop,
            max_hold_bars: 300,
            rth_only: true,
            cooldown_bars: 60,
            level_cooldown_bars: 600,
            max_lvn_volume_ratio_bp: self.max_lvn_ratio_bp,
            same_day_only: false,
            min_absorption_bars: 1,
            structure_stop_buffer: self.stop_buffer,
            trade_start_hour: self.start_hour,
            trade_start_minute: self.start_minute,
            trade_end_hour: self.end_hour,
            trade_end_minute: self.end_minute,
        }
    }

    /// The LVN strategy configuration: these settings, with an 8-point retest distance,
    /// a 1.5-point range limit, 300 bars of hold, one minute between trades and ten
    /// minutes per level.
    pub fn to_lvn_config(&self) -> (c: LvnRetestConfig)
        ensures
            c == self.lvn_config(),
    {
        LvnRetestConfig {
            level_tolerance: self.level_tolerance,
            retest_distance: 800,
            min_delta_for_absorption: self.min_delta,
            max_range_for_absorption: 150,
            stop_loss: self.stop_buffer,
            take_profit: self.take_profit,
            trailing_stop: self.trailing_stop,
            max_hold_bars: 300,
            rth_only: true,
            cooldown_bars: 60,
            level_cooldown_bars: 600,
            max_lvn_volume_ratio_bp: self.max_lvn_ratio_bp,
            same_day_only: false,
            min_absorption_bars: 1,
            structure_stop_buffer: self.stop_buffer,
            trade_start_hour: self.start_hour,
            trade_start_minute: self.start_minute,
            trade_end_hour: self.end_hour,
            trade_end_minute: self.end_minute,
        }
    }
}

/// Why a position was closed.
#[derive(Debug, Clone, Copy, PartialEq, Eq, Structural)]
pub enum ExitCause {
    Stop,
    Target,
    Timeout,
}

impl ExitCause {
    /// `STOP`, `TARGET` or `TIMEOUT`.
    pub fn label(&self) -> (r: &'static str)
        ensures
            *self == ExitCause::Stop ==> r@ == "STOP"@,
            *self == ExitCause::Target ==> r@ == "TARGET"@,
            *self == ExitCause::Timeout ==> r@ == "TIMEOUT"@,
    {
        match self {
            ExitCause::Stop => "STOP",
            ExitCause::Target => "TARGET",
            ExitCause::Timeout => "TIMEOUT",
        }
    }
}

/// What the trading loop should do after a bar.
#[derive(Debug, Clone, Copy, PartialEq, Eq, Structural)]
pub enum TradeAction {
    /// Enter a position
    Enter { direction: Direction, price: Price, stop: Price, target: Price, contracts: i32 },
    /// Exit the position
    Exit { direction: Direction, price: Price, pnl_points: i64, cause: ExitCause },
    /// Move the stop
    UpdateStop { new_stop: Price },
    /// A signal waits for the next bar
    SignalPending,
    /// Flatten everything: the daily loss limit was reached
    FlattenAll,
}

/// An open position.
#[derive(Debug, Clone, Copy, PartialEq, Eq, Structural)]
pub struct OpenPosition {
    pub direction: Direction,
    pub entry_price: Price,
    /// Milliseconds since the Unix epoch
    pub entry_time: i64,
    pub level_price: Price,
    pub initial_stop: Price,
    pub take_profit: Price,
    pub trailing_stop: Price,
    pub highest_price: Price,
    pub lowest_price: Price,
    pub bar_count: usize,
}

/// What a live trader holds.
pub struct TraderModel {
    pub config: LiveConfig,
    pub lvn_config: LvnRetestConfig,
    pub generator: GeneratorModel,
    pub pending_signal: Option<LvnSignal>,
    pub open_position: Option<OpenPosition>,
    pub daily_losses: i32,
    /// The day's P&L in price units
    pub daily_pnl: i64,
    pub total_trades: i32,
    pub wins: i32,
    pub losses: i32,
    /// In cents
    pub running_balance: i64,
    pub is_trading_hours: bool,
    pub daily_stopped: bool,
    pub bar_count: usize,
}

/// A trade counts as won above half a point, as lost below minus half a point.
pub const WIN_THRESHOLD: Price = 50;

/// The position opened on a bar by a pending signal: at the bar's open, the stop beyond
/// the signal's level, the target the take-profit distance from the entry.
pub open spec fn opened_position(signal: LvnSignal, cfg: LvnRetestConfig, open: Price, ts: i64) -> OpenPosition {
    let stop = match signal.direction {
        Direction::Long => signal.level_price - cfg.structure_stop_buffer,
        Direction::Short => signal.level_price + cfg.structure_stop_buffer,
    };
    let target = match signal.direction {
        Direction::Long => open + cfg.take_profit,
        Direction::Short => open - cfg.take_profit,
    };
    OpenPosition {
        direction: signal.direction,
        entry_price: open,
        entry_time: ts,
        level_price: signal.level_price,
        initial_stop: stop as i64,
        take_profit: target as i64,
        trailing_stop: stop as i64,
        highest_price: open,
        lowest_price: open,
        bar_count: 0,
    }
}

/// The position after a bar: one more bar held, the extremes widened, and the trailing
/// stop moved behind the extreme once price went the trailing distance in profit, when
/// that tightens it.
pub open spec fn position_after(p: OpenPosition, cfg: LvnRetestConfig, high: Price, low: Price) -> OpenPosition {
    let hi = if high > p.highest_price { high } else { p.highest_price };
    let lo = if low < p.lowest_price { low } else { p.lowest_price };
    let trail = match p.direction {
        Direction::Long => if hi >= p.entry_price + cfg.trailing_stop && hi - cfg.trailing_stop > p.trailing_stop {
            (hi - cfg.trailing_stop) as i64
        } else {
            p.trailing_stop
        },
        Direction::Short => if lo <= p.entry_price - cfg.trailing_stop && lo + cfg.trailing_stop < p.trailing_stop {
            (lo + cfg.trailing_stop) as i64
        } else {
            p.trailing_stop
        },
    };
    OpenPosition { bar_count: (p.bar_count + 1) as usize, highest_price: hi, lowest_price: lo, trailing_stop: trail, ..p }
}

/// Whether and how the moved position exits on the bar: at the stop if the bar reached
/// it, else at the target, else at the close after the maximum hold.
pub open spec fn exit_of(p: OpenPosition, cfg: LvnRetestConfig, high: Price, low: Price, close: Price) -> Option<(Price, ExitCause)> {
    let stop_hit = match p.direction {
        Direction::Long => low <= p.trailing_stop,
        Direction::Short => high >= p.trailing_stop,
    };
    let target_hit = match p.direction {
        Direction::Long => high >= p.take_profit,
        Direction::Short => low <= p.take_profit,
    };
    if stop_hit {
        Some((p.trailing_stop, ExitCause::Stop))
    } else if target_hit {
        Some((p.take_profit, ExitCause::Target))
    } else if p.bar_count >= cfg.max_hold_bars {
        Some((close, ExitCause::Timeout))
    } else {
        None
    }
}

/// P&L of a position closed at `price`, in price units of one contract.
pub open spec fn exit_pnl(p: OpenPosition, price: Price) -> int {
    match p.direction {
        Direction::Long => price - p.entry_price,
        Direction::Short => p.entry_price - price,
    }
}

impl TraderModel {
    /// Whether New York time `hour:minute` lies in the trading window.
    pub open spec fn window_contains(self, hour: u32, minute: u32) -> bool {
        self.lvn_config.trade_start_hour * 60 + self.lvn_config.trade_start_minute <= hour * 60 + minute
            < self.lvn_config.trade_end_hour * 60 + self.lvn_config.trade_end_minute
    }

    /// The trader after booking a trade closed with `pnl`.
    pub open spec fn booked(self, pnl: int) -> TraderModel {
        let won = pnl > WIN_THRESHOLD;
        let lost = pnl < -WIN_THRESHOLD;
        let losses_today = if lost { self.daily_losses + 1 } else { self.daily_losses as int };
        TraderModel {
            daily_pnl: (self.daily_pnl + pnl) as i64,
            running_balance: (self.running_balance + pnl * self.config.point_value * self.config.contracts) as i64,
            total_trades: (self.total_trades + 1) as i32,
            wins: if won { (self.wins + 1) as i32 } else { self.wins },
            losses: if lost { (self.losses + 1) as i32 } else { self.losses },
            daily_losses: losses_today as i32,
            daily_stopped: self.daily_stopped || (lost && self.config.max_daily_losses > 0 && losses_today
                >= self.config.max_daily_losses),
            open_position: None,
            ..self
        }
    }

    /// Whether the New York time of day at `ts_millis` lies in the trading window; a
    /// timestamp that chrono cannot represent counts as outside it.
    pub open spec fn clock_in_window(self, ts_millis: i64) -> bool {
        match new_york_clock(ts_millis) {
            Some(hm) => self.window_contains(hm.0, hm.1),
            None => false,
        }
    }

    /// The trader after a bar, at New York time `hour:minute` (see `after_bar_in`).
    pub open spec fn after_bar(self, timestamp: i64, open: Price, high: Price, low: Price, close: Price, delta: i64, hour: u32, minute: u32, imbalanced: bool) -> (TraderModel, Option<TradeAction>) {
        self.after_bar_in(timestamp, open, high, low, close, delta, self.window_contains(hour, minute), imbalanced)
    }

    /// The trader after a bar, in the trading window or not, and the action it takes.
    /// Nothing happens once stopped for the day. At or below the daily loss limit the
    /// trader stops and flattens. A pending signal is entered at the bar's open, when in
    /// the trading window. An open position trails its stop and may exit. Otherwise,
    /// flat and in the window, the bar goes to the signal generator, whose signal waits
    /// for the next bar.
    pub open spec fn after_bar_in(self, timestamp: i64, open: Price, high: Price, low: Price, close: Price, delta: i64, in_window: bool, imbalanced: bool) -> (TraderModel, Option<TradeAction>) {
        let s = TraderModel {
            bar_count: (self.bar_count + 1) as usize,
            is_trading_hours: in_window,
            ..self
        };
        if s.daily_stopped {
            (s, None)
        } else if s.daily_pnl <= -s.config.daily_loss_limit {
            (TraderModel { daily_stopped: true, ..s }, Some(TradeAction::FlattenAll))
        } else if s.pending_signal is Some {
            s.entry_step(timestamp, open)
        } else if s.open_position is Some {
            s.position_step(high, low, close)
        } else if s.is_trading_hours {
            let (g, sig) = s.generator.after_bar(timestamp, close, high, low, delta, imbalanced);
            match sig {
                Some(x) => (TraderModel { generator: g, pending_signal: Some(x), ..s }, Some(TradeAction::SignalPending)),
                None => (TraderModel { generator: g, ..s }, None),
            }
        } else {
            (s, None)
        }
    }

    /// A pending signal on a bar: it is consumed, and entered at the bar's open when in
    /// the trading window.
    pub open spec fn entry_step(self, timestamp: i64, open: Price) -> (TraderModel, Option<TradeAction>) {
        let signal = self.pending_signal.unwrap();
        let s2 = TraderModel { pending_signal: None, ..self };
        if !s2.is_trading_hours {
            (s2, None)
        } else {
            let pos = opened_position(signal, self.lvn_config, open, timestamp);
            (
                TraderModel { open_position: Some(pos), ..s2 },
                Some(
                    TradeAction::Enter {
                        direction: signal.direction,
                        price: open,
                        stop: pos.initial_stop,
                        target: pos.take_profit,
                        contracts: self.config.contracts,
                    },
                ),
            )
        }
    }

    /// An open position on a bar: it moves, then exits and is booked, or reports its stop.
    pub open spec fn position_step(self, high: Price, low: Price, close: Price) -> (TraderModel, Option<TradeAction>) {
        let p = position_after(self.open_position.unwrap(), self.lvn_config, high, low);
        match exit_of(p, self.lvn_config, high, low, close) {
            Some(e) => {
                let pnl = exit_pnl(p, e.0);
                (
                    self.booked(pnl),
                    Some(TradeAction::Exit { direction: p.direction, price: e.0, pnl_points: pnl as i64, cause: e.1 }),
                )
            },
            None => (TraderModel { open_position: Some(p), ..self }, Some(TradeAction::UpdateStop { new_stop: p.trailing_stop })),
        }
    }

    /// Whether a bar can be processed with every quantity within its integer type.
    pub open spec fn bar_fits(self, open: Price, high: Price, low: Price, close: Price) -> bool {
        &&& self.bar_count < usize::MAX
        &&& self.generator.bar_count < usize::MAX
        &&& self.values_fit(open, high, low, close)
    }

    /// Whether the prices and tallies of a bar stay within their integer types.
    pub open spec fn values_fit(self, open: Price, high: Price, low: Price, close: Price) -> bool {
        let cfg = self.lvn_config;
        &&& (self.pending_signal matches Some(sig) ==> {
            &&& fits_i64(sig.level_price - cfg.structure_stop_buffer)
            &&& fits_i64(sig.level_price + cfg.structure_stop_buffer)
            &&& fits_i64(open + cfg.take_profit)
            &&& fits_i64(open - cfg.take_profit)
        })
        &&& (self.open_position matches Some(p) ==> {
            let q = position_after(p, cfg, high, low);
            &&& p.bar_count < usize::MAX
            &&& fits_i64(q.highest_price - cfg.trailing_stop)
            &&& fits_i64(q.lowest_price + cfg.trailing_stop)
            &&& (exit_of(q, cfg, high, low, close) matches Some(e) ==> {
                let pnl = exit_pnl(q, e.0);
                &&& fits_i64(pnl)
                &&& fits_i64(pnl * self.config.point_value)
                &&& fits_i64(pnl * self.config.point_value * self.config.contracts)
                &&& fits_i64(self.daily_pnl + pnl)
                &&& fits_i64(self.running_balance + pnl * self.config.point_value * self.config.contracts)
                &&& fits_i32(self.total_trades + 1)
                &&& fits_i32(self.wins + 1)
                &&& fits_i32(self.losses + 1)
                &&& fits_i32(self.daily_losses + 1)
            })
        })
    }
}

/// The live trader.
pub struct LiveTrader {
    config: LiveConfig,
    lvn_config: LvnRetestConfig,
    signal_gen: LvnSignalGenerator,
    pending_signal: Option<LvnSignal>,
    open_position: Option<OpenPosition>,
    daily_losses: i32,
    daily_pnl: i64,
    total_trades: i32,
    wins: i32,
    losses: i32,
    running_balance: i64,
    is_trading_hours: bool,
    daily_stopped: bool,
    bar_count: usize,
}

impl View for LiveTrader {
    type V = TraderModel;

    closed spec fn view(&self) -> TraderModel {
        TraderModel {
            config: self.config,
            lvn_config: self.lvn_config,
            generator: self.signal_gen@,
            pending_signal: self.pending_signal,
            open_position: self.open_position,
            daily_losses: self.daily_losses,
            daily_pnl: self.daily_pnl,
            total_trades: self.total_trades,
            wins: self.wins,
            losses: self.losses,
            running_balance: self.running_balance,
            is_trading_hours: self.is_trading_hours,
            daily_stopped: self.daily_stopped,
            bar_count: self.bar_count,
        }
    }
}

impl LiveTrader {
    /// Whether the signal generator is well formed, the trader's LVN settings are those
    /// of its configuration, and no signal waits while a position is open.
    pub closed spec fn wf(&self) -> bool {
        &&& self.signal_gen.wf()
        &&& self.lvn_config == self.config.lvn_config()
        &&& !(self.pending_signal is Some && self.open_position is Some)
    }

    /// The trader's LVN settings are those of its configuration, and no signal waits
    /// while a position is open.
    pub proof fn lemma_wf(&self)
        requires
            self.wf(),
        ensures
            self@.lvn_config == self@.config.lvn_config(),
            !(self@.pending_signal is Some && self@.open_position is Some),
    {
    }

    /// A flat trader with no levels, at the starting balance.
    pub fn new(config: LiveConfig) -> (t: LiveTrader)
        ensures
            t.wf(),
            t@.config == config,
            t@.lvn_config == config.lvn_config(),
            t@.generator == (GeneratorModel {
                config: config.lvn_config(),
                levels: Seq::empty(),
                bar_count: 0,
                last_trade_bar: None,
                last_close: None,
            }),
            t@.pending_signal is None,
            t@.open_position is None,
            t@.daily_losses == 0,
            t@.daily_pnl == 0,
            t@.total_trades == 0,
            t@.wins == 0,
            t@.losses == 0,
            t@.running_balance == config.starting_balance,
            !t@.is_trading_hours,
            !t@.daily_stopped,
            t@.bar_count == 0,
    {
        let lvn_config = config.to_lvn_config();
        let signal_gen = LvnSignalGenerator::new(lvn_config);
        let running_balance = config.starting_balance;
        LiveTrader {
            config,
            lvn_config,
            signal_gen,
            pending_signal: None,
            open_position: None,
            daily_losses: 0,
            daily_pnl: 0,
            total_trades: 0,
            wins: 0,
            losses: 0,
            running_balance,
            is_trading_hours: false,
            daily_stopped: false,
            bar_count: 0,
        }
    }

    /// Track a day's cached LVN levels; returns how many levels the day had.
    pub fn add_day_levels(&mut self, levels: &[LvnLevel]) -> (r: usize)
        requires
            old(self).wf(),
            forall|i: int| 0 <= i < levels@.len() ==> (#[trigger] levels@[i]).volume * levels@[i].profile_buckets * 10_000 <= u128::MAX,
        ensures
            final(self).wf(),
            r == levels@.len(),
            crate::pipeline::keyed::key_map(final(self)@.generator.levels) == crate::pipeline::lvn_retest::levels_added(
                crate::pipeline::keyed::key_map(old(self)@.generator.levels),
                levels@,
                old(self)@.generator.config.max_lvn_volume_ratio_bp,
                None,
            ),
            final(self)@ == (TraderModel { generator: final(self)@.generator, ..old(self)@ }),
            final(self)@.generator == (GeneratorModel { levels: final(self)@.generator.levels, ..old(self)@.generator }),
    {
        self.signal_gen.add_lvn_levels(levels);
        levels.len()
    }

    fn enter_pending(&mut self, bar: &Bar) -> (r: Option<TradeAction>)
        requires
            old(self).wf(),
            old(self)@.pending_signal is Some,
            old(self)@.values_fit(bar.open, bar.high, bar.low, bar.close),
        ensures
            final(self).wf(),
            (final(self)@, r) == old(self)@.entry_step(bar.timestamp, bar.open),
    {
        let signal = match self.pending_signal {
            Some(s) => s,
            None => return None,
        };
        self.pending_signal = None;
        if !self.is_trading_hours {
            return None;
        }
        let entry_price = bar.open;
        let (initial_stop, take_profit) = match signal.direction {
            Direction::Long => (
                signal.level_price - self.lvn_config.structure_stop_buffer,
                entry_price + self.lvn_config.take_profit,
            ),
            Direction::Short => (
                signal.level_price + self.lvn_config.structure_stop_buffer,
                entry_price - self.lvn_config.take_profit,
            ),
        };
        self.open_position = Some(OpenPosition {
            direction: signal.direction,
            entry_price,
            entry_time: bar.timestamp,
            level_price: signal.level_price,
            initial_stop,
            take_profit,
            trailing_stop: initial_stop,
            highest_price: entry_price,
            lowest_price: entry_price,
            bar_count: 0,
        });
        return Some(TradeAction::Enter {
            direction: signal.direction,
            price: entry_price,
            stop: initial_stop,
            target: take_profit,
            contracts: self.config.contracts,
        });
    }

    fn manage_position(&mut self, bar: &Bar) -> (r: TradeAction)
        requires
            old(self).wf(),
            old(self)@.open_position is Some,
            old(self)@.values_fit(bar.open, bar.high, bar.low, bar.close),
        ensures
            final(self).wf(),
            (final(self)@, Some(r)) == old(self)@.position_step(bar.high, bar.low, bar.close),
    {
        let p = match self.open_position {
            Some(p) => p,
            None => {
                proof {
                    assert(false);
                }
                return TradeAction::SignalPending;
            },
        };
        let mut pos = p;
        pos.bar_count = pos.bar_count + 1;
        if bar.high > pos.highest_price {
            pos.highest_price = bar.high;
        }
        if bar.low < pos.lowest_price {
            pos.lowest_price = bar.low;
        }
        let trail = self.lvn_config.trailing_stop;
        match pos.direction {
            Direction::Long => {
                if pos.highest_price as i128 >= pos.entry_price as i128 + trail as i128 {
                    let new_trail = pos.highest_price - trail;
                    if new_trail > pos.trailing_stop {
                        pos.trailing_stop = new_trail;
                    }
                }
            },
            Direction::Short => {
                if pos.lowest_price as i128 <= pos.entry_price as i128 - trail as i128 {
                    let new_trail = pos.lowest_price + trail;
                    if new_trail < pos.trailing_stop {
                        pos.trailing_stop = new_trail;
                    }
                }
            },
        }
        let mut exit: Option<(Price, ExitCause)> = None;
        match pos.direction {
            Direction::Long => {
                if bar.low <= pos.trailing_stop {
                    exit = Some((pos.trailing_stop, ExitCause::Stop));
                } else if bar.high >= pos.take_profit {
                    exit = Some((pos.take_profit, ExitCause::Target));
                }
            },
            Direction::Short => {
                if bar.high >= pos.trailing_stop {
                    exit = Some((pos.trailing_stop, ExitCause::Stop));
                } else if bar.low <= pos.take_profit {
                    exit = Some((pos.take_profit, ExitCause::Target));
                }
            },
        }
        if exit.is_none() && pos.bar_count >= self.lvn_config.max_hold_bars {
            exit = Some((bar.close, ExitCause::Timeout));
        }
        match exit {
            Some((exit_price, cause)) => {
                let pnl: i64 = match pos.direction {
                    Direction::Long => exit_price - pos.entry_price,
                    Direction::Short => pos.entry_price - exit_price,
                };
                let pnl_dollars: i64 = pnl * self.config.point_value * self.config.contracts as i64;
                self.daily_pnl = self.daily_pnl + pnl;
                self.running_balance = self.running_balance + pnl_dollars;
                self.total_trades = self.total_trades + 1;
                if pnl > WIN_THRESHOLD {
                    self.wins = self.wins + 1;
                } else if pnl < -WIN_THRESHOLD {
                    self.losses = self.losses + 1;
                    self.daily_losses = self.daily_losses + 1;
                    if self.config.max_daily_losses > 0 && self.daily_losses >= self.config.max_daily_losses {
                        self.daily_stopped = true;
                    }
                }
                self.open_position = None;
                return TradeAction::Exit { direction: pos.direction, price: exit_price, pnl_points: pnl, cause };
            },
            None => {
                self.open_position = Some(pos);
                return TradeAction::UpdateStop { new_stop: pos.trailing_stop };
            },
        }
    }

    /// Process a completed bar at New York time `hour:minute`, with the bar's market state
    /// given by the caller (see `TraderModel::after_bar`).
    pub fn process_bar_at(&mut self, bar: &Bar, hour: u32, minute: u32, market_imbalanced: bool) -> (r: Option<TradeAction>)
        requires
            old(self).wf(),
            old(self)@.bar_fits(bar.open, bar.high, bar.low, bar.close),
        ensures
            final(self).wf(),
            (final(self)@, r) == old(self)@.after_bar(
                bar.timestamp,
                bar.open,
                bar.high,
                bar.low,
                bar.close,
                bar.delta,
                hour,
                minute,
                market_imbalanced,
            ),
    {
        let in_window = self.window_contains(hour, minute);
        self.process_bar_in(bar, in_window, market_imbalanced)
    }

    /// Whether `hour:minute` lies in the trading window.
    fn window_contains(&self, hour: u32, minute: u32) -> (r: bool)
        ensures
            r == self@.window_contains(hour, minute),
    {
        let now = hour as u64 * 60 + minute as u64;
        let start = self.lvn_config.trade_start_hour as u64 * 60 + self.lvn_config.trade_start_minute as u64;
        let end = self.lvn_config.trade_end_hour as u64 * 60 + self.lvn_config.trade_end_minute as u64;
        now >= start && now < end
    }

    /// Process a completed bar, in the trading window or not (see `TraderModel::after_bar_in`).
    fn process_bar_in(&mut self, bar: &Bar, in_window: bool, market_imbalanced: bool) -> (r: Option<TradeAction>)
        requires
            old(self).wf(),
            old(self)@.bar_fits(bar.open, bar.high, bar.low, bar.close),
        ensures
            final(self).wf(),
            (final(self)@, r) == old(self)@.after_bar_in(
                bar.timestamp,
                bar.open,
                bar.high,
                bar.low,
                bar.close,
                bar.delta,
                in_window,
                market_imbalanced,
            ),
    {
        self.bar_count = self.bar_count + 1;
        self.is_trading_hours = in_window;

        if self.daily_stopped {
            return None;
        }
        if self.daily_pnl as i128 <= -(self.config.daily_loss_limit as i128) {
            self.daily_stopped = true;
            return Some(TradeAction::FlattenAll);
        }

        if self.pending_signal.is_some() {
            return self.enter_pending(bar);
        }
        if self.open_position.is_some() {
            return Some(self.manage_position(bar));
        }

        if self.is_trading_hours {
            match self.signal_gen.process_bar(bar, market_imbalanced) {
                Some(signal) => {
                    self.pending_signal = Some(signal);
                    return Some(TradeAction::SignalPending);
                },
                None => {},
            }
        }
        None
    }

    /// Process a completed bar at the New York time of day now, by the system clock (see
    /// `TraderModel::clock_in_window`).
    pub fn process_bar(&mut self, bar: &Bar, market_imbalanced: bool) -> (r: Option<TradeAction>)
        requires
            old(self).wf(),
            old(self)@.bar_fits(bar.open, bar.high, bar.low, bar.close),
        ensures
            final(self).wf(),
            exists|t: i64|
                (final(self)@, r) == old(self)@.after_bar_in(
                    bar.timestamp,
                    bar.open,
                    bar.high,
                    bar.low,
                    bar.close,
                    bar.delta,
                    old(self)@.clock_in_window(t),
                    market_imbalanced,
                ),
    {
        let now = now_millis();
        let in_window = match new_york_time(now) {
            Some((hour, minute)) => self.window_contains(hour, minute),
            None => false,
        };
        assert(in_window == self@.clock_in_window(now));
        let r = self.process_bar_in(bar, in_window, market_imbalanced);
        assert((self@, r) == old(self)@.after_bar_in(
            bar.timestamp,
            bar.open,
            bar.high,
            bar.low,
            bar.close,
            bar.delta,
            old(self)@.clock_in_window(now),
            market_imbalanced,
        ));
        r
    }

    /// Start a new day: no losses, no P&L, trading resumes.
    pub fn reset_daily(&mut self)
        ensures
            final(self).wf() == old(self).wf(),
            final(self)@ == (TraderModel { daily_losses: 0, daily_pnl: 0, daily_stopped: false, ..old(self)@ }),
    {
        self.daily_losses = 0;
        self.daily_pnl = 0;
        self.daily_stopped = false;
    }

    /// Whether there is neither a position nor a pending signal.
    pub fn is_flat(&self) -> (r: bool)
        ensures
            r == (self@.open_position is None && self@.pending_signal is None),
    {
        self.open_position.is_none() && self.pending_signal.is_none()
    }

    /// The running balance in cents.
    pub fn running_balance(&self) -> (r: i64)
        ensures
            r == self@.running_balance,
    {
        self.running_balance
    }

    /// The day's P&L in price units.
    pub fn daily_pnl(&self) -> (r: i64)
        ensures
            r == self@.daily_pnl,
    {
        self.daily_pnl
    }

    /// Trades, wins and losses so far.
    pub fn trade_counts(&self) -> (r: (i32, i32, i32))
        ensures
            r == (self@.total_trades, self@.wins, self@.losses),
    {
        (self.total_trades, self.wins, self.losses)
    }

    /// Whether a position is open.
    pub fn has_open_position(&self) -> (r: bool)
        ensures
            r == self@.open_position is Some,
    {
        self.open_position.is_some()
    }
}

/// Once stopped for the day, a trader takes no action on any bar and stays stopped.
pub proof fn lemma_stopped_trader_is_idle(m: TraderModel, timestamp: i64, open: Price, high: Price, low: Price, close: Price, delta: i64, hour: u32, minute: u32, imbalanced: bool)
    requires
        m.daily_stopped,
    ensures
        m.after_bar(timestamp, open, high, low, close, delta, hour, minute, imbalanced).1 is None,
        m.after_bar(timestamp, open, high, low, close, delta, hour, minute, imbalanced).0.daily_stopped,
{
}

/// The trailing stop of an open position only tightens: a long's stop never falls and a
/// short's never rises.
pub proof fn lemma_live_trail_tightens(p: OpenPosition, cfg: LvnRetestConfig, high: Price, low: Price)
    requires
        fits_i64(position_after(p, cfg, high, low).highest_price - cfg.trailing_stop),
        fits_i64(position_after(p, cfg, high, low).lowest_price + cfg.trailing_stop),
    ensures
        p.direction == Direction::Long ==> position_after(p, cfg, high, low).trailing_stop >= p.trailing_stop,
        p.direction == Direction::Short ==> position_after(p, cfg, high, low).trailing_stop <= p.trailing_stop,
{
}

/// An entry on a signal puts the stop beyond the level on the losing side: below it for
/// a long, above it for a short (with a non-negative buffer).
pub proof fn lemma_entry_stop_beyond_level(signal: LvnSignal, cfg: LvnRetestConfig, open: Price, ts: i64)
    requires
        cfg.structure_stop_buffer >= 0,
        fits_i64(signal.level_price - cfg.structure_stop_buffer),
        fits_i64(signal.level_price + cfg.structure_stop_buffer),
    ensures
        signal.direction == Direction::Long ==> opened_position(signal, cfg, open, ts).initial_stop <= signal.level_price,
        signal.direction == Direction::Short ==> opened_position(signal, cfg, open, ts).initial_stop >= signal.level_price,
{
}

/// A position opens at the bar's open with its target the take-profit distance on the
/// winning side of the entry (above a long's entry, below a short's) and its stop the
/// stop buffer beyond the signal's level (below it for a long, above it for a short), the
/// trailing stop starting at the stop.
pub proof fn lemma_opened_position_sides(signal: LvnSignal, cfg: LvnRetestConfig, open: Price, ts: i64)
    requires
        fits_i64(open + cfg.take_profit),
        fits_i64(open - cfg.take_profit),
        fits_i64(signal.level_price + cfg.structure_stop_buffer),
        fits_i64(signal.level_price - cfg.structure_stop_buffer),
    ensures
        ({
            let p = opened_position(signal, cfg, open, ts);
            &&& p.direction == signal.direction
            &&& p.entry_price == open
            &&& signal.direction == Direction::Long ==> p.take_profit - p.entry_price == cfg.take_profit
                && signal.level_price - p.initial_stop == cfg.structure_stop_buffer
            &&& signal.direction == Direction::Short ==> p.entry_price - p.take_profit == cfg.take_profit
                && p.initial_stop - signal.level_price == cfg.structure_stop_buffer
            &&& cfg.take_profit > 0 ==> (signal.direction == Direction::Long ==> p.take_profit > open)
                && (signal.direction == Direction::Short ==> p.take_profit < open)
            &&& p.trailing_stop == p.initial_stop
        }),
{
}

/// An open position trails and exits on the side it trades: its trailing stop only
/// tightens (rises for a long, falls for a short), moving only once the extreme is the
/// trailing distance in profit; it exits at its stop only when the bar reached the stop
/// (a long's low at or below it, a short's high at or above it), at its target only when
/// the bar reached the target on the winning side and not the stop, and on time only
/// when it reached neither; its P&L is the exit less the entry for a long and the entry
/// less the exit for a short.
pub proof fn lemma_position_sides(p: OpenPosition, cfg: LvnRetestConfig, high: Price, low: Price, close: Price, price: Price)
    requires
        fits_i64(high - cfg.trailing_stop),
        fits_i64(low + cfg.trailing_stop),
        fits_i64(p.highest_price - cfg.trailing_stop),
        fits_i64(p.lowest_price + cfg.trailing_stop),
    ensures
        ({
            let q = position_after(p, cfg, high, low);
            &&& p.direction == Direction::Long ==> q.trailing_stop >= p.trailing_stop
            &&& p.direction == Direction::Short ==> q.trailing_stop <= p.trailing_stop
            &&& p.direction == Direction::Long && q.trailing_stop != p.trailing_stop ==> q.highest_price >= p.entry_price
                + cfg.trailing_stop && q.trailing_stop == q.highest_price - cfg.trailing_stop
            &&& p.direction == Direction::Short && q.trailing_stop != p.trailing_stop ==> q.lowest_price <= p.entry_price
                - cfg.trailing_stop && q.trailing_stop == q.lowest_price + cfg.trailing_stop
        }),
        exit_of(p, cfg, high, low, close) matches Some((x, ExitCause::Stop)) ==> x == p.trailing_stop && (if p.direction
            == Direction::Long { low <= p.trailing_stop } else { high >= p.trailing_stop }),
        exit_of(p, cfg, high, low, close) matches Some((x, ExitCause::Target)) ==> x == p.take_profit && (if p.direction
            == Direction::Long { high >= p.take_profit && low > p.trailing_stop } else { low <= p.take_profit && high
            < p.trailing_stop }),
        exit_of(p, cfg, high, low, close) matches Some((x, ExitCause::Timeout)) ==> x == close && p.bar_count
            >= cfg.max_hold_bars,
        p.direction == Direction::Long ==> exit_pnl(p, price) == price - p.entry_price,
        p.direction == Direction::Short ==> exit_pnl(p, price) == p.entry_price - price,
{
}

/// Booking a trade: the day's P&L moves by the trade's P&L and the balance by the P&L
/// times the point value and contracts; a trade counts as a win only above half a point
/// and as a loss only below minus half a point (never both); the position is gone; and
/// the trader stops for the day only after a loss that reaches the daily limit of losses,
/// or when it had already stopped.
pub proof fn lemma_booked_sides(t: TraderModel, pnl: int)
    requires
        fits_i64(t.daily_pnl + pnl),
        fits_i64(t.running_balance + pnl * t.config.point_value * t.config.contracts),
        fits_i32(t.total_trades + 1),
        fits_i32(t.wins + 1),
        fits_i32(t.losses + 1),
        fits_i32(t.daily_losses + 1),
    ensures
        ({
            let b = t.booked(pnl);
            &&& b.daily_pnl == t.daily_pnl + pnl
            &&& b.running_balance == t.running_balance + pnl * t.config.point_value * t.config.contracts
            &&& b.total_trades == t.total_trades + 1
            &&& b.wins == t.wins + (if pnl > WIN_THRESHOLD { 1int } else { 0 })
            &&& b.losses == t.losses + (if pnl < -WIN_THRESHOLD { 1int } else { 0 })
            &&& b.wins + b.losses <= t.wins + t.losses + 1
            &&& b.open_position is None
            &&& b.daily_stopped ==> t.daily_stopped || (pnl < -WIN_THRESHOLD && b.daily_losses >= t.config.max_daily_losses)
            &&& pnl >= -WIN_THRESHOLD ==> b.daily_losses == t.daily_losses && b.daily_stopped == t.daily_stopped
        }),
{
}

} // verus!
