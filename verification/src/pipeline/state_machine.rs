//! Breakouts of the day's reference levels, which start the strategy's cycle of
//! waiting for a breakout, profiling the impulse, hunting for a retest and resetting.

use vstd::prelude::*;

use crate::clock::new_id;
use crate::pipeline::bars::Bar;
use crate::pipeline::levels::DailyLevels;
use crate::pipeline::lvn::{
    extract_lvns_realtime, lemma_window_buckets_bounded, lemma_window_fits, low_volume_entries,
    lvn_levels_match, trade_prices_bounded, trades_volume, window_profile, ImpulseDirection, LvnLevel,
    LVN_THRESHOLD_PERMILLE,
};
use crate::pipeline::profile::{buckets_sorted, total_volume, volume_map};
use crate::pipeline::trades::Trade;
use crate::units::Price;

verus! {

/// State of the strategy's cycle.
#[derive(Debug, Clone, Copy, PartialEq, Eq, Structural)]
pub enum TradingState {
    /// Waiting for price to break a significant level
    WaitingForBreakout,
    /// Breakout seen, profiling the impulse leg
    ProfilingImpulse,
    /// Impulse complete, hunting for an LVN retest
    Hunting,
    /// Resetting for the next cycle
    Reset,
}

impl TradingState {
    /// The state's display name.
    pub fn label(&self) -> (r: &'static str)
        ensures
            *self == TradingState::WaitingForBreakout ==> r@ == "WAITING"@,
            *self == TradingState::ProfilingImpulse ==> r@ == "PROFILING"@,
            *self == TradingState::Hunting ==> r@ == "HUNTING"@,
            *self == TradingState::Reset ==> r@ == "RESET"@,
    {
        match self {
            TradingState::WaitingForBreakout => "WAITING",
            TradingState::ProfilingImpulse => "PROFILING",
            TradingState::Hunting => "HUNTING",
            TradingState::Reset => "RESET",
        }
    }
}

/// The level that was broken.
#[derive(Debug, Clone, Copy, PartialEq, Eq, Structural)]
pub enum BreakoutLevel {
    /// Prior day high
    PDH,
    /// Prior day low
    PDL,
    /// Overnight high
    ONH,
    /// Overnight low
    ONL,
    /// Value area high
    VAH,
    /// Value area low
    VAL,
}

impl BreakoutLevel {
    /// The level's short name.
    pub fn label(&self) -> (r: &'static str)
        ensures
            *self == BreakoutLevel::PDH ==> r@ == "PDH"@,
            *self == BreakoutLevel::PDL ==> r@ == "PDL"@,
            *self == BreakoutLevel::ONH ==> r@ == "ONH"@,
            *self == BreakoutLevel::ONL ==> r@ == "ONL"@,
            *self == BreakoutLevel::VAH ==> r@ == "VAH"@,
            *self == BreakoutLevel::VAL ==> r@ == "VAL"@,
    {
        match self {
            BreakoutLevel::PDH => "PDH",
            BreakoutLevel::PDL => "PDL",
            BreakoutLevel::ONH => "ONH",
            BreakoutLevel::ONL => "ONL",
            BreakoutLevel::VAH => "VAH",
            BreakoutLevel::VAL => "VAL",
        }
    }
}

/// The day's reference levels for live trading. The date is a UTC day number.
#[derive(Debug, Clone, Copy, PartialEq, Eq, Structural)]
pub struct LiveDailyLevels {
    pub date: i64,
    pub pdh: Price,
    pub pdl: Price,
    pub onh: Price,
    pub onl: Price,
    pub vah: Price,
    pub val: Price,
    pub session_high: Price,
    pub session_low: Price,
}

/// The breakout at `price`, if any, checked in order of significance: above the prior
/// day high or below its low, then above the overnight high or below its low (when
/// these are set, i.e. positive), then above the value area high or below its low; a
/// break is a move beyond the level by more than `threshold`.
pub open spec fn breakout(l: LiveDailyLevels, price: int, threshold: int) -> Option<(BreakoutLevel, ImpulseDirection)> {
    if price > l.pdh + threshold {
        Some((BreakoutLevel::PDH, ImpulseDirection::Up))
    } else if price < l.pdl - threshold {
        Some((BreakoutLevel::PDL, ImpulseDirection::Down))
    } else if l.onh > 0 && price > l.onh + threshold {
        Some((BreakoutLevel::ONH, ImpulseDirection::Up))
    } else if l.onl > 0 && price < l.onl - threshold {
        Some((BreakoutLevel::ONL, ImpulseDirection::Down))
    } else if price > l.vah + threshold {
        Some((BreakoutLevel::VAH, ImpulseDirection::Up))
    } else if price < l.val - threshold {
        Some((BreakoutLevel::VAL, ImpulseDirection::Down))
    } else {
        None
    }
}

impl LiveDailyLevels {
    /// The live levels of a day's levels.
    pub fn from_daily_levels(levels: &DailyLevels) -> (r: LiveDailyLevels)
        ensures
            r == (LiveDailyLevels {
                date: levels.date,
                pdh: levels.pdh,
                pdl: levels.pdl,
                onh: levels.onh,
                onl: levels.onl,
                vah: levels.vah,
                val: levels.val,
                session_high: levels.session_high,
                session_low: levels.session_low,
            }),
    {
        LiveDailyLevels {
            date: levels.date,
            pdh: levels.pdh,
            pdl: levels.pdl,
            onh: levels.onh,
            onl: levels.onl,
            vah: levels.vah,
            val: levels.val,
            session_high: levels.session_high,
            session_low: levels.session_low,
        }
    }

    /// The level broken at `price`, and the direction of the move (see `breakout`).
    pub fn check_breakout(&self, price: Price, threshold: Price) -> (r: Option<(BreakoutLevel, ImpulseDirection)>)
        ensures
            r == breakout(*self, price as int, threshold as int),
    {
        let p = price as i128;
        let t = threshold as i128;
        if p > self.pdh as i128 + t {
            return Some((BreakoutLevel::PDH, ImpulseDirection::Up));
        }
        if p < self.pdl as i128 - t {
            return Some((BreakoutLevel::PDL, ImpulseDirection::Down));
        }
        if self.onh > 0 && p > self.onh as i128 + t {
            return Some((BreakoutLevel::ONH, ImpulseDirection::Up));
        }
        if self.onl > 0 && p < self.onl as i128 - t {
            return Some((BreakoutLevel::ONL, ImpulseDirection::Down));
        }
        if p > self.vah as i128 + t {
            return Some((BreakoutLevel::VAH, ImpulseDirection::Up));
        }
        if p < self.val as i128 - t {
            return Some((BreakoutLevel::VAL, ImpulseDirection::Down));
        }
        None
    }
}

/// A breakout upward is above its level by more than the threshold, a breakout downward
/// below it by more than the threshold; and within the threshold of every level there
/// is no breakout.
pub proof fn lemma_breakout_beyond_level(l: LiveDailyLevels, price: int, threshold: int)
    ensures
        breakout(l, price, threshold) matches Some((level, dir)) ==> {
            let lv = match level {
                BreakoutLevel::PDH => l.pdh,
                BreakoutLevel::PDL => l.pdl,
                BreakoutLevel::ONH => l.onh,
                BreakoutLevel::ONL => l.onl,
                BreakoutLevel::VAH => l.vah,
                BreakoutLevel::VAL => l.val,
            };
            &&& dir == ImpulseDirection::Up ==> price > lv + threshold
            &&& dir == ImpulseDirection::Down ==> price < lv - threshold
        },
        (l.pdl - threshold <= price <= l.pdh + threshold && l.val - threshold <= price <= l.vah + threshold
            && (l.onh > 0 ==> price <= l.onh + threshold) && (l.onl > 0 ==> price >= l.onl - threshold))
            ==> breakout(l, price, threshold) is None,
{
}


/// Settings of the strategy's cycle. Prices in price units.
#[derive(Debug, Clone, Copy, PartialEq, Eq, Structural)]
pub struct StateMachineConfig {
    /// Move beyond a level that confirms a breakout
    pub breakout_threshold: Price,
    /// Bars of impulse profiling before it times out
    pub max_impulse_bars: usize,
    /// Smallest move of a valid impulse
    pub min_impulse_size: Price,
    /// Bars of hunting for a retest before it times out
    pub max_hunting_bars: usize,
    /// Smallest impulse score (out of 5) that qualifies
    pub min_impulse_score: u8,
}

impl Default for StateMachineConfig {
    /// A 2 point breakout threshold, 300 bars of profiling, a 30 point minimum impulse,
    /// 600 bars of hunting and a minimum score of 4.
    fn default() -> (r: Self)
        ensures
            r == (StateMachineConfig {
                breakout_threshold: 200,
                max_impulse_bars: 300,
                min_impulse_size: 3000,
                max_hunting_bars: 600,
                min_impulse_score: 4,
            }),
    {
        StateMachineConfig {
            breakout_threshold: 200,
            max_impulse_bars: 300,
            min_impulse_size: 3000,
            max_hunting_bars: 600,
            min_impulse_score: 4,
        }
    }
}

/// Number of bar volumes kept for the rolling average volume.
pub const MAX_VOLUME_SAMPLES: usize = 60;

/// The impulse leg being profiled.
#[derive(Debug)]
pub struct ActiveImpulse {
    pub id: u128,
    pub direction: ImpulseDirection,
    /// The level whose breakout started the impulse
    pub broken_level: BreakoutLevel,
    /// Trades seen while the impulse is active, for LVN extraction
    pub trades: Vec<Trade>,
    /// Bar count when the impulse started
    pub start_bar_idx: usize,
}

/// What the impulse builder reads of the impulse leg once it has taken the latest bar
/// (with the rolling average volume that includes that bar).
#[derive(Debug, Clone, Copy, PartialEq, Eq, Structural)]
pub struct ImpulseReading {
    /// The leg has moved at least the minimum impulse size
    pub sufficient_size: bool,
    /// The leg meets the scoring criteria, its swing counted as broken
    pub complete: bool,
    /// Start of the leg, milliseconds since the Unix epoch
    pub start_time: i64,
    /// Size of the leg's move, price units
    pub move_size: Price,
    /// The leg's extreme price so far
    pub end_price: Price,
}

/// Why an impulse was given up.
#[derive(Debug, Clone, Copy, PartialEq, Eq, Structural)]
pub enum ImpulseFailure {
    /// Profiling lasted more than the allowed bars (the number of bars it lasted)
    TimedOut(usize),
    /// Price gave back more than half of the move before the impulse completed
    Retraced,
}

/// A change of the strategy's state.
#[derive(Debug)]
pub enum StateTransition {
    /// A level was broken; profiling of the impulse begins
    BreakoutDetected { level: BreakoutLevel, direction: ImpulseDirection, price: Price },
    /// The impulse completed and its LVNs were extracted
    ImpulseComplete { impulse_id: u128, lvn_count: usize, direction: ImpulseDirection },
    /// The impulse was given up
    ImpulseInvalid { reason: ImpulseFailure },
    /// Hunting lasted too long without a trade
    HuntingTimeout,
    /// The cycle restarted
    Reset,
}

/// The impulse being profiled, as a value.
pub struct ImpulseModel {
    pub id: u128,
    pub direction: ImpulseDirection,
    pub broken_level: BreakoutLevel,
    pub trades: Seq<Trade>,
    pub start_bar: usize,
}

/// The state machine as a value.
pub struct MachineModel {
    pub config: StateMachineConfig,
    pub state: TradingState,
    pub levels: Option<LiveDailyLevels>,
    pub impulse: Option<ImpulseModel>,
    pub lvns: Seq<LvnLevel>,
    pub hunting_start: Option<usize>,
    pub bar_count: usize,
    pub volumes: Seq<u64>,
}

/// The rolling volume window after a bar of `volume`: the latest volumes, at most
/// `MAX_VOLUME_SAMPLES` of them.
pub open spec fn rolled(volumes: Seq<u64>, volume: u64) -> Seq<u64> {
    if volumes.push(volume).len() > MAX_VOLUME_SAMPLES {
        volumes.push(volume).drop_first()
    } else {
        volumes.push(volume)
    }
}

/// Whether `lvns` are the LVNs that `extract_lvns_realtime` gives for the trades of the
/// impulse window.
pub open spec fn impulse_lvns(
    lvns: Seq<LvnLevel>,
    trades: Seq<Trade>,
    id: u128,
    start: i64,
    end: i64,
    direction: ImpulseDirection,
    symbol: Seq<char>,
) -> bool {
    forall|entries: Seq<(i64, u64)>|
        buckets_sorted(entries) && volume_map(entries) == window_profile(trades, start, end) ==> lvn_levels_match(
            lvns,
            low_volume_entries(entries, entries.len() as int, total_volume(entries), LVN_THRESHOLD_PERMILLE as int),
            total_volume(entries),
            entries.len() as int,
            id,
            start,
            end,
            direction,
            crate::pipeline::bars::day_of(start as int),
            symbol,
        )
}

/// Whether price gave back more than half of the impulse's move from its extreme.
pub open spec fn retraced(direction: ImpulseDirection, close: int, end_price: int, move_size: int) -> bool {
    match direction {
        ImpulseDirection::Up => 2 * close < 2 * end_price - move_size,
        ImpulseDirection::Down => 2 * close > 2 * end_price + move_size,
    }
}

impl MachineModel {
    /// Counters and marks stay consistent and the impulse's trades can be profiled.
    pub open spec fn consistent(self) -> bool {
        &&& self.volumes.len() <= MAX_VOLUME_SAMPLES
        &&& self.hunting_start matches Some(h) ==> h <= self.bar_count
        &&& self.impulse matches Some(imp) ==> {
            &&& imp.start_bar <= self.bar_count
            &&& trade_prices_bounded(imp.trades)
            &&& trades_volume(imp.trades) <= u64::MAX
        }
    }

    /// The model with the state changed.
    pub open spec fn with_state(self, state: TradingState) -> MachineModel {
        MachineModel { state, ..self }
    }

    /// Whether `(next, r)` is a possible outcome of a bar while waiting for a breakout:
    /// on a breakout of the close, profiling of a new impulse with a fresh id starts.
    pub open spec fn waiting_step(self, bar: Bar, next: MachineModel, r: Option<StateTransition>) -> bool {
        match self.levels {
            None => next == self && r is None,
            Some(l) => match breakout(l, bar.close as int, self.config.breakout_threshold as int) {
                None => next == self && r is None,
                Some((level, direction)) => exists|id: u128| {
                    &&& next == (MachineModel {
                        impulse: Some(ImpulseModel { id, direction, broken_level: level, trades: Seq::empty(), start_bar: self.bar_count }),
                        state: TradingState::ProfilingImpulse,
                        ..self
                    })
                    &&& r == Some(StateTransition::BreakoutDetected { level, direction, price: bar.close })
                },
            },
        }
    }

    /// Whether `(next, r)` is the outcome of a bar while profiling, given the impulse
    /// builder's reading: a timeout, no decision while the move is small, completion
    /// (the impulse's LVNs are extracted and hunting starts), a retrace, or nothing.
    pub open spec fn profiling_step(self, bar: Bar, reading: ImpulseReading, next: MachineModel, r: Option<StateTransition>) -> bool {
        match self.impulse {
            None => next == self.with_state(TradingState::WaitingForBreakout) && r is None,
            Some(imp) => {
                let elapsed = self.bar_count - imp.start_bar;
                if elapsed > self.config.max_impulse_bars {
                    next == self.with_state(TradingState::Reset)
                        && r == Some(StateTransition::ImpulseInvalid { reason: ImpulseFailure::TimedOut(elapsed as usize) })
                } else if !reading.sufficient_size {
                    next == self && r is None
                } else if reading.complete {
                    &&& impulse_lvns(next.lvns, imp.trades, imp.id, reading.start_time, bar.timestamp, imp.direction, bar.symbol@)
                    &&& next == (MachineModel {
                        lvns: next.lvns,
                        hunting_start: Some(self.bar_count),
                        state: TradingState::Hunting,
                        ..self
                    })
                    &&& r == Some(StateTransition::ImpulseComplete { impulse_id: imp.id, lvn_count: next.lvns.len() as usize, direction: imp.direction })
                } else if retraced(imp.direction, bar.close as int, reading.end_price as int, reading.move_size as int) {
                    next == self.with_state(TradingState::Reset)
                        && r == Some(StateTransition::ImpulseInvalid { reason: ImpulseFailure::Retraced })
                } else {
                    next == self && r is None
                }
            },
        }
    }

    /// The outcome of a bar while hunting: a timeout once more than the allowed bars
    /// have passed since hunting began.
    pub open spec fn hunting_step(self) -> (MachineModel, Option<StateTransition>) {
        match self.hunting_start {
            None => (self.with_state(TradingState::WaitingForBreakout), None),
            Some(start) => if self.bar_count - start > self.config.max_hunting_bars {
                (self.with_state(TradingState::Reset), Some(StateTransition::HuntingTimeout))
            } else {
                (self, None)
            },
        }
    }

    /// Whether `(next, r)` is a possible outcome of a bar: the bar is counted and its
    /// volume rolled in, then the current state decides.
    pub open spec fn bar_step(self, bar: Bar, reading: ImpulseReading, next: MachineModel, r: Option<StateTransition>) -> bool {
        let counted = MachineModel { bar_count: (self.bar_count + 1) as usize, volumes: rolled(self.volumes, bar.volume), ..self };
        match self.state {
            TradingState::WaitingForBreakout => counted.waiting_step(bar, next, r),
            TradingState::ProfilingImpulse => counted.profiling_step(bar, reading, next, r),
            TradingState::Hunting => (next, r) == counted.hunting_step(),
            TradingState::Reset => next == counted.with_state(TradingState::WaitingForBreakout) && r == Some(StateTransition::Reset),
        }
    }
}

/// The strategy's cycle: wait for a breakout of the day's levels, profile the impulse,
/// hunt for an LVN retest, reset.
pub struct TradingStateMachine {
    config: StateMachineConfig,
    state: TradingState,
    daily_levels: Option<LiveDailyLevels>,
    active_impulse: Option<ActiveImpulse>,
    active_lvns: Vec<LvnLevel>,
    hunting_start_bar: Option<usize>,
    bar_count: usize,
    rolling_volume: Vec<u64>,
}

impl View for TradingStateMachine {
    type V = MachineModel;

    closed spec fn view(&self) -> MachineModel {
        MachineModel {
            config: self.config,
            state: self.state,
            levels: self.daily_levels,
            impulse: match self.active_impulse {
                None => None,
                Some(imp) => Some(ImpulseModel {
                    id: imp.id,
                    direction: imp.direction,
                    broken_level: imp.broken_level,
                    trades: imp.trades@,
                    start_bar: imp.start_bar_idx,
                }),
            },
            lvns: self.active_lvns@,
            hunting_start: self.hunting_start_bar,
            bar_count: self.bar_count,
            volumes: self.rolling_volume@,
        }
    }
}

impl TradingStateMachine {
    /// The machine's invariant.
    pub open spec fn wf(&self) -> bool {
        self@.consistent()
    }

    /// A machine waiting for a breakout, with no levels, no impulse and no bars.
    pub fn new(config: StateMachineConfig) -> (r: TradingStateMachine)
        ensures
            r.wf(),
            r@ == (MachineModel {
                config,
                state: TradingState::WaitingForBreakout,
                levels: None,
                impulse: None,
                lvns: Seq::empty(),
                hunting_start: None,
                bar_count: 0,
                volumes: Seq::empty(),
            }),
    {
        TradingStateMachine {
            config,
            state: TradingState::WaitingForBreakout,
            daily_levels: None,
            active_impulse: None,
            active_lvns: Vec::new(),
            hunting_start_bar: None,
            bar_count: 0,
            rolling_volume: Vec::new(),
        }
    }

    /// Sets the levels that breakouts are checked against.
    pub fn set_daily_levels(&mut self, levels: LiveDailyLevels)
        requires
            old(self).wf(),
        ensures
            final(self).wf(),
            final(self)@ == (MachineModel { levels: Some(levels), ..old(self)@ }),
    {
        self.daily_levels = Some(levels);
    }

    /// The current state.
    pub fn state(&self) -> (r: TradingState)
        ensures
            r == self@.state,
    {
        self.state
    }

    /// The LVNs of the last completed impulse.
    pub fn active_lvns(&self) -> (r: &Vec<LvnLevel>)
        ensures
            r@ == self@.lvns,
    {
        &self.active_lvns
    }

    /// The id of the active impulse, if any.
    pub fn active_impulse_id(&self) -> (r: Option<u128>)
        ensures
            r == (match self@.impulse {
                Some(imp) => Some(imp.id),
                None => None,
            }),
    {
        match &self.active_impulse {
            Some(imp) => Some(imp.id),
            None => None,
        }
    }

    /// Drops the impulse and its LVNs (after a trade).
    pub fn clear_impulse_lvns(&mut self)
        requires
            old(self).wf(),
        ensures
            final(self).wf(),
            final(self)@ == (MachineModel { lvns: Seq::empty(), impulse: None, ..old(self)@ }),
    {
        self.active_lvns.clear();
        self.active_impulse = None;
    }

    /// Back to waiting for a breakout, with no impulse, no LVNs and no hunt.
    pub fn reset(&mut self)
        requires
            old(self).wf(),
        ensures
            final(self).wf(),
            final(self)@ == (MachineModel {
                state: TradingState::WaitingForBreakout,
                impulse: None,
                lvns: Seq::empty(),
                hunting_start: None,
                ..old(self)@
            }),
    {
        self.state = TradingState::WaitingForBreakout;
        self.active_impulse = None;
        self.active_lvns.clear();
        self.hunting_start_bar = None;
    }

    /// `reset`, and the bar count and rolling volumes start over.
    pub fn reset_for_new_day(&mut self)
        requires
            old(self).wf(),
        ensures
            final(self).wf(),
            final(self)@ == (MachineModel {
                state: TradingState::WaitingForBreakout,
                impulse: None,
                lvns: Seq::empty(),
                hunting_start: None,
                bar_count: 0,
                volumes: Seq::empty(),
                ..old(self)@
            }),
    {
        self.reset();
        self.bar_count = 0;
        self.rolling_volume.clear();
    }

    /// Keeps the trade with the active impulse, if there is one, for LVN extraction.
    /// The impulse's trades keep prices within 2^60 price units of zero and a total
    /// size that fits in a `u64`.
    pub fn process_trade(&mut self, trade: &Trade)
        requires
            old(self).wf(),
            -0x1000_0000_0000_0000 <= trade.price <= 0x1000_0000_0000_0000,
            old(self)@.impulse matches Some(imp) ==> trades_volume(imp.trades) + trade.size <= u64::MAX,
        ensures
            final(self).wf(),
            final(self)@ == (match old(self)@.impulse {
                None => old(self)@,
                Some(imp) => MachineModel {
                    impulse: Some(ImpulseModel { trades: imp.trades.push(*trade), ..imp }),
                    ..old(self)@
                },
            }),
    {
        match &mut self.active_impulse {
            Some(imp) => {
                let ghost before = imp.trades@;
                imp.trades.push(trade.duplicate());
                proof {
                    assert(imp.trades@.drop_last() =~= before);
                    assert forall|i: int| 0 <= i < imp.trades@.len() implies -0x1000_0000_0000_0000
                        <= #[trigger] imp.trades@[i].price <= 0x1000_0000_0000_0000 by {
                        if i < before.len() {
                            assert(imp.trades@[i] == before[i]);
                        }
                    }
                }
            },
            None => {},
        }
    }

    /// The total and the number of the rolling bar volumes, whose ratio is the average
    /// volume that the impulse builder scores against.
    pub fn rolling_volume(&self) -> (r: (u128, usize))
        requires
            self.wf(),
        ensures
            r.0 == crate::pipeline::state_machine::volume_sum(self@.volumes),
            r.1 == self@.volumes.len(),
    {
        let mut total: u128 = 0;
        let mut i: usize = 0;
        while i < self.rolling_volume.len()
            invariant
                i <= self.rolling_volume@.len(),
                self.rolling_volume@.len() <= MAX_VOLUME_SAMPLES,
                total == volume_sum(self.rolling_volume@.take(i as int)),
                total <= i * 0xffff_ffff_ffff_ffff,
            decreases self.rolling_volume@.len() - i,
        {
            proof {
                assert(self.rolling_volume@.take(i + 1).drop_last() =~= self.rolling_volume@.take(i as int));
            }
            total = total + self.rolling_volume[i] as u128;
            i += 1;
        }
        proof {
            assert(self.rolling_volume@.take(i as int) =~= self.rolling_volume@);
        }
        (total, self.rolling_volume.len())
    }

    fn update_rolling_volume(&mut self, volume: u64)
        requires
            old(self).rolling_volume@.len() <= MAX_VOLUME_SAMPLES,
        ensures
            final(self).rolling_volume@ == rolled(old(self).rolling_volume@, volume),
            final(self).rolling_volume@.len() <= MAX_VOLUME_SAMPLES,
            final(self).config == old(self).config,
            final(self).state == old(self).state,
            final(self).daily_levels == old(self).daily_levels,
            final(self).active_impulse == old(self).active_impulse,
            final(self).active_lvns == old(self).active_lvns,
            final(self).hunting_start_bar == old(self).hunting_start_bar,
            final(self).bar_count == old(self).bar_count,
    {
        self.rolling_volume.push(volume);
        if self.rolling_volume.len() > MAX_VOLUME_SAMPLES {
            self.rolling_volume.remove(0);
            proof {
                assert(self.rolling_volume@ =~= rolled(old(self).rolling_volume@, volume));
            }
        }
    }

    /// Advances the cycle by a bar (see `MachineModel::bar_step`). `reading` is the
    /// impulse builder's reading of the impulse leg with this bar; it is used only while
    /// profiling. A new impulse gets a fresh random id.
    pub fn process_bar(&mut self, bar: &Bar, reading: ImpulseReading) -> (r: Option<StateTransition>)
        requires
            old(self).wf(),
            old(self)@.bar_count < usize::MAX,
        ensures
            final(self).wf(),
            old(self)@.bar_step(*bar, reading, final(self)@, r),
    {
        self.bar_count = self.bar_count + 1;
        self.update_rolling_volume(bar.volume);
        match self.state {
            TradingState::WaitingForBreakout => self.process_waiting(bar),
            TradingState::ProfilingImpulse => self.process_profiling(bar, reading),
            TradingState::Hunting => self.process_hunting(),
            TradingState::Reset => {
                self.state = TradingState::WaitingForBreakout;
                Some(StateTransition::Reset)
            },
        }
    }

    fn process_waiting(&mut self, bar: &Bar) -> (r: Option<StateTransition>)
        requires
            old(self).wf(),
        ensures
            final(self).wf(),
            old(self)@.waiting_step(*bar, final(self)@, r),
    {
        let levels = match self.daily_levels {
            Some(l) => l,
            None => return None,
        };
        match levels.check_breakout(bar.close, self.config.breakout_threshold) {
            None => None,
            Some((level, direction)) => {
                let id = new_id();
                self.active_impulse = Some(
                    ActiveImpulse { id, direction, broken_level: level, trades: Vec::new(), start_bar_idx: self.bar_count },
                );
                self.state = TradingState::ProfilingImpulse;
                proof {
                    assert(self@.impulse == Some(ImpulseModel { id, direction, broken_level: level, trades: Seq::<Trade>::empty(), start_bar: old(self)@.bar_count }));
                }
                Some(StateTransition::BreakoutDetected { level, direction, price: bar.close })
            },
        }
    }

    fn process_profiling(&mut self, bar: &Bar, reading: ImpulseReading) -> (r: Option<StateTransition>)
        requires
            old(self).wf(),
        ensures
            final(self).wf(),
            old(self)@.profiling_step(*bar, reading, final(self)@, r),
    {
        let bar_count = self.bar_count;
        let max_impulse_bars = self.config.max_impulse_bars;
        let (impulse_id, direction, elapsed) = match &self.active_impulse {
            None => {
                self.state = TradingState::WaitingForBreakout;
                return None;
            },
            Some(imp) => (imp.id, imp.direction, bar_count - imp.start_bar_idx),
        };
        if elapsed > max_impulse_bars {
            self.state = TradingState::Reset;
            return Some(StateTransition::ImpulseInvalid { reason: ImpulseFailure::TimedOut(elapsed) });
        }
        if !reading.sufficient_size {
            return None;
        }
        if reading.complete {
            let lvns = match &self.active_impulse {
                Some(imp) => {
                    proof {
                        lemma_window_fits(imp.trades@, reading.start_time, bar.timestamp);
                        lemma_window_buckets_bounded(imp.trades@, reading.start_time, bar.timestamp);
                    }
                    extract_lvns_realtime(imp.trades.as_slice(), impulse_id, reading.start_time, bar.timestamp, direction, bar.symbol.as_str())
                },
                None => Vec::new(),
            };
            let lvn_count = lvns.len();
            self.active_lvns = lvns;
            self.hunting_start_bar = Some(self.bar_count);
            self.state = TradingState::Hunting;
            return Some(StateTransition::ImpulseComplete { impulse_id, lvn_count, direction });
        }
        let close = bar.close as i128;
        let end = reading.end_price as i128;
        let size = reading.move_size as i128;
        let gave_back = match direction {
            ImpulseDirection::Up => 2 * close < 2 * end - size,
            ImpulseDirection::Down => 2 * close > 2 * end + size,
        };
        if gave_back {
            self.state = TradingState::Reset;
            return Some(StateTransition::ImpulseInvalid { reason: ImpulseFailure::Retraced });
        }
        None
    }

    fn process_hunting(&mut self) -> (r: Option<StateTransition>)
        requires
            old(self).wf(),
        ensures
            final(self).wf(),
            (final(self)@, r) == old(self)@.hunting_step(),
    {
        let start = match self.hunting_start_bar {
            Some(s) => s,
            None => {
                self.state = TradingState::WaitingForBreakout;
                return None;
            },
        };
        if self.bar_count - start > self.config.max_hunting_bars {
            self.state = TradingState::Reset;
            return Some(StateTransition::HuntingTimeout);
        }
        None
    }
}

/// Sum of volumes.
pub open spec fn volume_sum(volumes: Seq<u64>) -> int
    decreases volumes.len(),
{
    if volumes.len() == 0 {
        0
    } else {
        volume_sum(volumes.drop_last()) + volumes.last()
    }
}

/// An impulse has retraced exactly when price gave back more than half its move from
/// its extreme: an up move when the close is below its high by more than half the move,
/// a down move when the close is above its low by more than half the move. The two
/// directions mirror each other, and a close at the extreme never retraces a move of no
/// negative size.
pub proof fn lemma_retraced_half_move(close: int, end_price: int, move_size: int)
    ensures
        retraced(ImpulseDirection::Up, close, end_price, move_size) <==> 2 * (end_price - close) > move_size,
        retraced(ImpulseDirection::Down, close, end_price, move_size) <==> 2 * (close - end_price) > move_size,
        retraced(ImpulseDirection::Down, close, end_price, move_size) == retraced(
            ImpulseDirection::Up,
            -close,
            -end_price,
            move_size,
        ),
        move_size >= 0 ==> !retraced(ImpulseDirection::Up, end_price, end_price, move_size),
        move_size >= 0 ==> !retraced(ImpulseDirection::Down, end_price, end_price, move_size),
{
}

} // verus!
