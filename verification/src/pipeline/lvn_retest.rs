//! LVN retest strategy: each LVN level moves through untouched, touched, armed and
//! retesting as price comes to it, leaves and returns; a retest with heavy aggression
//! in the direction of the impulse that created the level gives a signal.

use vstd::prelude::*;

use crate::clock::{new_york_clock, new_york_time};
use crate::pipeline::bars::{day_of, utc_day, Bar};
use crate::pipeline::keyed::{find_key, key_map, keys_sorted, lemma_key_map, lemma_key_map_set, lemma_subsequence_sorted, sorted_insert};
use crate::pipeline::lvn::{ImpulseDirection, LvnLevel};
use crate::units::{abs, trunc_div, Price};

verus! {

/// Configuration of the LVN retest strategy. Distances are in price units; the volume
/// ratio limit is in hundredths of a percent (1500 is 0.15).
#[derive(Debug, Clone, Copy, PartialEq, Eq, Structural)]
pub struct LvnRetestConfig {
    /// Distance within which price is at a level
    pub level_tolerance: Price,
    /// Distance price must move away before a level is armed
    pub retest_distance: Price,
    /// Minimum delta magnitude for a signal
    pub min_delta_for_absorption: i64,
    /// Maximum bar range for a signal (price held)
    pub max_range_for_absorption: Price,
    pub stop_loss: Price,
    pub take_profit: Price,
    /// Trailing stop distance (activates once price is this far in profit)
    pub trailing_stop: Price,
    /// Maximum hold time in bars
    pub max_hold_bars: usize,
    /// Only signal during the trading window
    pub rth_only: bool,
    /// Minimum bars between trades
    pub cooldown_bars: usize,
    /// Minimum bars between trades of one level
    pub level_cooldown_bars: usize,
    /// Maximum volume ratio of a usable LVN, in hundredths of a percent
    pub max_lvn_volume_ratio_bp: u64,
    /// Only use LVNs of the bar's day
    pub same_day_only: bool,
    pub min_absorption_bars: usize,
    /// Stop distance beyond the LVN level
    pub structure_stop_buffer: Price,
    /// Trading window (New York time)
    pub trade_start_hour: u32,
    pub trade_start_minute: u32,
    pub trade_end_hour: u32,
    pub trade_end_minute: u32,
}

impl Default for LvnRetestConfig {
    /// Within 2 points of a level, armed 8 points away, 100 contracts of delta, a range
    /// of at most 1.5 points, 4-point stop, 8-point target, 4-point trail, 300 bars of
    /// hold, trading 9:30 to 16:00, one minute between trades, ten minutes per level.
    fn default() -> (c: LvnRetestConfig)
        ensures
            c == (LvnRetestConfig {
                level_tolerance: 200,
                retest_distance: 800,
                min_delta_for_absorption: 100,
                max_range_for_absorption: 150,
                stop_loss: 400,
                take_profit: 800,
                trailing_stop: 400,
                max_hold_bars: 300,
                rth_only: true,
                cooldown_bars: 60,
                level_cooldown_bars: 600,
                max_lvn_volume_ratio_bp: 1500,
                same_day_only: false,
                min_absorption_bars: 1,
                structure_stop_buffer: 200,
                trade_start_hour: 9,
                trade_start_minute: 30,
                trade_end_hour: 16,
                trade_end_minute: 0,
            }),
    {
        LvnRetestConfig {
            level_tolerance: 200,
            retest_distance: 800,
            min_delta_for_absorption: 100,
            max_range_for_absorption: 150,
            stop_loss: 400,
            take_profit: 800,
            trailing_stop: 400,
            max_hold_bars: 300,
            rth_only: true,
            cooldown_bars: 60,
            level_cooldown_bars: 600,
            max_lvn_volume_ratio_bp: 1500,
            same_day_only: false,
            min_absorption_bars: 1,
            structure_stop_buffer: 200,
            trade_start_hour: 9,
            trade_start_minute: 30,
            trade_end_hour: 16,
            trade_end_minute: 0,
        }
    }
}

/// State of an LVN level.
#[derive(Debug, Clone, Copy, PartialEq, Eq, Structural)]
pub enum LevelState {
    /// Not touched yet
    Untouched,
    /// Touched, price has not moved away yet
    Touched,
    /// Price moved away: the level is armed for a retest
    Armed,
    /// Price is back at the level
    Retesting,
}

/// Trade direction.
#[derive(Debug, Clone, Copy, PartialEq, Eq, Structural)]
pub enum Direction {
    Long,
    Short,
}

impl Direction {
    /// `Long` or `Short`.
    pub fn label(&self) -> (r: &'static str)
        ensures
            *self == Direction::Long ==> r@ == "Long"@,
            *self == Direction::Short ==> r@ == "Short"@,
    {
        match self {
            Direction::Long => "Long",
            Direction::Short => "Short",
        }
    }
}

/// The direction of a trade at a level created by an impulse: with the impulse.
pub open spec fn trade_direction(d: ImpulseDirection) -> Direction {
    match d {
        ImpulseDirection::Up => Direction::Long,
        ImpulseDirection::Down => Direction::Short,
    }
}

/// A tracked LVN level.
#[derive(Debug, Clone, Copy, PartialEq, Eq, Structural)]
pub struct TrackedLevel {
    pub price: Price,
    pub state: LevelState,
    pub first_touch_bar: Option<usize>,
    pub armed_bar: Option<usize>,
    pub last_traded_bar: Option<usize>,
    /// Whether price came from above on the last approach
    pub approached_from_above: Option<bool>,
    pub impulse_direction: ImpulseDirection,
    /// Volume of the LVN and the size of its profile: its volume ratio is
    /// `volume * profile_buckets / profile_volume`
    pub volume: u64,
    pub profile_volume: u64,
    pub profile_buckets: u64,
    /// UTC day of the LVN
    pub lvn_date: i64,
    pub absorption_bar: Option<usize>,
    pub impulse_id: Option<u128>,
}

/// A signal: a retest of a level with heavy aggression in the trend direction.
#[derive(Debug, Clone, Copy, PartialEq, Eq, Structural)]
pub struct LvnSignal {
    pub direction: Direction,
    /// Close of the signal bar
    pub price: Price,
    /// The level's key price (a multiple of a tenth of a point)
    pub level_price: Price,
    pub delta: i64,
}

/// Trade outcome.
#[derive(Debug, Clone, Copy, PartialEq, Eq, Structural)]
pub enum Outcome {
    Win,
    Loss,
    Breakeven,
    Timeout,
}

/// The key of a level price: its price in tenths of a point, rounded toward zero.
pub open spec fn level_key(price: Price) -> int {
    trunc_div(price as int, 10)
}

/// Whether an LVN is thin enough: its volume ratio is not above the limit.
pub open spec fn thin_enough(l: LvnLevel, max_bp: u64) -> bool {
    !(l.volume * l.profile_buckets * 10_000 > max_bp * l.profile_volume)
}

/// A new tracked level for an LVN.
pub open spec fn fresh_level(l: LvnLevel, impulse_id: u128) -> TrackedLevel {
    TrackedLevel {
        price: l.price,
        state: LevelState::Untouched,
        first_touch_bar: None,
        armed_bar: None,
        last_traded_bar: None,
        approached_from_above: None,
        impulse_direction: l.impulse_direction,
        volume: l.volume,
        profile_volume: l.profile_volume,
        profile_buckets: l.profile_buckets,
        lvn_date: l.date,
        absorption_bar: None,
        impulse_id: Some(impulse_id),
    }
}

/// The map after adding LVNs in order (a later LVN with the same key replaces an
/// earlier one); `impulse` overrides the LVNs' own impulse ids when given.
pub open spec fn levels_added(m: Map<i64, TrackedLevel>, lvns: Seq<LvnLevel>, max_bp: u64, impulse: Option<u128>) -> Map<i64, TrackedLevel>
    decreases lvns.len(),
{
    if lvns.len() == 0 {
        m
    } else {
        let rest = levels_added(m, lvns.drop_last(), max_bp, impulse);
        let l = lvns.last();
        if thin_enough(l, max_bp) {
            let id = match impulse {
                Some(i) => i,
                None => l.impulse_id,
            };
            rest.insert(level_key(l.price) as i64, fresh_level(l, id))
        } else {
            rest
        }
    }
}

/// Number of the LVNs thin enough to be added.
pub open spec fn thin_count(lvns: Seq<LvnLevel>, max_bp: u64) -> int
    decreases lvns.len(),
{
    if lvns.len() == 0 {
        0
    } else {
        thin_count(lvns.drop_last(), max_bp) + if thin_enough(lvns.last(), max_bp) {
            1int
        } else {
            0
        }
    }
}

/// How a level's state moves with a bar closing at `price` after one closing at `prev`.
pub open spec fn level_step(l: TrackedLevel, cfg: LvnRetestConfig, bar_idx: usize, price: Price, prev: Price) -> TrackedLevel {
    let d = abs(price - l.price);
    match l.state {
        LevelState::Untouched => if d <= cfg.level_tolerance {
            TrackedLevel {
                state: LevelState::Touched,
                first_touch_bar: Some(bar_idx),
                approached_from_above: Some(prev > l.price),
                ..l
            }
        } else {
            l
        },
        LevelState::Touched => if d > cfg.retest_distance {
            TrackedLevel { state: LevelState::Armed, armed_bar: Some(bar_idx), ..l }
        } else {
            l
        },
        LevelState::Armed => if d <= cfg.level_tolerance {
            TrackedLevel { state: LevelState::Retesting, approached_from_above: Some(prev > l.price), ..l }
        } else {
            l
        },
        LevelState::Retesting => if d > 2 * cfg.level_tolerance {
            if d > cfg.retest_distance {
                TrackedLevel { state: LevelState::Armed, ..l }
            } else {
                TrackedLevel { state: LevelState::Touched, ..l }
            }
        } else {
            l
        },
    }
}

/// Every level stepped with the bar.
pub open spec fn levels_stepped(s: Seq<(i64, TrackedLevel)>, cfg: LvnRetestConfig, bar_idx: usize, price: Price, prev: Price) -> Seq<(i64, TrackedLevel)> {
    Seq::new(s.len(), |i: int| (s[i].0, level_step(s[i].1, cfg, bar_idx, price, prev)))
}

/// Whether the bar's New York time lies in the trading window.
pub open spec fn in_trading_window(cfg: LvnRetestConfig, ts_millis: i64) -> bool {
    match new_york_clock(ts_millis) {
        Some(hm) => cfg.trade_start_hour * 60 + cfg.trade_start_minute <= hm.0 * 60 + hm.1 < cfg.trade_end_hour * 60
            + cfg.trade_end_minute,
        None => false,
    }
}

/// Whether a level gives a signal on a bar: it is retesting, of the bar's day when
/// required, within the tolerance of the close, the delta is on the side of the
/// impulse, and the bar's range is small enough.
pub open spec fn level_signals(l: TrackedLevel, cfg: LvnRetestConfig, close: Price, high: Price, low: Price, delta: i64, day: int) -> bool {
    &&& l.state == LevelState::Retesting
    &&& !(cfg.same_day_only && l.lvn_date != day)
    &&& abs(close - l.price) <= cfg.level_tolerance
    &&& (match trade_direction(l.impulse_direction) {
        Direction::Long => delta > 0,
        Direction::Short => delta < 0,
    })
    &&& high - low <= cfg.max_range_for_absorption
}

/// Index of the first level, in key order, that signals.
pub open spec fn first_signal(s: Seq<(i64, TrackedLevel)>, cfg: LvnRetestConfig, close: Price, high: Price, low: Price, delta: i64, day: int) -> Option<int>
    decreases s.len(),
{
    if s.len() == 0 {
        None
    } else {
        match first_signal(s.drop_last(), cfg, close, high, low, delta, day) {
            Some(i) => Some(i),
            None => if level_signals(s.last().1, cfg, close, high, low, delta, day) {
                Some(s.len() - 1)
            } else {
                None
            },
        }
    }
}

pub proof fn lemma_first_signal(s: Seq<(i64, TrackedLevel)>, cfg: LvnRetestConfig, close: Price, high: Price, low: Price, delta: i64, day: int)
    ensures
        first_signal(s, cfg, close, high, low, delta, day) matches Some(i) ==> {
            &&& 0 <= i < s.len()
            &&& level_signals(s[i].1, cfg, close, high, low, delta, day)
            &&& forall|j: int| 0 <= j < i ==> !level_signals(#[trigger] s[j].1, cfg, close, high, low, delta, day)
        },
        first_signal(s, cfg, close, high, low, delta, day) is None ==> forall|j: int|
            0 <= j < s.len() ==> !level_signals(#[trigger] s[j].1, cfg, close, high, low, delta, day),
    decreases s.len(),
{
    if s.len() > 0 {
        lemma_first_signal(s.drop_last(), cfg, close, high, low, delta, day);
        assert(forall|j: int| 0 <= j < s.len() - 1 ==> s.drop_last()[j] == s[j]);
    }
}

/// What a signal generator holds.
pub struct GeneratorModel {
    pub config: LvnRetestConfig,
    /// Tracked levels by key, in key order
    pub levels: Seq<(i64, TrackedLevel)>,
    pub bar_count: int,
    pub last_trade_bar: Option<usize>,
    /// Close of the previous bar since the last clear
    pub last_close: Option<Price>,
}

impl GeneratorModel {
    /// The generator after a bar, and the signal it gives. The bar count advances and
    /// every level steps with the bar. No signal comes on the first bar since a clear,
    /// during the cooldown after a trade, outside the trading window when trading only
    /// there, when the market is not imbalanced or the delta is below the minimum, when
    /// no level signals, or when the first level that signals is on its own cooldown.
    /// Otherwise the first signalling level is traded: it goes back to touched and
    /// records the bar, and so does the generator.
    pub open spec fn after_bar(self, timestamp: i64, close: Price, high: Price, low: Price, delta: i64, imbalanced: bool) -> (GeneratorModel, Option<LvnSignal>) {
        let idx = (self.bar_count + 1) as usize;
        match self.last_close {
            None => (GeneratorModel { bar_count: idx as int, last_close: Some(close), ..self }, None),
            Some(prev) => {
                let stepped = levels_stepped(self.levels, self.config, idx, close, prev);
                let base = GeneratorModel { bar_count: idx as int, last_close: Some(close), levels: stepped, ..self };
                let cfg = self.config;
                let cooling = match self.last_trade_bar {
                    Some(l) => idx < l + cfg.cooldown_bars,
                    None => false,
                };
                if cooling {
                    (base, None)
                } else if cfg.rth_only && !in_trading_window(cfg, timestamp) {
                    (base, None)
                } else if !imbalanced || abs(delta as int) < cfg.min_delta_for_absorption {
                    (base, None)
                } else {
                    match first_signal(stepped, cfg, close, high, low, delta, day_of(timestamp as int)) {
                        None => (base, None),
                        Some(i) => {
                            let key = stepped[i].0;
                            let level = stepped[i].1;
                            let level_cooling = match level.last_traded_bar {
                                Some(l) => idx < l + cfg.level_cooldown_bars,
                                None => false,
                            };
                            if level_cooling {
                                (base, None)
                            } else {
                                (
                                    GeneratorModel {
                                        last_trade_bar: Some(idx),
                                        levels: stepped.update(
                                            i,
                                            (key, TrackedLevel { last_traded_bar: Some(idx), state: LevelState::Touched, ..level }),
                                        ),
                                        ..base
                                    },
                                    Some(
                                        LvnSignal {
                                            direction: trade_direction(level.impulse_direction),
                                            price: close,
                                            level_price: (key * 10) as i64,
                                            delta: delta,
                                        },
                                    ),
                                )
                            }
                        },
                    }
                }
            },
        }
    }
}

/// A bar as the signal generator reads it: timestamp, close, high, low, delta, and
/// whether the market is imbalanced.
pub type GeneratorBar = (i64, Price, Price, Price, i64, bool);

/// The generator after a run of bars, and the signal of each bar.
pub open spec fn run_generator(g: GeneratorModel, bars: Seq<GeneratorBar>) -> (GeneratorModel, Seq<Option<LvnSignal>>)
    decreases bars.len(),
{
    if bars.len() == 0 {
        (g, Seq::empty())
    } else {
        let (g1, sigs) = run_generator(g, bars.drop_last());
        let b = bars.last();
        let (g2, sig) = g1.after_bar(b.0, b.1, b.2, b.3, b.4, b.5);
        (g2, sigs.push(sig))
    }
}

/// Whether a signal is what a bar with this close, range and delta can give: at the
/// close, with the bar's delta, heavy enough, on a narrow enough bar, long on buying and
/// short on selling.
pub open spec fn signal_fits_bar(s: LvnSignal, cfg: LvnRetestConfig, b: GeneratorBar) -> bool {
    &&& s.price == b.1
    &&& s.delta == b.4
    &&& abs(b.4 as int) >= cfg.min_delta_for_absorption
    &&& b.2 - b.3 <= cfg.max_range_for_absorption
    &&& (s.direction == Direction::Long ==> b.4 > 0)
    &&& (s.direction == Direction::Short ==> b.4 < 0)
}

/// Over any run of bars through a signal generator: no signal comes on the first bar
/// after a clear (or after creation), none comes without levels, each signal is at its
/// bar's close with its delta, heavy enough, on a narrow enough bar and on the side of
/// the delta, and two signals are at least the cooldown apart.
pub proof fn lemma_generator_run(g: GeneratorModel, bars: Seq<GeneratorBar>)
    requires
        0 <= g.bar_count,
        g.bar_count + bars.len() <= usize::MAX,
    ensures
        ({
            let (g2, sigs) = run_generator(g, bars);
            &&& sigs.len() == bars.len()
            &&& g2.config == g.config
            &&& g2.levels.len() == g.levels.len()
            &&& g2.bar_count == g.bar_count + bars.len()
            &&& (g.last_close is None && bars.len() > 0 ==> sigs[0] is None)
            &&& (g.levels.len() == 0 ==> forall|i: int| 0 <= i < sigs.len() ==> #[trigger] sigs[i] is None)
            &&& forall|i: int| 0 <= i < sigs.len() && #[trigger] sigs[i] is Some ==> signal_fits_bar(sigs[i].unwrap(), g.config, bars[i])
            &&& forall|i: int| 0 <= i < sigs.len() && #[trigger] sigs[i] is Some
                ==> (g2.last_trade_bar matches Some(l) && l >= g.bar_count + i + 1)
            &&& forall|i: int, j: int| 0 <= i < j < sigs.len() && #[trigger] sigs[i] is Some && #[trigger] sigs[j] is Some
                ==> j >= i + g.config.cooldown_bars
        }),
    decreases bars.len(),
{
    if bars.len() > 0 {
        let prev = bars.drop_last();
        lemma_generator_run(g, prev);
        let (g1, sigs1) = run_generator(g, prev);
        let b = bars.last();
        let (g2, sig) = g1.after_bar(b.0, b.1, b.2, b.3, b.4, b.5);
        let sigs = sigs1.push(sig);
        assert(run_generator(g, bars) == (g2, sigs));
        let k = prev.len() as int;
        assert(forall|i: int| 0 <= i < k ==> prev[i] == bars[i]);
        assert(bars[k] == b);
        assert(sigs[k] == sig);
        assert(forall|i: int| 0 <= i < k ==> sigs[i] == sigs1[i]);
        let idx = (g1.bar_count + 1) as usize;
        assert(idx == g.bar_count + k + 1);
        if g1.last_close is Some {
            let stepped = levels_stepped(g1.levels, g1.config, idx, b.1, g1.last_close.unwrap());
            lemma_first_signal(stepped, g1.config, b.1, b.2, b.3, b.4, day_of(b.0 as int));
        }
        if k > 0 {
            assert(g1.last_close is Some);
        }
        assert forall|i: int, j: int| 0 <= i < j < sigs.len() && #[trigger] sigs[i] is Some && #[trigger] sigs[j] is Some
            implies j >= i + g.config.cooldown_bars by {
            if j == k {
                assert(sigs1[i] is Some);
            } else {
                assert(sigs1[i] is Some && sigs1[j] is Some);
            }
        }
        assert forall|i: int| 0 <= i < sigs.len() && #[trigger] sigs[i] is Some
            implies (g2.last_trade_bar matches Some(l) && l >= g.bar_count + i + 1) by {
            if i < k {
                assert(sigs1[i] is Some);
            }
        }
        assert forall|i: int| 0 <= i < sigs.len() && #[trigger] sigs[i] is Some
            implies signal_fits_bar(sigs[i].unwrap(), g.config, bars[i]) by {
            if i < k {
                assert(sigs1[i] is Some);
            }
        }
        if g.levels.len() == 0 {
            assert forall|i: int| 0 <= i < sigs.len() implies #[trigger] sigs[i] is None by {
                if i < k {
                    assert(sigs1[i] is None);
                }
            }
        }
        if g.last_close is None && k > 0 {
            assert(sigs1[0] is None);
        }
    }
}

/// One bar through the generator: the bar count moves by one; there is no signal on the
/// first bar after a clear, nor without levels; a signal fits its bar (see
/// `signal_fits_bar`), records its bar as the last trade, and comes at least the
/// cooldown after the previous trade; without a signal the last trade stays.
pub proof fn lemma_generator_step(g: GeneratorModel, b: GeneratorBar)
    requires
        0 <= g.bar_count < usize::MAX,
    ensures
        ({
            let (g2, sig) = g.after_bar(b.0, b.1, b.2, b.3, b.4, b.5);
            &&& g2.bar_count == g.bar_count + 1
            &&& g2.config == g.config
            &&& (g.last_close is None ==> sig is None)
            &&& (g.levels.len() == 0 ==> sig is None)
            &&& (sig matches Some(s) ==> signal_fits_bar(s, g.config, b))
            &&& (sig is Some ==> g2.last_trade_bar == Some(g2.bar_count as usize))
            &&& (sig is Some ==> (g.last_trade_bar matches Some(l) ==> g2.bar_count >= l + g.config.cooldown_bars))
            &&& (sig is None ==> g2.last_trade_bar == g.last_trade_bar)
        }),
{
    let idx = (g.bar_count + 1) as usize;
    if g.last_close is Some {
        let stepped = levels_stepped(g.levels, g.config, idx, b.1, g.last_close.unwrap());
        lemma_first_signal(stepped, g.config, b.1, b.2, b.3, b.4, day_of(b.0 as int));
    }
}

/// Tracks LVN levels through their states and gives retest signals.
pub struct LvnSignalGenerator {
    config: LvnRetestConfig,
    /// Levels by key, sorted by key with no key twice, as an ordered map would keep
    /// them: every bar updates every level in place, and levels leave by impulse,
    /// operations that vstd specifies for `Vec` but not for `BTreeMap`
    tracked_levels: Vec<(i64, TrackedLevel)>,
    bar_count: usize,
    last_trade_bar: Option<usize>,
    last_close: Option<Price>,
}

impl View for LvnSignalGenerator {
    type V = GeneratorModel;

    closed spec fn view(&self) -> GeneratorModel {
        GeneratorModel {
            config: self.config,
            levels: self.tracked_levels@,
            bar_count: self.bar_count as int,
            last_trade_bar: self.last_trade_bar,
            last_close: self.last_close,
        }
    }
}

/// Levels that do not belong to an impulse, in order.
pub open spec fn levels_without_impulse(s: Seq<(i64, TrackedLevel)>, id: u128) -> Seq<(i64, TrackedLevel)>
    decreases s.len(),
{
    if s.len() == 0 {
        s
    } else {
        let rest = levels_without_impulse(s.drop_last(), id);
        if s.last().1.impulse_id == Some(id) {
            rest
        } else {
            rest.push(s.last())
        }
    }
}

/// Whether every key times ten fits in an `i64`.
pub open spec fn keys_bounded(s: Seq<(i64, TrackedLevel)>) -> bool {
    forall|i: int| 0 <= i < s.len() ==> -922337203685477580 <= #[trigger] s[i].0 <= 922337203685477580
}

impl LvnSignalGenerator {
    /// Whether the levels are sorted by key, and every key times ten fits in an `i64`.
    pub open spec fn wf(&self) -> bool {
        keys_sorted(self@.levels) && keys_bounded(self@.levels)
    }

    /// A generator with no levels.
    pub fn new(config: LvnRetestConfig) -> (g: LvnSignalGenerator)
        ensures
            g.wf(),
            g@ == (GeneratorModel { config, levels: Seq::empty(), bar_count: 0, last_trade_bar: None, last_close: None }),
    {
        LvnSignalGenerator { config, tracked_levels: Vec::new(), bar_count: 0, last_trade_bar: None, last_close: None }
    }

    fn add_levels(&mut self, levels: &[LvnLevel], impulse: Option<u128>) -> (added: usize)
        requires
            old(self).wf(),
            forall|i: int| 0 <= i < levels@.len() ==> (#[trigger] levels@[i]).volume * levels@[i].profile_buckets * 10_000 <= u128::MAX,
        ensures
            final(self).wf(),
            key_map(final(self)@.levels) == levels_added(key_map(old(self)@.levels), levels@, old(self)@.config.max_lvn_volume_ratio_bp, impulse),
            final(self)@ == (GeneratorModel { levels: final(self)@.levels, ..old(self)@ }),
            added == thin_count(levels@, old(self)@.config.max_lvn_volume_ratio_bp),
    {
        let mut added: usize = 0;
        let mut i: usize = 0;
        let max_bp = self.config.max_lvn_volume_ratio_bp;
        while i < levels.len()
            invariant
                i <= levels@.len(),
                self.wf(),
                max_bp == self@.config.max_lvn_volume_ratio_bp,
                forall|i: int| 0 <= i < levels@.len() ==> (#[trigger] levels@[i]).volume * levels@[i].profile_buckets * 10_000 <= u128::MAX,
                key_map(self@.levels) == levels_added(key_map(old(self)@.levels), levels@.take(i as int), max_bp, impulse),
                self@ == (GeneratorModel { levels: self@.levels, ..old(self)@ }),
                added == thin_count(levels@.take(i as int), max_bp),
                added <= i,
            decreases levels@.len() - i,
        {
            proof {
                assert(levels@.take(i + 1).drop_last() =~= levels@.take(i as int));
                assert(levels@.take(i + 1).last() == levels@[i as int]);
            }
            let lvn = &levels[i];
            let ratio_num: u128 = lvn.volume as u128 * lvn.profile_buckets as u128 * 10_000;
            proof {
                assert(lvn.volume * lvn.profile_buckets * 10_000 <= u128::MAX);
                assert(max_bp * lvn.profile_volume <= u64::MAX * u64::MAX) by (nonlinear_arith)
                    requires max_bp <= u64::MAX, lvn.profile_volume <= u64::MAX;
            }
            let ghost before = self@.levels;
            if !(ratio_num > max_bp as u128 * lvn.profile_volume as u128) {
                let key: i64 = lvn.price / 10;
                let id = match impulse {
                    Some(x) => x,
                    None => lvn.impulse_id,
                };
                sorted_insert(
                    &mut self.tracked_levels,
                    key,
                    TrackedLevel {
                        price: lvn.price,
                        state: LevelState::Untouched,
                        first_touch_bar: None,
                        armed_bar: None,
                        last_traded_bar: None,
                        approached_from_above: None,
                        impulse_direction: lvn.impulse_direction,
                        volume: lvn.volume,
                        profile_volume: lvn.profile_volume,
                        profile_buckets: lvn.profile_buckets,
                        lvn_date: lvn.date,
                        absorption_bar: None,
                        impulse_id: Some(id),
                    },
                );
                proof {
                    let n = self@.levels;
                    lemma_key_map(n);
                    lemma_key_map(before);
                    assert forall|k: int| 0 <= k < n.len() implies -922337203685477580 <= #[trigger] n[k].0 <= 922337203685477580 by {
                        assert(key_map(n).contains_key(n[k].0));
                        if n[k].0 != key {
                            assert(key_map(before).contains_key(n[k].0));
                            let x = choose|x: int| 0 <= x < before.len() && before[x].0 == n[k].0;
                            assert(before[x].0 == n[k].0);
                        }
                    }
                }
                added = added + 1;
            }
            i += 1;
        }
        proof {
            assert(levels@.take(i as int) =~= levels@);
        }
        added
    }

    /// Track the LVNs that are thin enough, each under its own impulse id, keyed by its
    /// price in tenths of a point; a level with the same key is replaced.
    pub fn add_lvn_levels(&mut self, levels: &[LvnLevel])
        requires
            old(self).wf(),
            forall|i: int| 0 <= i < levels@.len() ==> (#[trigger] levels@[i]).volume * levels@[i].profile_buckets * 10_000 <= u128::MAX,
        ensures
            final(self).wf(),
            key_map(final(self)@.levels) == levels_added(key_map(old(self)@.levels), levels@, old(self)@.config.max_lvn_volume_ratio_bp, None),
            final(self)@ == (GeneratorModel { levels: final(self)@.levels, ..old(self)@ }),
    {
        let _ = self.add_levels(levels, None);
    }

    /// As `add_lvn_levels`, every level under the given impulse id. Returns how many
    /// LVNs were thin enough to be added.
    pub fn add_lvn_levels_with_impulse(&mut self, levels: &[LvnLevel], impulse_id: u128) -> (added: usize)
        requires
            old(self).wf(),
            forall|i: int| 0 <= i < levels@.len() ==> (#[trigger] levels@[i]).volume * levels@[i].profile_buckets * 10_000 <= u128::MAX,
        ensures
            final(self).wf(),
            key_map(final(self)@.levels) == levels_added(
                key_map(old(self)@.levels),
                levels@,
                old(self)@.config.max_lvn_volume_ratio_bp,
                Some(impulse_id),
            ),
            final(self)@ == (GeneratorModel { levels: final(self)@.levels, ..old(self)@ }),
            added == thin_count(levels@, old(self)@.config.max_lvn_volume_ratio_bp),
    {
        self.add_levels(levels, Some(impulse_id))
    }

    /// Stop tracking the levels of an impulse.
    pub fn clear_impulse_lvns(&mut self, impulse_id: u128)
        requires
            old(self).wf(),
        ensures
            final(self).wf(),
            final(self)@ == (GeneratorModel { levels: levels_without_impulse(old(self)@.levels, impulse_id), ..old(self)@ }),
    {
        let ghost orig = self@.levels;
        let mut i: usize = 0;
        let ghost mut j: int = 0;
        while i < self.tracked_levels.len()
            invariant
                0 <= i <= self@.levels.len(),
                0 <= j <= orig.len(),
                keys_sorted(self@.levels),
                keys_bounded(self@.levels),
                self@.levels.subrange(0, i as int) == levels_without_impulse(orig.subrange(0, j), impulse_id),
                self@.levels.subrange(i as int, self@.levels.len() as int) == orig.subrange(j, orig.len() as int),
                self@ == (GeneratorModel { levels: self@.levels, ..old(self)@ }),
                orig == old(self)@.levels,
            decreases self@.levels.len() - i,
        {
            let ghost before = self@.levels;
            proof {
                assert(before.subrange(i as int, before.len() as int).len() == orig.subrange(j, orig.len() as int).len());
                assert(j < orig.len());
                assert(orig.subrange(0, j + 1).drop_last() =~= orig.subrange(0, j));
                assert forall|k: int| i + 1 <= k < before.len() implies #[trigger] before[k] == orig[k - i + j] by {
                    assert(before.subrange(i as int, before.len() as int)[k - i] == orig.subrange(j, orig.len() as int)[k - i]);
                }
                assert(orig[j] == before[i as int]) by {
                    assert(before.subrange(i as int, before.len() as int)[0] == orig.subrange(j, orig.len() as int)[0]);
                }
            }
            let matches = match self.tracked_levels[i].1.impulse_id {
                Some(x) => x == impulse_id,
                None => false,
            };
            if matches {
                proof {
                    lemma_subsequence_sorted(before, i as int);
                }
                let _ = self.tracked_levels.remove(i);
                proof {
                    assert forall|k: int| 0 <= k < self@.levels.len() implies -922337203685477580 <= #[trigger] self@.levels[k].0 <= 922337203685477580 by {
                        if k < i {
                            assert(self@.levels[k] == before[k]);
                        } else {
                            assert(self@.levels[k] == before[k + 1]);
                        }
                    }
                    assert(self@.levels.subrange(0, i as int) =~= before.subrange(0, i as int));
                    assert(self@.levels.subrange(i as int, self@.levels.len() as int) =~= orig.subrange(j + 1, orig.len() as int));
                    j = j + 1;
                }
            } else {
                proof {
                    assert(before.subrange(0, i + 1) =~= before.subrange(0, i as int).push(before[i as int]));
                    assert(before.subrange(i + 1, before.len() as int) =~= orig.subrange(j + 1, orig.len() as int));
                }
                i += 1;
                proof {
                    j = j + 1;
                }
            }
        }
        proof {
            assert(self@.levels.subrange(0, i as int) =~= self@.levels);
            assert(orig.subrange(j, orig.len() as int).len() == 0);
            assert(orig.subrange(0, j) =~= orig);
        }
    }

    /// The impulse of the level with the given key.
    pub fn get_level_impulse_id(&self, level_key: i64) -> (r: Option<u128>)
        requires
            self.wf(),
        ensures
            r == (if key_map(self@.levels).contains_key(level_key) {
                key_map(self@.levels)[level_key].impulse_id
            } else {
                None
            }),
    {
        match find_key(&self.tracked_levels, level_key) {
            Some(i) => {
                proof {
                    lemma_key_map(self@.levels);
                }
                self.tracked_levels[i].1.impulse_id
            },
            None => None,
        }
    }

    /// Forget every level and start over (end of day).
    pub fn clear_levels(&mut self)
        ensures
            final(self).wf(),
            final(self)@ == (GeneratorModel {
                levels: Seq::empty(),
                bar_count: 0,
                last_trade_bar: None,
                last_close: None,
                ..old(self)@
            }),
    {
        self.tracked_levels.clear();
        self.bar_count = 0;
        self.last_trade_bar = None;
        self.last_close = None;
    }

    /// The configuration.
    pub fn config(&self) -> (r: &LvnRetestConfig)
        ensures
            *r == self@.config,
    {
        &self.config
    }

    /// Number of tracked levels.
    pub fn level_count(&self) -> (r: usize)
        ensures
            r == self@.levels.len(),
    {
        self.tracked_levels.len()
    }

    /// The tracked levels in key order.
    pub fn levels(&self) -> (r: &[(i64, TrackedLevel)])
        ensures
            r@ == self@.levels,
    {
        self.tracked_levels.as_slice()
    }

    fn step_level(level: &TrackedLevel, cfg: &LvnRetestConfig, bar_idx: usize, price: Price, prev: Price) -> (r: TrackedLevel)
        ensures
            r == level_step(*level, *cfg, bar_idx, price, prev),
    {
        let d = crate::units::price_distance(price, level.price);
        let tol = cfg.level_tolerance as i128;
        let mut l = *level;
        match level.state {
            LevelState::Untouched => {
                if d <= tol {
                    l.state = LevelState::Touched;
                    l.first_touch_bar = Some(bar_idx);
                    l.approached_from_above = Some(prev > level.price);
                }
            },
            LevelState::Touched => {
                if d > cfg.retest_distance as i128 {
                    l.state = LevelState::Armed;
                    l.armed_bar = Some(bar_idx);
                }
            },
            LevelState::Armed => {
                if d <= tol {
                    l.state = LevelState::Retesting;
                    l.approached_from_above = Some(prev > level.price);
                }
            },
            LevelState::Retesting => {
                if d > 2 * tol {
                    if d > cfg.retest_distance as i128 {
                        l.state = LevelState::Armed;
                    } else {
                        l.state = LevelState::Touched;
                    }
                }
            },
        }
        l
    }

    pub(crate) fn update_level_states(&mut self, bar_idx: usize, price: Price, prev: Price)
        requires
            old(self).wf(),
        ensures
            final(self).wf(),
            final(self)@ == (GeneratorModel {
                levels: levels_stepped(old(self)@.levels, old(self)@.config, bar_idx, price, prev),
                ..old(self)@
            }),
    {
        let mut i: usize = 0;
        let cfg = self.config;
        let ghost orig = self@.levels;
        while i < self.tracked_levels.len()
            invariant
                i <= self@.levels.len(),
                self@.levels.len() == orig.len(),
                cfg == old(self)@.config,
                self@ == (GeneratorModel { levels: self@.levels, ..old(self)@ }),
                orig == old(self)@.levels,
                forall|k: int| 0 <= k < i ==> #[trigger] self@.levels[k] == (orig[k].0, level_step(orig[k].1, cfg, bar_idx, price, prev)),
                forall|k: int| i <= k < orig.len() ==> #[trigger] self@.levels[k] == orig[k],
            decreases orig.len() - i,
        {
            let (key, level) = self.tracked_levels[i];
            let stepped = Self::step_level(&level, &cfg, bar_idx, price, prev);
            self.tracked_levels.set(i, (key, stepped));
            i += 1;
        }
        proof {
            assert(self@.levels =~= levels_stepped(orig, cfg, bar_idx, price, prev));
            assert forall|a: int, b: int| 0 <= a < b < self@.levels.len() implies self@.levels[a].0 < self@.levels[b].0 by {
                assert(self@.levels[a].0 == orig[a].0 && self@.levels[b].0 == orig[b].0);
            }
            assert forall|k: int| 0 <= k < self@.levels.len() implies -922337203685477580 <= #[trigger] self@.levels[k].0 <= 922337203685477580 by {
                assert(self@.levels[k].0 == orig[k].0);
            }
        }
    }

    pub(crate) fn trading_hours(&self, timestamp: i64) -> (r: bool)
        ensures
            r == in_trading_window(self@.config, timestamp),
    {
        match new_york_time(timestamp) {
            Some((h, m)) => {
                let now = h as u64 * 60 + m as u64;
                let start = self.config.trade_start_hour as u64 * 60 + self.config.trade_start_minute as u64;
                let end = self.config.trade_end_hour as u64 * 60 + self.config.trade_end_minute as u64;
                now >= start && now < end
            },
            None => false,
        }
    }

    pub(crate) fn find_signal(&self, close: Price, high: Price, low: Price, delta: i64, day: i64) -> (r: Option<usize>)
        ensures
            match r {
                Some(i) => first_signal(self@.levels, self@.config, close, high, low, delta, day as int) == Some(i as int)
                    && i < self@.levels.len(),
                None => first_signal(self@.levels, self@.config, close, high, low, delta, day as int) is None,
            },
    {
        let cfg = &self.config;
        let mut i: usize = 0;
        proof {
            lemma_first_signal(self@.levels, *cfg, close, high, low, delta, day as int);
        }
        while i < self.tracked_levels.len()
            invariant
                i <= self@.levels.len(),
                *cfg == self@.config,
                forall|j: int| 0 <= j < i ==> !level_signals(#[trigger] self@.levels[j].1, *cfg, close, high, low, delta, day as int),
            decreases self@.levels.len() - i,
        {
            let level = &self.tracked_levels[i].1;
            let mut ok = level.state == LevelState::Retesting;
            if ok && cfg.same_day_only && level.lvn_date != day {
                ok = false;
            }
            if ok && crate::units::price_distance(close, level.price) > cfg.level_tolerance as i128 {
                ok = false;
            }
            if ok {
                let with_trend = match level.impulse_direction {
                    ImpulseDirection::Up => delta > 0,
                    ImpulseDirection::Down => delta < 0,
                };
                if !with_trend {
                    ok = false;
                }
            }
            if ok && (high as i128 - low as i128) > cfg.max_range_for_absorption as i128 {
                ok = false;
            }
            if ok {
                proof {
                    lemma_first_signal_is(self@.levels, *cfg, close, high, low, delta, day as int, i as int);
                }
                return Some(i);
            }
            i += 1;
        }
        proof {
            lemma_first_signal_none(self@.levels, *cfg, close, high, low, delta, day as int);
        }
        None
    }

    /// Marks the level at index `i` as traded at bar `bar_idx`: it records the bar and
    /// goes back to touched.
    pub(crate) fn mark_level_traded(&mut self, i: usize, bar_idx: usize)
        requires
            old(self).wf(),
            i < old(self)@.levels.len(),
        ensures
            final(self).wf(),
            final(self)@ == (GeneratorModel {
                levels: old(self)@.levels.update(
                    i as int,
                    (
                        old(self)@.levels[i as int].0,
                        TrackedLevel { last_traded_bar: Some(bar_idx), state: LevelState::Touched, ..old(self)@.levels[i as int].1 },
                    ),
                ),
                ..old(self)@
            }),
    {
        let (key, level) = self.tracked_levels[i];
        let mut traded = level;
        traded.last_traded_bar = Some(bar_idx);
        traded.state = LevelState::Touched;
        let ghost before = self@.levels;
        self.tracked_levels.set(i, (key, traded));
        proof {
            assert forall|a: int, b: int| 0 <= a < b < self@.levels.len() implies self@.levels[a].0 < self@.levels[b].0 by {
                assert(self@.levels[a].0 == before[a].0 && self@.levels[b].0 == before[b].0);
            }
            assert forall|k: int| 0 <= k < self@.levels.len() implies -922337203685477580 <= #[trigger] self@.levels[k].0 <= 922337203685477580 by {
                assert(self@.levels[k].0 == before[k].0);
            }
        }
    }

    /// Process a bar (see `GeneratorModel::after_bar`). The market state of the bar,
    /// imbalanced (trending) or not, is given by the caller.
    pub fn process_bar(&mut self, bar: &Bar, market_imbalanced: bool) -> (r: Option<LvnSignal>)
        requires
            old(self).wf(),
            old(self)@.bar_count < usize::MAX,
        ensures
            final(self).wf(),
            (final(self)@, r) == old(self)@.after_bar(bar.timestamp, bar.close, bar.high, bar.low, bar.delta, market_imbalanced),
            old(self)@.last_close is None ==> r is None,
            old(self)@.levels.len() == 0 ==> r is None,
            r matches Some(s) ==> signal_fits_bar(
                s,
                old(self)@.config,
                (bar.timestamp, bar.close, bar.high, bar.low, bar.delta, market_imbalanced),
            ),
            r is Some ==> final(self)@.last_trade_bar == Some(final(self)@.bar_count as usize),
            r is Some ==> (old(self)@.last_trade_bar matches Some(l) ==> final(self)@.bar_count >= l
                + old(self)@.config.cooldown_bars),
            r is None ==> final(self)@.last_trade_bar == old(self)@.last_trade_bar,
    {
        proof {
            lemma_generator_step(
                old(self)@,
                (bar.timestamp, bar.close, bar.high, bar.low, bar.delta, market_imbalanced),
            );
        }
        self.bar_count = self.bar_count + 1;
        let bar_idx = self.bar_count;
        let prev = match self.last_close {
            Some(p) => p,
            None => {
                self.last_close = Some(bar.close);
                return None;
            },
        };
        self.last_close = Some(bar.close);
        self.update_level_states(bar_idx, bar.close, prev);
        if let Some(last) = self.last_trade_bar {
            if (bar_idx as u128) < last as u128 + self.config.cooldown_bars as u128 {
                return None;
            }
        }
        if self.config.rth_only && !self.trading_hours(bar.timestamp) {
            return None;
        }
        let abs_delta: i128 = if bar.delta < 0 { -(bar.delta as i128) } else { bar.delta as i128 };
        if !market_imbalanced || abs_delta < self.config.min_delta_for_absorption as i128 {
            return None;
        }
        let day = utc_day(bar.timestamp);
        match self.find_signal(bar.close, bar.high, bar.low, bar.delta, day) {
            None => None,
            Some(i) => {
                let (key, level) = self.tracked_levels[i];
                if let Some(last) = level.last_traded_bar {
                    if (bar_idx as u128) < last as u128 + self.config.level_cooldown_bars as u128 {
                        return None;
                    }
                }
                self.last_trade_bar = Some(bar_idx);
                let mut traded = level;
                traded.last_traded_bar = Some(bar_idx);
                traded.state = LevelState::Touched;
                let ghost before = self@.levels;
                proof {
                    lemma_key_map_set(self@.levels, i as int, traded);
                    assert(-922337203685477580 <= before[i as int].0 <= 922337203685477580);
                }
                self.tracked_levels.set(i, (key, traded));
                proof {
                    assert forall|k: int| 0 <= k < self@.levels.len() implies -922337203685477580 <= #[trigger] self@.levels[k].0 <= 922337203685477580 by {
                        assert(self@.levels[k].0 == before[k].0);
                    }
                }
                Some(LvnSignal {
                    direction: match level.impulse_direction {
                        ImpulseDirection::Up => Direction::Long,
                        ImpulseDirection::Down => Direction::Short,
                    },
                    price: bar.close,
                    level_price: key * 10,
                    delta: bar.delta,
                })
            },
        }
    }
}

pub proof fn lemma_first_signal_is(s: Seq<(i64, TrackedLevel)>, cfg: LvnRetestConfig, close: Price, high: Price, low: Price, delta: i64, day: int, i: int)
    requires
        0 <= i < s.len(),
        level_signals(s[i].1, cfg, close, high, low, delta, day),
        forall|j: int| 0 <= j < i ==> !level_signals(#[trigger] s[j].1, cfg, close, high, low, delta, day),
    ensures
        first_signal(s, cfg, close, high, low, delta, day) == Some(i),
    decreases s.len(),
{
    if i < s.len() - 1 {
        assert(forall|j: int| 0 <= j < s.len() - 1 ==> s.drop_last()[j] == s[j]);
        lemma_first_signal_is(s.drop_last(), cfg, close, high, low, delta, day, i);
    } else {
        assert(forall|j: int| 0 <= j < s.len() - 1 ==> s.drop_last()[j] == s[j]);
        lemma_first_signal_none(s.drop_last(), cfg, close, high, low, delta, day);
    }
}

pub proof fn lemma_first_signal_none(s: Seq<(i64, TrackedLevel)>, cfg: LvnRetestConfig, close: Price, high: Price, low: Price, delta: i64, day: int)
    requires
        forall|j: int| 0 <= j < s.len() ==> !level_signals(#[trigger] s[j].1, cfg, close, high, low, delta, day),
    ensures
        first_signal(s, cfg, close, high, low, delta, day) is None,
    decreases s.len(),
{
    if s.len() > 0 {
        assert(forall|j: int| 0 <= j < s.len() - 1 ==> s.drop_last()[j] == s[j]);
        lemma_first_signal_none(s.drop_last(), cfg, close, high, low, delta, day);
    }
}

/// A level moves through its states by the distance of the close from it: an untouched
/// level is touched exactly when the close is within the tolerance; a touched one is
/// armed exactly when the close moved more than the retest distance away; an armed one
/// is retesting exactly when the close came back within the tolerance; a retesting one
/// falls back (to armed beyond the retest distance, else to touched) exactly when the
/// close moved more than twice the tolerance away.
pub proof fn lemma_level_step_distances(l: TrackedLevel, cfg: LvnRetestConfig, bar_idx: usize, price: Price, prev: Price)
    ensures
        ({
            let d = abs(price - l.price);
            let n = level_step(l, cfg, bar_idx, price, prev);
            &&& l.state == LevelState::Untouched ==> (n.state == LevelState::Touched <==> d <= cfg.level_tolerance) && (n.state
                == LevelState::Touched || n.state == LevelState::Untouched)
            &&& l.state == LevelState::Touched ==> (n.state == LevelState::Armed <==> d > cfg.retest_distance) && (n.state
                == LevelState::Armed || n.state == LevelState::Touched)
            &&& l.state == LevelState::Armed ==> (n.state == LevelState::Retesting <==> d <= cfg.level_tolerance) && (n.state
                == LevelState::Retesting || n.state == LevelState::Armed)
            &&& l.state == LevelState::Retesting ==> (n.state != LevelState::Retesting <==> d > 2 * cfg.level_tolerance)
                && (n.state == LevelState::Armed <==> d > 2 * cfg.level_tolerance && d > cfg.retest_distance)
            &&& n.price == l.price
        }),
{
}

} // verus!
