//! The decisions of the live trading loops: decoding exchange trades, tracking the
//! regular session's range for the evening's levels, routing the trader's actions to
//! broker commands, planning Rithmic bracket orders in ticks, and tallying a session.

use vstd::prelude::*;

use crate::pipeline::bars::{day_of, utc_day};
use crate::pipeline::live_trader::{ExitCause, TradeAction};
use crate::pipeline::lvn_retest::Direction;
use crate::pipeline::state_machine::LiveDailyLevels;
use crate::pipeline::trades::{decimal, push_decimal_u64};
use crate::units::{abs, fits_i64, trunc_div, Price};

verus! {

/// Raw exchange prices are in units of 1e-9 point: this many make one price unit.
pub const RAW_PER_PRICE_UNIT: i64 = 10_000_000;

/// The price of a raw fixed-point exchange price (1e-9 point), rounded toward zero to
/// price units.
pub fn price_from_raw(raw: i64) -> (r: Price)
    ensures
        r == trunc_div(raw as int, RAW_PER_PRICE_UNIT as int),
{
    raw / RAW_PER_PRICE_UNIT
}

/// Milliseconds since the Unix epoch of an exchange timestamp in nanoseconds.
pub fn millis_from_nanos(nanos: u64) -> (r: i64)
    ensures
        r == nanos / 1_000_000,
{
    (nanos / 1_000_000) as i64
}

/// Whether an exchange trade's side byte marks a buyer aggressor: everything but a
/// bid-side trade (`B` or `b`) counts as a buy.
pub fn is_buy_side(side: u8) -> (r: bool)
    ensures
        r == !(side == 66 || side == 98),
{
    !(side == 66 || side == 98)
}

/// Whether a Rithmic aggressor code marks a buy (code 1; a missing code counts as a buy).
pub fn is_buy_aggressor(aggressor: Option<i32>) -> (r: bool)
    ensures
        r == (match aggressor {
            Some(a) => a == 1,
            None => true,
        }),
{
    match aggressor {
        Some(a) => a == 1,
        None => true,
    }
}

/// The UTC hour of day of a timestamp in milliseconds.
pub open spec fn utc_hour(ts_millis: int) -> int {
    (ts_millis / 3_600_000) % 24
}

/// The approximate Eastern hour of a UTC hour: five hours earlier, wrapping at midnight.
pub open spec fn eastern_hour_of(utc: int) -> int {
    (utc + 24 - 5) % 24
}

/// The approximate Eastern hour (UTC minus five hours) of a timestamp in milliseconds.
pub fn eastern_hour(ts_millis: i64) -> (r: u32)
    requires
        ts_millis >= 0,
    ensures
        r == eastern_hour_of(utc_hour(ts_millis as int)),
        r < 24,
{
    let utc = ((ts_millis as u64 / 3_600_000) % 24) as u32;
    (utc + 24 - 5) % 24
}

/// Whether an Eastern hour lies in the regular session tracked for the evening levels
/// (9:00 to 16:00).
pub open spec fn in_regular_hours(hour: int) -> bool {
    9 <= hour < 16
}

/// The levels for the evening session from the regular session's range: prior day and
/// overnight high and low are the range's, and the value area is the range without its
/// top and bottom 30% (30% of the range rounded down to a price unit).
pub open spec fn evening_levels_of(high: int, low: int, day: int) -> LiveDailyLevels {
    LiveDailyLevels {
        date: day as i64,
        pdh: high as i64,
        pdl: low as i64,
        onh: high as i64,
        onl: low as i64,
        vah: (high - (high - low) * 3 / 10) as i64,
        val: (low + (high - low) * 3 / 10) as i64,
        session_high: high as i64,
        session_low: low as i64,
    }
}

/// What the session tracker holds.
pub struct SessionModel {
    /// High and low of the regular session so far, if it had trades
    pub range: Option<(Price, Price)>,
    /// Whether the evening levels were already set
    pub evening_set: bool,
}

/// The regular session's range after a trade at `price` in Eastern hour `hour`.
pub open spec fn range_after(range: Option<(Price, Price)>, hour: int, price: Price) -> Option<(Price, Price)> {
    if in_regular_hours(hour) {
        match range {
            None => Some((price, price)),
            Some((hi, lo)) => Some((if price > hi { price } else { hi }, if price < lo { price } else { lo })),
        }
    } else {
        range
    }
}

/// The tracker and the evening levels after a trade: the range takes the trade if it
/// falls in the regular session; at 17:00 Eastern, once, the range gives the evening
/// levels.
pub open spec fn session_after(s: SessionModel, ts_millis: int, price: Price) -> (SessionModel, Option<LiveDailyLevels>) {
    let hour = eastern_hour_of(utc_hour(ts_millis));
    let range = range_after(s.range, hour, price);
    match range {
        Some((hi, lo)) if hour == 17 && !s.evening_set => (
            SessionModel { range, evening_set: true },
            Some(evening_levels_of(hi as int, lo as int, day_of(ts_millis))),
        ),
        _ => (SessionModel { range, evening_set: s.evening_set }, None),
    }
}

/// Tracks the regular session's range through the day's trades and gives the levels for
/// the evening session.
pub struct SessionTracker {
    range: Option<(Price, Price)>,
    evening_set: bool,
}

impl View for SessionTracker {
    type V = SessionModel;

    closed spec fn view(&self) -> SessionModel {
        SessionModel { range: self.range, evening_set: self.evening_set }
    }
}

impl SessionTracker {
    /// The range is invariantly ordered.
    pub open spec fn wf(&self) -> bool {
        self@.range matches Some((hi, lo)) ==> lo <= hi
    }

    /// A tracker that has seen no trade.
    pub fn new() -> (r: SessionTracker)
        ensures
            r.wf(),
            r@ == (SessionModel { range: None, evening_set: false }),
    {
        SessionTracker { range: None, evening_set: false }
    }

    /// Takes a trade (see `session_after`); gives the evening levels when they are due.
    pub fn on_trade(&mut self, ts_millis: i64, price: Price) -> (r: Option<LiveDailyLevels>)
        requires
            old(self).wf(),
            ts_millis >= 0,
        ensures
            final(self).wf(),
            (final(self)@, r) == session_after(old(self)@, ts_millis as int, price),
    {
        let hour = eastern_hour(ts_millis);
        if 9 <= hour && hour < 16 {
            self.range = match self.range {
                None => Some((price, price)),
                Some((hi, lo)) => Some((if price > hi { price } else { hi }, if price < lo { price } else { lo })),
            };
        }
        if hour == 17 && !self.evening_set {
            if let Some((hi, lo)) = self.range {
                self.evening_set = true;
                let third = ((hi as i128 - lo as i128) * 3) / 10;
                proof {
                    assert(0 <= third <= hi - lo) by (nonlinear_arith)
                        requires third == (hi - lo) * 3 / 10, lo <= hi;
                }
                return Some(
                    LiveDailyLevels {
                        date: utc_day(ts_millis),
                        pdh: hi,
                        pdl: lo,
                        onh: hi,
                        onl: lo,
                        vah: (hi as i128 - third) as i64,
                        val: (lo as i128 + third) as i64,
                        session_high: hi,
                        session_low: lo,
                    },
                );
            }
        }
        None
    }
}

/// The evening levels come at most once, at 17:00 Eastern, and their value area lies
/// within the session's range with its low at or below its high.
pub proof fn lemma_evening_levels_once(s: SessionModel, ts_millis: int, price: Price)
    requires
        s.range matches Some((hi, lo)) ==> lo <= hi,
    ensures
        s.evening_set ==> session_after(s, ts_millis, price).1 is None,
        session_after(s, ts_millis, price).1 is Some ==> !s.evening_set && eastern_hour_of(utc_hour(ts_millis)) == 17,
        session_after(s, ts_millis, price).0.evening_set == (s.evening_set || session_after(s, ts_millis, price).1 is Some),
        session_after(s, ts_millis, price).1 matches Some(l) ==> l.pdl <= l.val <= l.vah <= l.pdh,
{
    let hour = eastern_hour_of(utc_hour(ts_millis));
    let range = range_after(s.range, hour, price);
    if let Some((hi, lo)) = range {
        assert(lo <= hi);
        let r = hi - lo;
        assert(0 <= r * 3 / 10 && 2 * (r * 3 / 10) <= r) by (nonlinear_arith)
            requires r >= 0;
    }
}

/// An order command for the broker.
#[derive(Debug, Clone, Copy, PartialEq, Eq, Structural)]
pub enum BrokerCommand {
    /// Enter at market with a stop and a target
    SubmitBracket { direction: Direction, contracts: i32, entry: Price, stop: Price, target: Price },
    /// Move the stop of the open bracket
    ModifyStop { new_stop: Price, entry: Price, direction: Direction },
    /// Forget the orders of the closed position
    ClearOrders,
    /// Cancel everything and exit the position
    FlattenAll,
}

/// The position the live loop believes open.
#[derive(Debug, Clone, Copy, PartialEq, Eq, Structural)]
pub struct OrderRouter {
    pub entry_price: Option<Price>,
    pub direction: Option<Direction>,
}

/// The router after an action, the command it sends, and whether the loop stops: an
/// entry sends a bracket and remembers the position, an exit clears the orders and the
/// position, a stop update moves the stop of a known position, a flatten cancels
/// everything and stops the loop.
pub open spec fn route(router: OrderRouter, action: TradeAction) -> (OrderRouter, Option<BrokerCommand>, bool) {
    let flat = OrderRouter { entry_price: None, direction: None };
    match action {
        TradeAction::Enter { direction, price, stop, target, contracts } => (
            OrderRouter { entry_price: Some(price), direction: Some(direction) },
            Some(BrokerCommand::SubmitBracket { direction, contracts, entry: price, stop, target }),
            false,
        ),
        TradeAction::Exit { .. } => (flat, Some(BrokerCommand::ClearOrders), false),
        TradeAction::UpdateStop { new_stop } => match (router.entry_price, router.direction) {
            (Some(entry), Some(direction)) => (router, Some(BrokerCommand::ModifyStop { new_stop, entry, direction }), false),
            _ => (router, None, false),
        },
        TradeAction::FlattenAll => (flat, Some(BrokerCommand::FlattenAll), true),
        TradeAction::SignalPending => (router, None, false),
    }
}

impl OrderRouter {
    /// No position.
    pub fn new() -> (r: OrderRouter)
        ensures
            r == (OrderRouter { entry_price: None, direction: None }),
    {
        OrderRouter { entry_price: None, direction: None }
    }

    /// Routes an action of the trader (see `route`); true when the loop must stop.
    pub fn on_action(&mut self, action: &TradeAction) -> (r: (Option<BrokerCommand>, bool))
        ensures
            (*final(self), r.0, r.1) == route(*old(self), *action),
    {
        match action {
            TradeAction::Enter { direction, price, stop, target, contracts } => {
                self.entry_price = Some(*price);
                self.direction = Some(*direction);
                (
                    Some(
                        BrokerCommand::SubmitBracket {
                            direction: *direction,
                            contracts: *contracts,
                            entry: *price,
                            stop: *stop,
                            target: *target,
                        },
                    ),
                    false,
                )
            },
            TradeAction::Exit { .. } => {
                self.entry_price = None;
                self.direction = None;
                (Some(BrokerCommand::ClearOrders), false)
            },
            TradeAction::UpdateStop { new_stop } => match (self.entry_price, self.direction) {
                (Some(entry), Some(direction)) => (Some(BrokerCommand::ModifyStop { new_stop: *new_stop, entry, direction }), false),
                _ => (None, false),
            },
            TradeAction::FlattenAll => {
                self.entry_price = None;
                self.direction = None;
                (Some(BrokerCommand::FlattenAll), true)
            },
            TradeAction::SignalPending => (None, false),
        }
    }
}

/// `price / tick_size` rounded to the nearest integer (halves away from zero), then
/// saturated to the `i32` range.
pub open spec fn ticks_of(price: int, tick_size: int) -> int {
    let n = abs(price);
    let q = (2 * n + tick_size) / (2 * tick_size);
    let t = if price >= 0 { q } else { -q };
    if t > i32::MAX {
        i32::MAX as int
    } else if t < i32::MIN {
        i32::MIN as int
    } else {
        t
    }
}

/// A price distance in whole ticks (see `ticks_of`).
pub fn price_to_ticks(price: Price, tick_size: Price) -> (r: i32)
    requires
        0 < tick_size <= 1_000_000_000,
    ensures
        r == ticks_of(price as int, tick_size as int),
{
    let n: i128 = if price < 0 { -(price as i128) } else { price as i128 };
    let q: i128 = (2 * n + tick_size as i128) / (2 * tick_size as i128);
    proof {
        assert(q <= n) by (nonlinear_arith)
            requires q == (2 * n + tick_size) / (2 * tick_size), n >= 0, tick_size >= 1;
    }
    let t: i128 = if price >= 0 { q } else { -q };
    if t > i32::MAX as i128 {
        i32::MAX
    } else if t < i32::MIN as i128 {
        i32::MIN
    } else {
        t as i32
    }
}

/// A Rithmic bracket order: market entry with stop and target distances in ticks.
#[derive(Debug)]
pub struct BracketPlan {
    /// Local order id, `LVN_` and the order number
    pub local_id: String,
    /// 1 to buy, 2 to sell
    pub action: i32,
    /// Order type: 1 limit, 2 market
    pub order_type: i32,
    /// Limit price; none for a market order
    pub price: Option<Price>,
    /// Order duration: 2 for a day order
    pub duration: i32,
    pub qty: i32,
    pub stop_ticks: i32,
    pub profit_ticks: i32,
    pub symbol: String,
    pub exchange: String,
}

/// Rithmic's code of a market order.
pub const MARKET_ORDER: i32 = 2;

/// Rithmic's code of a day order.
pub const DAY_ORDER: i32 = 2;

/// Bracket orders for Rithmic: numbers them, and converts stops and targets to ticks.
#[derive(Debug)]
pub struct OrderManager {
    pub symbol: String,
    pub exchange: String,
    /// Tick size in price units
    pub tick_size: Price,
    pub order_counter: u64,
    /// The open bracket's basket id, once the broker gave it
    pub current_bracket_id: Option<String>,
    pub current_stop_id: Option<String>,
}

impl OrderManager {
    /// An order manager with no orders.
    pub fn new(symbol: String, exchange: String, tick_size: Price) -> (r: OrderManager)
        ensures
            r.symbol == symbol,
            r.exchange == exchange,
            r.tick_size == tick_size,
            r.order_counter == 0,
            r.current_bracket_id is None,
            r.current_stop_id is None,
    {
        OrderManager { symbol, exchange, tick_size, order_counter: 0, current_bracket_id: None, current_stop_id: None }
    }

    /// The next local order id: `LVN_` followed by the incremented counter.
    fn next_order_id(&mut self) -> (r: String)
        requires
            old(self).order_counter < u64::MAX,
        ensures
            final(self).order_counter == old(self).order_counter + 1,
            r@ == seq!['L', 'V', 'N', '_'] + decimal(final(self).order_counter as nat),
            final(self).symbol == old(self).symbol,
            final(self).exchange == old(self).exchange,
            final(self).tick_size == old(self).tick_size,
            final(self).current_bracket_id == old(self).current_bracket_id,
            final(self).current_stop_id == old(self).current_stop_id,
    {
        self.order_counter = self.order_counter + 1;
        let mut id = String::new();
        proof {
            reveal_strlit("LVN_");
        }
        id.append("LVN_");
        push_decimal_u64(&mut id, self.order_counter);
        id
    }

    /// The bracket for an entry: a new local id, buy for long and sell for short, a
    /// market day order with no price on the manager's symbol and exchange, and the
    /// distances from entry to stop and to target in ticks.
    pub fn bracket_plan(&mut self, direction: Direction, contracts: i32, entry: Price, stop: Price, target: Price) -> (r: BracketPlan)
        requires
            0 < old(self).tick_size <= 1_000_000_000,
            old(self).order_counter < u64::MAX,
            fits_i64(abs(entry - stop)),
            fits_i64(abs(target - entry)),
        ensures
            final(self).order_counter == old(self).order_counter + 1,
            r.local_id@ == seq!['L', 'V', 'N', '_'] + decimal(final(self).order_counter as nat),
            r.action == (if direction == Direction::Long { 1i32 } else { 2i32 }),
            r.order_type == MARKET_ORDER,
            r.price is None,
            r.duration == DAY_ORDER,
            r.qty == contracts,
            r.stop_ticks == ticks_of(abs(entry - stop), old(self).tick_size as int),
            r.profit_ticks == ticks_of(abs(target - entry), old(self).tick_size as int),
            r.symbol@ == old(self).symbol@,
            r.exchange@ == old(self).exchange@,
            final(self).symbol == old(self).symbol,
            final(self).exchange == old(self).exchange,
            final(self).tick_size == old(self).tick_size,
            final(self).current_bracket_id == old(self).current_bracket_id,
            final(self).current_stop_id == old(self).current_stop_id,
    {
        let local_id = self.next_order_id();
        let stop_distance: i64 = if entry >= stop { entry - stop } else { stop - entry };
        let profit_distance: i64 = if target >= entry { target - entry } else { entry - target };
        let stop_ticks = price_to_ticks(stop_distance, self.tick_size);
        let profit_ticks = price_to_ticks(profit_distance, self.tick_size);
        let action: i32 = match direction {
            Direction::Long => 1,
            Direction::Short => 2,
        };
        BracketPlan {
            local_id,
            action,
            order_type: MARKET_ORDER,
            price: None,
            duration: DAY_ORDER,
            qty: contracts,
            stop_ticks,
            profit_ticks,
            symbol: self.symbol.clone(),
            exchange: self.exchange.clone(),
        }
    }

    /// Remembers the basket id that the broker gave the bracket.
    pub fn record_bracket_id(&mut self, basket_id: String)
        ensures
            final(self).current_bracket_id == Some(basket_id),
            final(self).current_stop_id == old(self).current_stop_id,
            final(self).order_counter == old(self).order_counter,
            final(self).tick_size == old(self).tick_size,
    {
        self.current_bracket_id = Some(basket_id);
    }

    /// The stop's new distance from entry in ticks, when there is a bracket to adjust:
    /// below entry for a long, above it for a short.
    pub fn stop_adjustment(&self, new_stop: Price, entry: Price, direction: Direction) -> (r: Option<i32>)
        requires
            0 < self.tick_size <= 1_000_000_000,
            fits_i64(abs(entry - new_stop)),
        ensures
            self.current_bracket_id is None ==> r is None,
            self.current_bracket_id is Some ==> r == Some(ticks_of(
                if direction == Direction::Long { entry - new_stop } else { new_stop - entry },
                self.tick_size as int,
            ) as i32),
    {
        if self.current_bracket_id.is_none() {
            return None;
        }
        let distance: i64 = match direction {
            Direction::Long => entry - new_stop,
            Direction::Short => new_stop - entry,
        };
        Some(price_to_ticks(distance, self.tick_size))
    }

    /// Forgets the orders (the position was closed or flattened).
    pub fn clear_orders(&mut self)
        ensures
            final(self).current_bracket_id is None,
            final(self).current_stop_id is None,
            final(self).order_counter == old(self).order_counter,
            final(self).tick_size == old(self).tick_size,
            final(self).symbol == old(self).symbol,
            final(self).exchange == old(self).exchange,
    {
        self.current_bracket_id = None;
        self.current_stop_id = None;
    }
}

/// Counts and P&L of a trading session.
#[derive(Debug, Clone, Copy, PartialEq, Eq, Structural)]
pub struct SessionTally {
    pub signals: u64,
    pub wins: u64,
    pub losses: u64,
    /// Sum of the exits' P&L, price units
    pub total_pnl: i64,
}

impl SessionTally {
    /// Nothing yet.
    pub fn new() -> (r: SessionTally)
        ensures
            r == (SessionTally { signals: 0, wins: 0, losses: 0, total_pnl: 0 }),
    {
        SessionTally { signals: 0, wins: 0, losses: 0, total_pnl: 0 }
    }

    /// Counts an entry signal.
    pub fn record_signal(&mut self)
        requires
            old(self).signals < u64::MAX,
        ensures
            *final(self) == (SessionTally { signals: (old(self).signals + 1) as u64, ..*old(self) }),
    {
        self.signals = self.signals + 1;
    }

    /// Counts an exit: a win when it gained, a loss otherwise; its P&L adds to the total.
    pub fn record_exit(&mut self, pnl: i64)
        requires
            old(self).wins < u64::MAX,
            old(self).losses < u64::MAX,
            fits_i64(old(self).total_pnl + pnl),
        ensures
            final(self).total_pnl == old(self).total_pnl + pnl,
            final(self).signals == old(self).signals,
            pnl > 0 ==> final(self).wins == old(self).wins + 1 && final(self).losses == old(self).losses,
            pnl <= 0 ==> final(self).losses == old(self).losses + 1 && final(self).wins == old(self).wins,
    {
        self.total_pnl = self.total_pnl + pnl;
        if pnl > 0 {
            self.wins = self.wins + 1;
        } else {
            self.losses = self.losses + 1;
        }
    }
}


/// Kind of a signal shown on the chart.
#[derive(Debug, Clone, Copy, PartialEq, Eq, Structural)]
pub enum ChartSignalKind {
    Entry,
    Exit,
    StopUpdate,
    Flatten,
}

/// A trading signal for the chart. Prices in price units, the timestamp in milliseconds.
#[derive(Debug, Clone, Copy, PartialEq, Eq, Structural)]
pub struct ChartSignal {
    pub timestamp: u64,
    pub kind: ChartSignalKind,
    /// The position's direction (none for stop updates and flattening)
    pub direction: Option<Direction>,
    pub price: Price,
    pub stop: Option<Price>,
    pub target: Option<Price>,
    pub pnl_points: Option<i64>,
    pub exit_cause: Option<ExitCause>,
    /// Whether the signal comes from flattening at the loss limit
    pub flatten: bool,
    /// Where the chart places it: the bar's close
    pub x: Price,
}

/// The chart signal of a trader's action at `timestamp`, with the bar's close: entries
/// carry their stop and target, exits their P&L and cause, stop updates their new stop,
/// flattening happens at the close; a pending signal is not shown.
pub open spec fn chart_signal_of(action: TradeAction, timestamp: u64, close: Price) -> Option<ChartSignal> {
    match action {
        TradeAction::Enter { direction, price, stop, target, .. } => Some(ChartSignal {
            timestamp,
            kind: ChartSignalKind::Entry,
            direction: Some(direction),
            price,
            stop: Some(stop),
            target: Some(target),
            pnl_points: None,
            exit_cause: None,
            flatten: false,
            x: close,
        }),
        TradeAction::Exit { direction, price, pnl_points, cause } => Some(ChartSignal {
            timestamp,
            kind: ChartSignalKind::Exit,
            direction: Some(direction),
            price,
            stop: None,
            target: None,
            pnl_points: Some(pnl_points),
            exit_cause: Some(cause),
            flatten: false,
            x: close,
        }),
        TradeAction::UpdateStop { new_stop } => Some(ChartSignal {
            timestamp,
            kind: ChartSignalKind::StopUpdate,
            direction: None,
            price: new_stop,
            stop: Some(new_stop),
            target: None,
            pnl_points: None,
            exit_cause: None,
            flatten: false,
            x: close,
        }),
        TradeAction::FlattenAll => Some(ChartSignal {
            timestamp,
            kind: ChartSignalKind::Flatten,
            direction: None,
            price: close,
            stop: None,
            target: None,
            pnl_points: None,
            exit_cause: None,
            flatten: true,
            x: close,
        }),
        TradeAction::SignalPending => None,
    }
}

/// The chart signal of a trader's action (see `chart_signal_of`).
pub fn chart_signal(action: &TradeAction, timestamp: u64, close: Price) -> (r: Option<ChartSignal>)
    ensures
        r == chart_signal_of(*action, timestamp, close),
{
    match action {
        TradeAction::Enter { direction, price, stop, target, .. } => Some(ChartSignal {
            timestamp,
            kind: ChartSignalKind::Entry,
            direction: Some(*direction),
            price: *price,
            stop: Some(*stop),
            target: Some(*target),
            pnl_points: None,
            exit_cause: None,
            flatten: false,
            x: close,
        }),
        TradeAction::Exit { direction, price, pnl_points, cause } => Some(ChartSignal {
            timestamp,
            kind: ChartSignalKind::Exit,
            direction: Some(*direction),
            price: *price,
            stop: None,
            target: None,
            pnl_points: Some(*pnl_points),
            exit_cause: Some(*cause),
            flatten: false,
            x: close,
        }),
        TradeAction::UpdateStop { new_stop } => Some(ChartSignal {
            timestamp,
            kind: ChartSignalKind::StopUpdate,
            direction: None,
            price: *new_stop,
            stop: Some(*new_stop),
            target: None,
            pnl_points: None,
            exit_cause: None,
            flatten: false,
            x: close,
        }),
        TradeAction::FlattenAll => Some(ChartSignal {
            timestamp,
            kind: ChartSignalKind::Flatten,
            direction: None,
            price: close,
            stop: None,
            target: None,
            pnl_points: None,
            exit_cause: None,
            flatten: true,
            x: close,
        }),
        TradeAction::SignalPending => None,
    }
}

/// The symbol of a streamed trade: the first subscribed symbol, `UNKNOWN` without any.
pub fn stream_symbol(symbols: &Vec<String>) -> (r: String)
    ensures
        symbols@.len() > 0 ==> r@ == symbols@[0]@,
        symbols@.len() == 0 ==> r@ == "UNKNOWN"@,
{
    if symbols.len() > 0 {
        symbols[0].clone()
    } else {
        "UNKNOWN".to_owned()
    }
}

/// Whether a trade is large enough for the chart's buffer.
pub fn meets_min_size(size: u32, min_size: u32) -> (r: bool)
    ensures
        r == (size >= min_size),
{
    size >= min_size
}

/// A distance in ticks is the nearest whole number of ticks, halves away from zero, and
/// the same on either side of zero: within the `i32` range, `ticks * tick_size` lies
/// within half a tick of the distance, and a negated distance gives the negated ticks.
pub proof fn lemma_ticks_nearest(price: int, tick_size: int)
    requires
        tick_size > 0,
    ensures
        i32::MIN < ticks_of(price, tick_size) < i32::MAX ==> 2 * abs(price - ticks_of(price, tick_size) * tick_size)
            <= tick_size,
        -i32::MAX < ticks_of(price, tick_size) < i32::MAX ==> ticks_of(-price, tick_size) == -ticks_of(price, tick_size),
{
    let n = abs(price);
    let q = (2 * n + tick_size) / (2 * tick_size);
    assert(q * (2 * tick_size) <= 2 * n + tick_size < q * (2 * tick_size) + 2 * tick_size) by (nonlinear_arith)
        requires q == (2 * n + tick_size) / (2 * tick_size), tick_size > 0, n >= 0;
    assert(2 * abs(n - q * tick_size) <= tick_size) by (nonlinear_arith)
        requires q * (2 * tick_size) <= 2 * n + tick_size < q * (2 * tick_size) + 2 * tick_size, tick_size > 0;
    assert(abs(-price) == n);
    let t = if price >= 0 { q } else { -q };
    assert(q >= 0) by (nonlinear_arith)
        requires q == (2 * n + tick_size) / (2 * tick_size), tick_size > 0, n >= 0;
    if i32::MIN < t < i32::MAX {
        assert(ticks_of(price, tick_size) == t);
        assert(abs(price - t * tick_size) == abs(n - q * tick_size)) by (nonlinear_arith)
            requires t == (if price >= 0 { q } else { -q }), n == abs(price);
    }
    let t2 = if -price >= 0 { q } else { -q };
    if n == 0 {
        assert(q == 0) by (nonlinear_arith)
            requires q == (2 * n + tick_size) / (2 * tick_size), tick_size > 0, n == 0;
    }
    if -i32::MAX < ticks_of(price, tick_size) < i32::MAX {
        assert(ticks_of(price, tick_size) == t);
        assert(t2 == -t);
    }
    assert(ticks_of(-price, tick_size) == (if t2 > i32::MAX { i32::MAX as int } else if t2 < i32::MIN { i32::MIN as int } else { t2 }));
}

} // verus!
