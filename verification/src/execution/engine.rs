//! The execution engine's decisions: which signals are taken, what a simulated entry
//! fill places, which stops and targets are hit, how exits are booked, and when the
//! day's trading stops. The caller performs the orders that these decisions return.

use vstd::prelude::*;

use crate::execution::config::{ExecutionConfig, ExecutionMode};
use crate::execution::connection::{order_id_text, ActiveOrder, ConnectionError, ConnectionState, RithmicConnection};
use crate::execution::order::{BracketOrder, BracketState, OrderSide};
use crate::execution::position::{first_with_id, lemma_first_with_id, signed_qty, PositionManager, PositionModel};
use crate::units::{abs, fits_i32, Price};

verus! {

/// A trading signal from the strategy.
#[derive(Debug, Clone, Copy, PartialEq, Eq, Structural)]
pub struct TradingSignal {
    /// Long (buy) or short (sell)
    pub side: OrderSide,
    /// LVN level that triggered the signal
    pub lvn_level: Price,
    /// Price when the signal fired
    pub current_price: Price,
    /// Delta imbalance at the signal
    pub delta: i64,
}

/// Which exit order was hit.
#[derive(Debug, Clone, Copy, PartialEq, Eq, Structural)]
pub enum ExitKind {
    Stop,
    Target,
}

impl ExitKind {
    /// `STOP` or `TARGET`.
    pub fn label(&self) -> (r: &'static str)
        ensures
            *self == ExitKind::Stop ==> r@ == "STOP"@,
            *self == ExitKind::Target ==> r@ == "TARGET"@,
    {
        match self {
            ExitKind::Stop => "STOP",
            ExitKind::Target => "TARGET",
        }
    }
}

/// Events the engine reports.
#[derive(Debug, Clone)]
pub enum ExecutionEvent {
    /// Signal taken, entry order submitted
    SignalExecuted { bracket_id: u128, side: OrderSide, lvn_level: Price },
    /// Entry filled
    EntryFilled { bracket_id: u128, fill_price: Price, quantity: i32 },
    /// Stop or target filled
    ExitFilled { bracket_id: u128, fill_price: Price, pnl_points: i64, exit_type: String },
    /// Trailing stop moved
    TrailingStopUpdated { bracket_id: u128, new_stop: Price },
    /// Daily loss limit reached
    DailyLimitReached { pnl_points: i64 },
    /// Maximum number of daily losses reached
    MaxLossesReached { loss_count: i32 },
    /// Position flattened
    PositionFlattened { reason: String },
    /// Error
    Error { message: String },
}

/// Why a signal was not taken.
#[derive(Debug, Clone, Copy, PartialEq, Eq, Structural)]
pub enum SignalRejection {
    /// The daily loss limit was reached earlier today
    DailyLimitReached,
    /// The day's maximum number of losing trades was reached
    MaxLossesReached { max_daily_losses: i32 },
    /// The position would exceed the maximum size
    PositionLimit { current: i32, quantity: i32, max: i32 },
}

/// Why a signal was not executed.
#[derive(Debug, Clone, Copy, PartialEq, Eq, Structural)]
pub enum SignalError {
    /// The engine refused it
    Rejected(SignalRejection),
    /// The connection refused its entry order
    Connection(ConnectionError),
}

/// The orders to place after a simulated entry fill: a stop and a target on the
/// closing side.
#[derive(Debug, Clone, Copy, PartialEq, Eq, Structural)]
pub struct ExitOrders {
    pub exit_side: OrderSide,
    pub quantity: i32,
    pub stop_price: Price,
    pub target_price: Price,
}

/// A trailing stop that moved, and the exchange order to modify if there is one.
#[derive(Debug, Clone)]
pub struct StopUpdate {
    pub bracket_id: u128,
    pub new_stop: Price,
    pub exchange_order_id: Option<String>,
}

/// What an engine holds.
pub struct EngineModel {
    pub config: ExecutionConfig,
    /// The broker connection: its state, mode, user name and exchange, the orders it
    /// tracks and the number of order ids given out
    pub connection_state: ConnectionState,
    pub connection_mode: ExecutionMode,
    pub connection_user: Seq<char>,
    pub connection_exchange: Seq<char>,
    pub orders: Seq<ActiveOrder>,
    pub order_counter: u64,
    pub positions: PositionModel,
    pub daily_loss_limit_hit: bool,
    pub max_losses_hit: bool,
}

/// The execution engine's state and decisions.
pub struct ExecutionEngine {
    config: ExecutionConfig,
    connection: RithmicConnection,
    position_manager: PositionManager,
    daily_loss_limit_hit: bool,
    max_losses_hit: bool,
}

/// Default starting balance: $50,000, in cents.
pub const DEFAULT_STARTING_BALANCE: i64 = 5_000_000;

/// The stops and targets hit at `price`, in bracket order: for each open position, its
/// stop if the price reached it, else its target if the price reached it.
pub open spec fn exit_triggers(brackets: Seq<BracketOrder>, price: Price) -> Seq<(u128, Price, ExitKind)>
    decreases brackets.len(),
{
    if brackets.len() == 0 {
        Seq::empty()
    } else {
        let rest = exit_triggers(brackets.drop_last(), price);
        let b = brackets.last();
        if b.state != BracketState::PositionOpen {
            rest
        } else {
            let stop = match b.stop_loss {
                Some(o) => o.stop_price,
                None => None,
            };
            let target = match b.take_profit {
                Some(o) => o.limit_price,
                None => None,
            };
            let stop_hit = match stop {
                Some(s) => if b.entry.side == OrderSide::Buy { price <= s } else { price >= s },
                None => false,
            };
            let target_hit = match target {
                Some(t) => if b.entry.side == OrderSide::Buy { price >= t } else { price <= t },
                None => false,
            };
            if stop_hit {
                rest.push((b.id, stop.unwrap(), ExitKind::Stop))
            } else if target_hit {
                rest.push((b.id, target.unwrap(), ExitKind::Target))
            } else {
                rest
            }
        }
    }
}

/// Ids of the brackets with an open position, in order.
pub open spec fn open_ids(brackets: Seq<BracketOrder>) -> Seq<u128>
    decreases brackets.len(),
{
    if brackets.len() == 0 {
        Seq::empty()
    } else {
        let rest = open_ids(brackets.drop_last());
        if brackets.last().state == BracketState::PositionOpen {
            rest.push(brackets.last().id)
        } else {
            rest
        }
    }
}

impl EngineModel {
    /// Whether the history is within its bound and the connection has the configured
    /// mode, user name and exchange.
    pub open spec fn wf(self) -> bool {
        &&& self.positions.history.len() <= crate::execution::position::MAX_HISTORY
        &&& self.connection_mode == self.config.mode
        &&& self.connection_user == self.config.rithmic_user@
        &&& self.connection_exchange == self.config.exchange@
    }

    /// Whether a simulated entry fill of bracket `b` at `price` keeps every quantity
    /// within its integer type.
    pub open spec fn bracket_fill_fits(self, b: BracketOrder, price: Price) -> bool {
        &&& b.entry.quantity != i32::MIN
        &&& self.positions.net_position != i32::MIN
        &&& fits_i32(self.positions.net_position + signed_qty(b.entry.side, b.entry.quantity as int))
        &&& crate::execution::position::avg_entry_fits(
            self.positions.net_position,
            self.positions.avg_entry_price,
            price,
            b.entry.quantity as int,
            b.entry.side,
        )
        &&& BracketOrder { entry_price: Some(price), ..b }.exit_orders_fit(price, self.config.take_profit, self.config.stop_buffer)
    }

    /// The engine after the simulated entry fill of bracket `i` at `fill_price`, as
    /// `next`: the fill is recorded in the positions (see `record_entry_fill`) and the
    /// bracket gets its stop and target (see `BracketOrder::exits_set`).
    pub open spec fn entry_filled(self, i: int, fill_price: Price, next: EngineModel) -> bool {
        let b = self.positions.brackets[i];
        let entered = BracketOrder { entry_price: Some(fill_price), ..b };
        let nb = next.positions.brackets[i];
        &&& BracketOrder::exits_set(entered, nb, fill_price, self.config.take_profit, self.config.stop_buffer)
        &&& next == (EngineModel {
            positions: PositionModel {
                net_position: self.positions.net_position + signed_qty(b.entry.side, b.entry.quantity as int),
                avg_entry_price: crate::execution::position::avg_after_entry(
                    self.positions.net_position,
                    self.positions.avg_entry_price,
                    fill_price,
                    b.entry.quantity as int,
                    b.entry.side,
                ),
                brackets: self.positions.brackets.update(i, nb),
                ..self.positions
            },
            ..self
        })
    }

    /// Whether `o` is the market entry order that a signal's execution tracks: the next
    /// order id, on the configured symbol and the connection's exchange, `BUY` or `SELL`,
    /// with no basket, limit price, stop or target.
    pub open spec fn entry_order(self, o: ActiveOrder, side: OrderSide, quantity: i32) -> bool {
        &&& o.local_id@ == order_id_text((self.order_counter + 1) as nat)
        &&& o.basket_id is None
        &&& o.symbol@ == self.config.symbol@
        &&& o.exchange@ == self.connection_exchange
        &&& o.side@ == (if side == OrderSide::Buy { "BUY"@ } else { "SELL"@ })
        &&& o.quantity == quantity
        &&& o.entry_price is None
        &&& o.stop_price == 0
        &&& o.target_price == 0
    }

    /// The engine after executing a signal in simulation as `next`: the entry order `o`
    /// is kept by the connection, the bracket `b` by the positions, the first bracket
    /// with `b`'s id is filled at `fill_price` (see `entry_filled`), and the stop and
    /// target orders take two more order ids.
    pub open spec fn signal_executed(self, b: BracketOrder, o: ActiveOrder, fill_price: Price, next: EngineModel) -> bool {
        let with_entry = EngineModel {
            positions: PositionModel { brackets: self.positions.brackets.push(b), ..self.positions },
            orders: self.orders.push(o),
            order_counter: (self.order_counter + 1) as u64,
            ..self
        };
        &&& first_with_id(with_entry.positions.brackets, b.id) matches Some(i)
            && with_entry.entry_filled(i, fill_price, EngineModel { order_counter: with_entry.order_counter, ..next })
        &&& next.order_counter == self.order_counter + 3
    }

    /// Why a signal for `quantity` contracts would be refused, if it would.
    pub open spec fn rejection(self, quantity: i32) -> Option<SignalRejection> {
        if self.daily_loss_limit_hit {
            Some(SignalRejection::DailyLimitReached)
        } else if self.max_losses_hit {
            Some(SignalRejection::MaxLossesReached { max_daily_losses: self.config.max_daily_losses })
        } else if abs(self.positions.net_position) + quantity > self.config.max_position_size {
            Some(SignalRejection::PositionLimit {
                current: abs(self.positions.net_position) as i32,
                quantity: quantity,
                max: self.config.max_position_size,
            })
        } else {
            None
        }
    }

    /// Whether trading is stopped for the day.
    pub open spec fn stopped(self) -> bool {
        self.daily_loss_limit_hit || self.max_losses_hit
    }
}

impl View for ExecutionEngine {
    type V = EngineModel;

    closed spec fn view(&self) -> EngineModel {
        EngineModel {
            config: self.config,
            connection_state: self.connection.state,
            connection_mode: self.connection.mode,
            connection_user: self.connection.user@,
            connection_exchange: self.connection.exchange@,
            orders: self.connection.active_orders@,
            order_counter: self.connection.order_counter,
            positions: self.position_manager@,
            daily_loss_limit_hit: self.daily_loss_limit_hit,
            max_losses_hit: self.max_losses_hit,
        }
    }
}

impl ExecutionEngine {
    /// Whether the engine is well formed (see `EngineModel::wf`).
    pub open spec fn wf(&self) -> bool {
        self@.wf()
    }

    /// An engine with the given starting balance in cents.
    pub fn with_balance(config: ExecutionConfig, starting_balance: i64) -> (e: ExecutionEngine)
        ensures
            e.wf(),
            e@.config == config,
            e@.connection_state == ConnectionState::Disconnected,
            e@.orders.len() == 0,
            e@.order_counter == 0,
            e@.positions.symbol == config.symbol@,
            e@.positions.net_position == 0,
            e@.positions.avg_entry_price is None,
            e@.positions.brackets.len() == 0,
            e@.positions.history.len() == 0,
            e@.positions.daily.is_empty_day(),
            e@.positions.running_balance == starting_balance,
            e@.positions.starting_balance == starting_balance,
            e@.positions.point_value == config.point_value,
            !e@.daily_loss_limit_hit,
            !e@.max_losses_hit,
    {
        let position_manager = PositionManager::new(config.symbol.as_str(), starting_balance, config.point_value);
        let connection = RithmicConnection::new(&config);
        ExecutionEngine { config, connection, position_manager, daily_loss_limit_hit: false, max_losses_hit: false }
    }

    /// An engine with the default $50,000 starting balance.
    pub fn new(config: ExecutionConfig) -> (e: ExecutionEngine)
        ensures
            e.wf(),
            e@.config == config,
            e@.connection_state == ConnectionState::Disconnected,
            e@.orders.len() == 0,
            e@.order_counter == 0,
            e@.positions.symbol == config.symbol@,
            e@.positions.net_position == 0,
            e@.positions.avg_entry_price is None,
            e@.positions.brackets.len() == 0,
            e@.positions.history.len() == 0,
            e@.positions.daily.is_empty_day(),
            e@.positions.running_balance == DEFAULT_STARTING_BALANCE,
            e@.positions.starting_balance == DEFAULT_STARTING_BALANCE,
            e@.positions.point_value == config.point_value,
            !e@.daily_loss_limit_hit,
            !e@.max_losses_hit,
    {
        Self::with_balance(config, DEFAULT_STARTING_BALANCE)
    }

    /// Connect (see `RithmicConnection::connect`).
    pub fn connect(&mut self) -> (r: Result<(), ConnectionError>)
        requires
            old(self).wf(),
        ensures
            final(self).wf(),
            old(self)@.config.mode == ExecutionMode::Simulation ==> r is Ok
                && final(self)@ == (EngineModel { connection_state: ConnectionState::Connected, ..old(self)@ }),
            old(self)@.config.mode != ExecutionMode::Simulation ==> r == Err::<(), ConnectionError>(
                if old(self)@.config.rithmic_user@.len() == 0 {
                    ConnectionError::MissingUser
                } else {
                    ConnectionError::BrokerRequired
                },
            ) && final(self)@ == (EngineModel { connection_state: ConnectionState::Connecting, ..old(self)@ }),
    {
        self.connection.connect()
    }

    /// Disconnect.
    pub fn disconnect(&mut self)
        ensures
            final(self).wf() == old(self).wf(),
            final(self)@ == (EngineModel { connection_state: ConnectionState::Disconnected, ..old(self)@ }),
    {
        self.connection.disconnect();
    }

    /// Whether the connection is up.
    pub fn is_connected(&self) -> (r: bool)
        ensures
            r == (self@.connection_state == ConnectionState::Connected),
    {
        self.connection.is_connected()
    }

    /// The connection's state.
    pub fn connection_state(&self) -> (r: ConnectionState)
        ensures
            r == self@.connection_state,
    {
        self.connection.state()
    }

    /// Whether the daily loss limit was reached.
    pub fn is_daily_limit_hit(&self) -> (r: bool)
        ensures
            r == self@.daily_loss_limit_hit,
    {
        self.daily_loss_limit_hit
    }

    /// Whether the day's maximum number of losses was reached.
    pub fn is_max_losses_hit(&self) -> (r: bool)
        ensures
            r == self@.max_losses_hit,
    {
        self.max_losses_hit
    }

    /// Whether trading is stopped for the day (either limit reached).
    pub fn is_trading_stopped(&self) -> (r: bool)
        ensures
            r == self@.stopped(),
    {
        self.daily_loss_limit_hit || self.max_losses_hit
    }

    /// Check whether a signal for `quantity` contracts may be taken: refused after the
    /// daily loss limit, after the day's maximum losses, or when the position would
    /// exceed the maximum size.
    pub fn admit_signal(&self, quantity: i32) -> (r: Result<(), SignalRejection>)
        requires
            self@.positions.net_position != i32::MIN,
        ensures
            match self@.rejection(quantity) {
                Some(why) => r == Err::<(), SignalRejection>(why),
                None => r is Ok,
            },
    {
        if self.daily_loss_limit_hit {
            return Err(SignalRejection::DailyLimitReached);
        }
        if self.max_losses_hit {
            return Err(SignalRejection::MaxLossesReached { max_daily_losses: self.config.max_daily_losses });
        }
        let net = self.position_manager.net_position();
        let current: i32 = if net < 0 { -net } else { net };
        if current as i64 + quantity as i64 > self.config.max_position_size as i64 {
            return Err(SignalRejection::PositionLimit { current, quantity, max: self.config.max_position_size });
        }
        Ok(())
    }

    /// The bracket for a signal, if the signal may be taken: long for a buy signal and
    /// short for a sell, at the signal's LVN level, for the configured symbol.
    pub fn prepare_bracket(&self, signal: &TradingSignal, quantity: i32) -> (r: Result<BracketOrder, SignalRejection>)
        requires
            self@.positions.net_position != i32::MIN,
        ensures
            match self@.rejection(quantity) {
                Some(why) => r == Err::<BracketOrder, SignalRejection>(why),
                None => r matches Ok(b) && b.fresh(
                    self@.config.symbol@,
                    self@.config.exchange@,
                    signal.side,
                    quantity,
                    signal.lvn_level,
                ),
            },
    {
        match self.admit_signal(quantity) {
            Err(why) => Err(why),
            Ok(()) => {
                let bracket = if signal.side == OrderSide::Buy {
                    BracketOrder::new_long(
                        self.config.symbol.as_str(),
                        self.config.exchange.as_str(),
                        quantity,
                        signal.lvn_level,
                        self.config.stop_buffer,
                    )
                } else {
                    BracketOrder::new_short(
                        self.config.symbol.as_str(),
                        self.config.exchange.as_str(),
                        quantity,
                        signal.lvn_level,
                        self.config.stop_buffer,
                    )
                };
                Ok(bracket)
            },
        }
    }

    /// Track a bracket whose entry order was submitted, and report it.
    pub fn track_bracket(&mut self, bracket: BracketOrder) -> (ev: ExecutionEvent)
        ensures
            final(self).wf() == old(self).wf(),
            final(self)@ == (EngineModel {
                positions: PositionModel { brackets: old(self)@.positions.brackets.push(bracket), ..old(self)@.positions },
                ..old(self)@
            }),
            ev == (ExecutionEvent::SignalExecuted {
                bracket_id: bracket.id,
                side: bracket.entry.side,
                lvn_level: bracket.lvn_level,
            }),
    {
        let ev = ExecutionEvent::SignalExecuted {
            bracket_id: bracket.id,
            side: bracket.entry.side,
            lvn_level: bracket.lvn_level,
        };
        self.position_manager.add_bracket(bracket);
        ev
    }

    /// Whether a simulated entry fill of bracket `i` at `price` keeps every quantity
    /// within its integer type.
    pub open spec fn entry_fill_fits(self, i: int, price: Price) -> bool {
        self@.bracket_fill_fits(self@.positions.brackets[i], price)
    }

    /// Simulate the fill of a bracket's entry at `fill_price`: record the fill, set the
    /// bracket's stop and target, and return the exit orders to place and the event.
    /// Fails, changing nothing, where no bracket has the id.
    pub fn simulate_entry_fill(&mut self, bracket_id: u128, fill_price: Price) -> (r: Option<(ExitOrders, ExecutionEvent)>)
        requires
            first_with_id(old(self)@.positions.brackets, bracket_id) matches Some(i) ==> old(self).entry_fill_fits(i, fill_price),
        ensures
            final(self).wf() == old(self).wf(),
            match first_with_id(old(self)@.positions.brackets, bracket_id) {
                None => r is None && final(self)@ == old(self)@,
                Some(i) => {
                    let b = old(self)@.positions.brackets[i];
                    let entered = BracketOrder { entry_price: Some(fill_price), ..b };
                    let nb = final(self)@.positions.brackets[i];
                    &&& r matches Some((orders, ev))
                    &&& orders == (ExitOrders {
                        exit_side: b.entry.side.flipped(),
                        quantity: b.entry.quantity,
                        stop_price: entered.initial_stop(old(self)@.config.stop_buffer as int) as i64,
                        target_price: entered.target_price(fill_price as int, old(self)@.config.take_profit as int) as i64,
                    })
                    &&& ev == (ExecutionEvent::EntryFilled { bracket_id, fill_price, quantity: b.entry.quantity })
                    &&& old(self)@.entry_filled(i, fill_price, final(self)@)
                },
            },
    {
        let (side, quantity) = match self.position_manager.get_bracket(bracket_id) {
            Some(b) => (b.position_side(), b.entry.quantity),
            None => return None,
        };
        proof {
            lemma_first_with_id(self@.positions.brackets, bracket_id);
        }
        let ghost idx = first_with_id(self@.positions.brackets, bracket_id).unwrap();
        self.position_manager.record_entry_fill(bracket_id, fill_price, quantity, side);
        proof {
            crate::execution::position::lemma_first_with_id_update(
                old(self)@.positions.brackets,
                idx,
                self@.positions.brackets[idx],
                bracket_id,
            );
        }
        let take_profit = self.config.take_profit;
        let stop_buffer = self.config.stop_buffer;
        let orders = match self.position_manager.get_bracket_mut(bracket_id) {
            Some(b) => {
                b.set_exit_orders(fill_price, take_profit, stop_buffer);
                let stop_price = match &b.stop_loss {
                    Some(o) => match o.stop_price {
                        Some(p) => p,
                        None => 0,
                    },
                    None => 0,
                };
                let target_price = match &b.take_profit {
                    Some(o) => match o.limit_price {
                        Some(p) => p,
                        None => 0,
                    },
                    None => 0,
                };
                ExitOrders { exit_side: side.opposite(), quantity, stop_price, target_price }
            },
            None => {
                proof {
                    assert(false);
                }
                ExitOrders { exit_side: side.opposite(), quantity, stop_price: 0, target_price: 0 }
            },
        };
        proof {
            assert(self@.positions.brackets =~= old(self)@.positions.brackets.update(idx, self@.positions.brackets[idx]));
        }
        Some((orders, ExecutionEvent::EntryFilled { bracket_id, fill_price, quantity }))
    }

    /// Execute a signal: refused as `prepare_bracket` says; otherwise the market entry
    /// order goes to the connection, which refuses it unless connected (and outside
    /// simulation leaves it to the broker); then the bracket is tracked and, in
    /// simulation, filled at once at the signal's price, with its stop and target orders
    /// given ids. Returns the bracket's id.
    pub fn execute_signal(&mut self, signal: &TradingSignal, quantity: i32) -> (r: Result<u128, SignalError>)
        requires
            old(self).wf(),
            old(self)@.positions.net_position != i32::MIN,
            old(self)@.order_counter <= u64::MAX - 3,
            forall|j: int| 0 <= j < old(self)@.positions.brackets.len()
                ==> old(self)@.bracket_fill_fits(#[trigger] old(self)@.positions.brackets[j], signal.current_price),
            forall|b: BracketOrder| #[trigger] b.fresh(
                old(self)@.config.symbol@,
                old(self)@.config.exchange@,
                signal.side,
                quantity,
                signal.lvn_level,
            ) ==> old(self)@.bracket_fill_fits(b, signal.current_price),
        ensures
            final(self).wf(),
            match old(self)@.rejection(quantity) {
                Some(why) => r == Err::<u128, SignalError>(SignalError::Rejected(why)) && final(self)@ == old(self)@,
                None => if old(self)@.connection_state != ConnectionState::Connected {
                    r == Err::<u128, SignalError>(SignalError::Connection(ConnectionError::NotConnected))
                        && final(self)@ == old(self)@
                } else if old(self)@.config.mode != ExecutionMode::Simulation {
                    r == Err::<u128, SignalError>(SignalError::Connection(ConnectionError::BrokerRequired))
                        && final(self)@ == (EngineModel { order_counter: (old(self)@.order_counter + 1) as u64, ..old(self)@ })
                } else {
                    r matches Ok(id) && exists|b: BracketOrder, o: ActiveOrder|
                        b.fresh(
                            old(self)@.config.symbol@,
                            old(self)@.config.exchange@,
                            signal.side,
                            quantity,
                            signal.lvn_level,
                        ) && b.id == id && old(self)@.entry_order(o, signal.side, quantity)
                            && old(self)@.signal_executed(b, o, signal.current_price, final(self)@)
                },
            },
    {
        let bracket = match self.prepare_bracket(signal, quantity) {
            Err(why) => return Err(SignalError::Rejected(why)),
            Ok(b) => b,
        };
        let ghost m0 = self@;
        let symbol = self.config.symbol.clone();
        match self.connection.submit_market_order(symbol.as_str(), signal.side.label(), quantity) {
            Err(e) => return Err(SignalError::Connection(e)),
            Ok(_) => {},
        }
        let ghost o = self.connection.active_orders@.last();
        proof {
            assert(self.connection.active_orders@ =~= m0.orders.push(o));
        }
        let id = bracket.id;
        let ghost b = bracket;
        self.track_bracket(bracket);
        let ghost m1 = self@;
        proof {
            lemma_first_with_id(m1.positions.brackets, id);
            assert(m1.positions.brackets[m1.positions.brackets.len() - 1] == b);
        }
        if self.config.mode == ExecutionMode::Simulation {
            proof {
                let i = first_with_id(m1.positions.brackets, id).unwrap();
                if i < m0.positions.brackets.len() {
                    assert(m1.positions.brackets[i] == m0.positions.brackets[i]);
                }
            }
            self.simulate_entry_fill(id, signal.current_price);
            let ghost m2 = self@;
            let _ = self.connection.submit_standalone_order();
            let _ = self.connection.submit_standalone_order();
            proof {
                assert(m0.entry_order(o, signal.side, quantity));
                assert(m1 == (EngineModel {
                    positions: PositionModel { brackets: m0.positions.brackets.push(b), ..m0.positions },
                    orders: m0.orders.push(o),
                    order_counter: (m0.order_counter + 1) as u64,
                    ..m0
                }));
                assert(m2 == (EngineModel { order_counter: m1.order_counter, ..self@ }));
                assert(m0.signal_executed(b, o, signal.current_price, self@));
            }
        }
        Ok(id)
    }

    /// Ids of the brackets with an open position, in order.
    pub fn open_bracket_ids(&self) -> (r: Vec<u128>)
        ensures
            r@ == open_ids(self@.positions.brackets),
    {
        let brackets = self.position_manager.active_brackets();
        let mut ids: Vec<u128> = Vec::new();
        let mut i: usize = 0;
        while i < brackets.len()
            invariant
                i <= brackets@.len(),
                brackets@ == self@.positions.brackets,
                ids@ == open_ids(brackets@.take(i as int)),
            decreases brackets@.len() - i,
        {
            proof {
                assert(brackets@.take(i + 1).drop_last() =~= brackets@.take(i as int));
            }
            if brackets[i].state == BracketState::PositionOpen {
                ids.push(brackets[i].id);
            }
            i += 1;
        }
        proof {
            assert(brackets@.take(i as int) =~= brackets@);
        }
        ids
    }

    /// Trail the stop of the bracket with the given id (the first one) at
    /// `current_price` by the configured distance. Returns the stop that moved, with
    /// the exchange order to modify.
    pub fn trail_bracket(&mut self, bracket_id: u128, current_price: Price) -> (r: Option<StopUpdate>)
        requires
            first_with_id(old(self)@.positions.brackets, bracket_id) matches Some(i) ==> old(self)@.positions.brackets[i].trail_fits(
                current_price,
                old(self)@.config.trailing_stop,
            ),
        ensures
            final(self).wf() == old(self).wf(),
            match first_with_id(old(self)@.positions.brackets, bracket_id) {
                None => r is None && final(self)@ == old(self)@,
                Some(i) => {
                    let b = old(self)@.positions.brackets[i];
                    let trail = old(self)@.config.trailing_stop;
                    &&& final(self)@.positions.brackets[i] == b.after_trail(
                        current_price,
                        trail,
                        match final(self)@.positions.brackets[i].stop_loss {
                            Some(s) => s.updated_at,
                            None => 0,
                        },
                    )
                    &&& final(self)@ == (EngineModel {
                        positions: PositionModel {
                            brackets: old(self)@.positions.brackets.update(i, final(self)@.positions.brackets[i]),
                            ..old(self)@.positions
                        },
                        ..old(self)@
                    })
                    &&& match b.trailed_stop(current_price, trail) {
                        Some(n) => r matches Some(u) && u.bracket_id == bracket_id && u.new_stop == n
                            && u.exchange_order_id == b.stop_loss.unwrap().exchange_order_id,
                        None => r is None,
                    }
                },
            },
    {
        let trailing = self.config.trailing_stop;
        proof {
            lemma_first_with_id(self@.positions.brackets, bracket_id);
        }
        match self.position_manager.get_bracket_mut(bracket_id) {
            Some(b) => {
                match b.update_trailing_stop(current_price, trailing) {
                    Some(new_stop) => {
                        let exchange_order_id = match &b.stop_loss {
                            Some(o) => match &o.exchange_order_id {
                                Some(x) => Some(x.clone()),
                                None => None,
                            },
                            None => None,
                        };
                        Some(StopUpdate { bracket_id, new_stop, exchange_order_id })
                    },
                    None => None,
                }
            },
            None => None,
        }
    }

    /// The stops and targets hit at `current_price`.
    pub fn check_exit_triggers(&self, current_price: Price) -> (r: Vec<(u128, Price, ExitKind)>)
        ensures
            r@ == exit_triggers(self@.positions.brackets, current_price),
    {
        let brackets = self.position_manager.active_brackets();
        let mut exits: Vec<(u128, Price, ExitKind)> = Vec::new();
        let mut i: usize = 0;
        while i < brackets.len()
            invariant
                i <= brackets@.len(),
                brackets@ == self@.positions.brackets,
                exits@ == exit_triggers(brackets@.take(i as int), current_price),
            decreases brackets@.len() - i,
        {
            proof {
                assert(brackets@.take(i + 1).drop_last() =~= brackets@.take(i as int));
            }
            let b = &brackets[i];
            if b.state == BracketState::PositionOpen {
                let stop = match &b.stop_loss {
                    Some(o) => o.stop_price,
                    None => None,
                };
                let target = match &b.take_profit {
                    Some(o) => o.limit_price,
                    None => None,
                };
                let mut done = false;
                if let Some(stop_price) = stop {
                    let hit = match b.entry.side {
                        OrderSide::Buy => current_price <= stop_price,
                        OrderSide::Sell => current_price >= stop_price,
                    };
                    if hit {
                        exits.push((b.id, stop_price, ExitKind::Stop));
                        done = true;
                    }
                }
                if !done {
                    if let Some(target_price) = target {
                        let hit = match b.entry.side {
                            OrderSide::Buy => current_price >= target_price,
                            OrderSide::Sell => current_price <= target_price,
                        };
                        if hit {
                            exits.push((b.id, target_price, ExitKind::Target));
                        }
                    }
                }
            }
            i += 1;
        }
        proof {
            assert(brackets@.take(i as int) =~= brackets@);
        }
        exits
    }

    /// After an exit: the daily-limit flag is set when the day's P&L is at or below the
    /// negative limit, and the loss flag when the day's losses reach the maximum; each
    /// setting is reported.
    fn check_daily_limit(&mut self, events: &mut Vec<ExecutionEvent>)
        ensures
            final(self)@ == (EngineModel {
                daily_loss_limit_hit: old(self)@.daily_loss_limit_hit
                    || old(self)@.positions.daily.gross_pnl <= -old(self)@.config.daily_loss_limit,
                max_losses_hit: old(self)@.max_losses_hit
                    || old(self)@.positions.daily.losses >= old(self)@.config.max_daily_losses,
                ..old(self)@
            }),
            final(events)@ == old(events)@ + Self::limit_events(old(self)@),
    {
        let daily_pnl = self.position_manager.daily_pnl_points();
        if daily_pnl as i128 <= -(self.config.daily_loss_limit as i128) {
            self.daily_loss_limit_hit = true;
            events.push(ExecutionEvent::DailyLimitReached { pnl_points: daily_pnl });
        }
        let loss_count = self.position_manager.daily_summary().losses;
        if loss_count >= self.config.max_daily_losses {
            self.max_losses_hit = true;
            events.push(ExecutionEvent::MaxLossesReached { loss_count });
        }
    }

    /// The events a limit check reports in state `m`.
    pub open spec fn limit_events(m: EngineModel) -> Seq<ExecutionEvent> {
        let a: Seq<ExecutionEvent> = if m.positions.daily.gross_pnl <= -m.config.daily_loss_limit {
            seq![ExecutionEvent::DailyLimitReached { pnl_points: m.positions.daily.gross_pnl }]
        } else {
            Seq::empty()
        };
        if m.positions.daily.losses >= m.config.max_daily_losses {
            a.push(ExecutionEvent::MaxLossesReached { loss_count: m.positions.daily.losses })
        } else {
            a
        }
    }

    /// Book the exit fill of a bracket at `fill_price` (see
    /// `PositionManager::record_exit_fill`), then check the day's limits. Returns the
    /// events: the exit and any limit reached; none where nothing was booked.
    pub fn process_exit_fill(&mut self, bracket_id: u128, fill_price: Price, exit_type: &str) -> (events: Vec<ExecutionEvent>)
        requires
            old(self).wf(),
            match first_with_id(old(self)@.positions.brackets, bracket_id) {
                Some(i) => old(self)@.positions.brackets[i].entry_price is Some ==> old(self)@.positions.exit_fits(i, fill_price),
                None => true,
            },
        ensures
            final(self).wf(),
            match first_with_id(old(self)@.positions.brackets, bracket_id) {
                Some(i) => if old(self)@.positions.brackets[i].entry_price is Some {
                    let b = old(self)@.positions.brackets[i];
                    let booked = old(self)@.positions.after_exit(
                        i,
                        fill_price,
                        final(self)@.positions.history.last().exit_time,
                        final(self)@.positions.brackets[i].closed_at.unwrap(),
                    );
                    let m = EngineModel { positions: booked, ..old(self)@ };
                    &&& final(self)@ == (EngineModel {
                        daily_loss_limit_hit: m.daily_loss_limit_hit || booked.daily.gross_pnl <= -m.config.daily_loss_limit,
                        max_losses_hit: m.max_losses_hit || booked.daily.losses >= m.config.max_daily_losses,
                        ..m
                    })
                    &&& events@.len() >= 1
                    &&& events@[0] matches ExecutionEvent::ExitFilled { bracket_id: id, fill_price: px, pnl_points: pnl, exit_type: t }
                        && id == bracket_id && px == fill_price && pnl == b.pnl_at(b.entry_price.unwrap(), fill_price)
                        && t@ == exit_type@
                    &&& events@.subrange(1, events@.len() as int) == Self::limit_events(m)
                } else {
                    events@.len() == 0 && final(self)@ == old(self)@
                },
                None => events@.len() == 0 && final(self)@ == old(self)@,
            },
    {
        let mut events: Vec<ExecutionEvent> = Vec::new();
        match self.position_manager.record_exit_fill(bracket_id, fill_price) {
            Some(record) => {
                events.push(ExecutionEvent::ExitFilled {
                    bracket_id,
                    fill_price,
                    pnl_points: record.pnl_points,
                    exit_type: exit_type.to_owned(),
                });
                self.check_daily_limit(&mut events);
            },
            None => {},
        }
        events
    }

    /// The market order that flattens the position: a sell of a long or a buy of a short,
    /// for the whole position; none when flat.
    pub fn flatten_order(&self) -> (r: Option<(OrderSide, i32)>)
        requires
            self@.positions.net_position != i32::MIN,
        ensures
            self@.positions.net_position == 0 ==> r is None,
            self@.positions.net_position > 0 ==> r == Some((OrderSide::Sell, self@.positions.net_position as i32)),
            self@.positions.net_position < 0 ==> r == Some((OrderSide::Buy, (-self@.positions.net_position) as i32)),
    {
        let position = self.position_manager.net_position();
        if position > 0 {
            Some((OrderSide::Sell, position))
        } else if position < 0 {
            Some((OrderSide::Buy, -position))
        } else {
            None
        }
    }

    /// The position manager.
    pub fn position_manager(&self) -> (r: &PositionManager)
        ensures
            r@ == self@.positions,
    {
        &self.position_manager
    }

    /// The configuration.
    pub fn config(&self) -> (r: &ExecutionConfig)
        ensures
            *r == self@.config,
    {
        &self.config
    }

    /// The day's P&L in price units.
    pub fn daily_pnl(&self) -> (r: i64)
        ensures
            r == self@.positions.daily.gross_pnl,
    {
        self.position_manager.daily_pnl_points()
    }

    /// The running balance in cents.
    pub fn balance(&self) -> (r: i64)
        ensures
            r == self@.positions.running_balance,
    {
        self.position_manager.running_balance()
    }

    /// Start a new trading day: the day's summary is reset and both limits are cleared.
    pub fn reset_daily(&mut self)
        ensures
            final(self).wf() == old(self).wf(),
            final(self)@ == (EngineModel {
                daily_loss_limit_hit: false,
                max_losses_hit: false,
                positions: PositionModel { daily: final(self)@.positions.daily, ..old(self)@.positions },
                ..old(self)@
            }),
            final(self)@.positions.daily.gross_pnl == 0,
            final(self)@.positions.daily.trade_count == 0,
            final(self)@.positions.daily.losses == 0,
            final(self)@.positions.daily.wins == 0,
            final(self)@.positions.daily.peak_balance == old(self)@.positions.running_balance,
    {
        self.position_manager.reset_daily();
        self.daily_loss_limit_hit = false;
        self.max_losses_hit = false;
    }
}

/// Once trading is stopped for the day, every signal is refused, whatever its size.
pub proof fn lemma_stopped_refuses_signals(m: EngineModel, quantity: i32)
    requires
        m.stopped(),
    ensures
        m.rejection(quantity) is Some,
{
}

/// A signal is taken only when it keeps the position within the maximum size.
pub proof fn lemma_taken_signal_within_size(m: EngineModel, quantity: i32)
    requires
        m.rejection(quantity) is None,
    ensures
        abs(m.positions.net_position) + quantity <= m.config.max_position_size,
        !m.stopped(),
{
}

/// An open position's exit triggers on its own side: a long's stop when the price is at
/// or below it and its target when at or above it, a short's stop when at or above it
/// and its target when at or below it; the stop is looked at first.
pub proof fn lemma_exit_trigger_sides(b: BracketOrder, price: Price)
    ensures
        exit_triggers(seq![b], price).len() <= 1,
        exit_triggers(seq![b], price).len() == 1 ==> {
            let (id, at, kind) = exit_triggers(seq![b], price)[0];
            &&& id == b.id && b.state == BracketState::PositionOpen
            &&& kind == ExitKind::Stop ==> (b.stop_loss matches Some(o) && o.stop_price == Some(at) && (if b.entry.side
                == OrderSide::Buy { price <= at } else { price >= at }))
            &&& kind == ExitKind::Target ==> (b.take_profit matches Some(o) && o.limit_price == Some(at) && (if b.entry.side
                == OrderSide::Buy { price >= at } else { price <= at }))
        },
{
    let e = Seq::<BracketOrder>::empty();
    assert(seq![b].drop_last() =~= e);
    assert(seq![b].last() == b);
    assert(exit_triggers(e, price).len() == 0);
}

} // verus!
