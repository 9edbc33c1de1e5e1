//! The broker connection's state and its reconnection policy.

use vstd::prelude::*;

use vstd::arithmetic::power2::pow2;
use vstd::string::{StrSliceExecFns, StringExecFns};

use crate::execution::config::{ExecutionConfig, ExecutionMode};
use crate::pipeline::trades::{decimal, push_decimal_u64};
use crate::units::Price;

verus! {

/// State of the broker connection.
#[derive(Debug, Clone, Copy, PartialEq, Eq, Structural)]
pub enum ConnectionState {
    Disconnected,
    Connecting,
    Connected,
    Reconnecting,
    Failed,
}

/// Reconnection attempts since the last success, and how many are allowed.
#[derive(Debug, Clone, Copy, PartialEq, Eq, Structural)]
pub struct ReconnectPolicy {
    pub attempts: u32,
    pub max_attempts: u32,
}

impl ReconnectPolicy {
    /// No attempt yet, five allowed.
    pub fn new() -> (r: ReconnectPolicy)
        ensures
            r == (ReconnectPolicy { attempts: 0, max_attempts: 5 }),
    {
        ReconnectPolicy { attempts: 0, max_attempts: 5 }
    }

    /// The next reconnection: once the allowed attempts are used up, the connection has
    /// failed (`None`); otherwise the attempt is counted and its delay in seconds is
    /// returned, 2 to the power of the attempt's number.
    pub fn next_attempt(&mut self) -> (r: Option<u64>)
        requires
            old(self).attempts < 63,
        ensures
            old(self).attempts >= old(self).max_attempts ==> r is None && *final(self) == *old(self),
            old(self).attempts < old(self).max_attempts ==> {
                &&& final(self).attempts == old(self).attempts + 1
                &&& final(self).max_attempts == old(self).max_attempts
                &&& r == Some(pow2(final(self).attempts as nat) as u64)
            },
    {
        if self.attempts >= self.max_attempts {
            return None;
        }
        self.attempts = self.attempts + 1;
        let mut delay: u64 = 1;
        let mut k: u32 = 0;
        proof {
            vstd::arithmetic::power2::lemma2_to64();
        }
        while k < self.attempts
            invariant
                k <= self.attempts <= 63,
                delay == pow2(k as nat),
            decreases self.attempts - k,
        {
            proof {
                vstd::arithmetic::power2::lemma_pow2_unfold((k + 1) as nat);
                vstd::arithmetic::power2::lemma_pow2_strictly_increases((k + 1) as nat, 64);
                vstd::arithmetic::power2::lemma2_to64();
            }
            delay = delay * 2;
            k = k + 1;
        }
        Some(delay)
    }

    /// Forgets the attempts after a successful operation.
    pub fn reset(&mut self)
        ensures
            *final(self) == (ReconnectPolicy { attempts: 0, ..*old(self) }),
    {
        self.attempts = 0;
    }
}

/// The state to report for a reconnection: reconnecting while attempts remain, failed
/// once they are used up.
pub fn reconnect_state(attempt_delay: Option<u64>) -> (r: ConnectionState)
    ensures
        r == (if attempt_delay is Some { ConnectionState::Reconnecting } else { ConnectionState::Failed }),
{
    if attempt_delay.is_some() {
        ConnectionState::Reconnecting
    } else {
        ConnectionState::Failed
    }
}

/// Why a connection refuses an operation.
#[derive(Debug, Clone, Copy, PartialEq, Eq, Structural)]
pub enum ConnectionError {
    /// The connection is not up
    NotConnected,
    /// The allowed reconnection attempts are used up
    MaxReconnects,
    /// No broker user name is configured
    MissingUser,
    /// Outside simulation the broker is reached outside this library
    BrokerRequired,
}

/// A bracket order that the connection tracks.
#[derive(Debug)]
pub struct ActiveOrder {
    pub local_id: String,
    pub basket_id: Option<String>,
    pub symbol: String,
    pub exchange: String,
    /// "BUY" or "SELL"
    pub side: String,
    pub quantity: i32,
    /// Limit price of the entry; none for a market entry
    pub entry_price: Option<Price>,
    pub stop_price: Price,
    pub target_price: Price,
}

impl ActiveOrder {
    /// A copy of the order.
    pub fn duplicate(&self) -> (r: ActiveOrder)
        ensures
            r == *self,
    {
        ActiveOrder {
            local_id: self.local_id.clone(),
            basket_id: match &self.basket_id {
                Some(b) => Some(b.clone()),
                None => None,
            },
            symbol: self.symbol.clone(),
            exchange: self.exchange.clone(),
            side: self.side.clone(),
            quantity: self.quantity,
            entry_price: self.entry_price,
            stop_price: self.stop_price,
            target_price: self.target_price,
        }
    }
}

/// The local order id of the `n`th order: `HTB_` and the number.
pub open spec fn order_id_text(n: nat) -> Seq<char> {
    seq!['H', 'T', 'B', '_'] + decimal(n)
}

/// The orders whose local id is not `id`.
pub open spec fn orders_without_id(orders: Seq<ActiveOrder>, id: Seq<char>) -> Seq<ActiveOrder> {
    orders.filter(|o: ActiveOrder| o.local_id@ != id)
}

/// The orders on another symbol than `symbol`.
pub open spec fn orders_off_symbol(orders: Seq<ActiveOrder>, symbol: Seq<char>) -> Seq<ActiveOrder> {
    orders.filter(|o: ActiveOrder| o.symbol@ != symbol)
}

/// The orders kept, in order: when `by_symbol`, those on another symbol than `text`;
/// otherwise those whose local id is not `text`.
fn kept_orders(orders: &Vec<ActiveOrder>, text: &str, by_symbol: bool) -> (r: Vec<ActiveOrder>)
    ensures
        r@ == if by_symbol { orders_off_symbol(orders@, text@) } else { orders_without_id(orders@, text@) },
{
    let ghost pred = if by_symbol {
        |o: ActiveOrder| o.symbol@ != text@
    } else {
        |o: ActiveOrder| o.local_id@ != text@
    };
    let mut kept: Vec<ActiveOrder> = Vec::new();
    let mut i: usize = 0;
    proof {
        reveal(Seq::filter);
        assert(orders@.take(0) =~= Seq::<ActiveOrder>::empty());
    }
    while i < orders.len()
        invariant
            i <= orders@.len(),
            kept@ == orders@.take(i as int).filter(pred),
            pred == (if by_symbol {
                |o: ActiveOrder| o.symbol@ != text@
            } else {
                |o: ActiveOrder| o.local_id@ != text@
            }),
        decreases orders@.len() - i,
    {
        let o = &orders[i];
        let field = if by_symbol { &o.symbol } else { &o.local_id };
        let keep = field.as_str().to_owned() != text.to_owned();
        proof {
            reveal(Seq::filter);
            assert(orders@.take(i + 1).drop_last() =~= orders@.take(i as int));
            assert(orders@.take(i + 1).last() == orders@[i as int]);
            assert(keep == pred(orders@[i as int]));
        }
        if keep {
            kept.push(o.duplicate());
        }
        i = i + 1;
    }
    assert(orders@.take(orders@.len() as int) =~= orders@);
    kept
}

/// The broker connection as the library keeps it: its state, reconnection attempts,
/// the bracket orders it tracks and the number of orders given out. In simulation mode
/// this is the whole connection; outside it the broker is reached outside the library.
pub struct RithmicConnection {
    pub mode: ExecutionMode,
    /// The configured exchange
    pub exchange: String,
    /// The configured broker user name
    pub user: String,
    pub state: ConnectionState,
    pub policy: ReconnectPolicy,
    pub active_orders: Vec<ActiveOrder>,
    pub order_counter: u64,
}

impl RithmicConnection {
    /// A disconnected connection with no orders, five reconnections allowed.
    pub fn new(config: &ExecutionConfig) -> (r: RithmicConnection)
        ensures
            r.mode == config.mode,
            r.exchange@ == config.exchange@,
            r.user@ == config.rithmic_user@,
            r.state == ConnectionState::Disconnected,
            r.policy == (ReconnectPolicy { attempts: 0, max_attempts: 5 }),
            r.active_orders@.len() == 0,
            r.order_counter == 0,
    {
        RithmicConnection {
            mode: config.mode,
            exchange: config.exchange.clone(),
            user: config.rithmic_user.clone(),
            state: ConnectionState::Disconnected,
            policy: ReconnectPolicy::new(),
            active_orders: Vec::new(),
            order_counter: 0,
        }
    }

    /// The connection's state.
    pub fn state(&self) -> (r: ConnectionState)
        ensures
            r == self.state,
    {
        self.state
    }

    /// Whether the connection is up.
    pub fn is_connected(&self) -> (r: bool)
        ensures
            r == (self.state == ConnectionState::Connected),
    {
        self.state == ConnectionState::Connected
    }

    /// The tracked orders.
    pub fn active_orders(&self) -> (r: &[ActiveOrder])
        ensures
            r@ == self.active_orders@,
    {
        self.active_orders.as_slice()
    }

    /// Connect: in simulation the connection is up at once; otherwise it is connecting,
    /// is refused without a configured user name, and the broker's login is left to the
    /// caller (`BrokerRequired`).
    pub fn connect(&mut self) -> (r: Result<(), ConnectionError>)
        ensures
            old(self).mode == ExecutionMode::Simulation ==> r is Ok && final(self).state == ConnectionState::Connected,
            old(self).mode != ExecutionMode::Simulation ==> final(self).state == ConnectionState::Connecting && r == Err::<
                (),
                ConnectionError,
            >(if old(self).user@.len() == 0 { ConnectionError::MissingUser } else { ConnectionError::BrokerRequired }),
            final(self).mode == old(self).mode,
            final(self).user == old(self).user,
            final(self).exchange == old(self).exchange,
            final(self).policy == old(self).policy,
            final(self).active_orders@ == old(self).active_orders@,
            final(self).order_counter == old(self).order_counter,
    {
        if self.mode == ExecutionMode::Simulation {
            self.state = ConnectionState::Connected;
            Ok(())
        } else {
            self.state = ConnectionState::Connecting;
            if self.user.as_str().unicode_len() == 0 {
                Err(ConnectionError::MissingUser)
            } else {
                Err(ConnectionError::BrokerRequired)
            }
        }
    }

    /// Disconnect.
    pub fn disconnect(&mut self)
        ensures
            final(self).state == ConnectionState::Disconnected,
            final(self).mode == old(self).mode,
            final(self).user == old(self).user,
            final(self).exchange == old(self).exchange,
            final(self).policy == old(self).policy,
            final(self).active_orders@ == old(self).active_orders@,
            final(self).order_counter == old(self).order_counter,
    {
        self.state = ConnectionState::Disconnected;
    }

    /// A reconnection: once the allowed attempts are used up the connection has failed;
    /// otherwise it is reconnecting, the attempt is counted, and the delay in seconds
    /// before connecting again is returned (see `ReconnectPolicy::next_attempt`).
    pub fn reconnect(&mut self) -> (r: Result<u64, ConnectionError>)
        requires
            old(self).policy.attempts < 63,
        ensures
            old(self).policy.attempts >= old(self).policy.max_attempts ==> r == Err::<u64, ConnectionError>(
                ConnectionError::MaxReconnects,
            ) && final(self).state == ConnectionState::Failed && final(self).policy == old(self).policy,
            old(self).policy.attempts < old(self).policy.max_attempts ==> {
                &&& final(self).state == ConnectionState::Reconnecting
                &&& final(self).policy == (ReconnectPolicy { attempts: (old(self).policy.attempts + 1) as u32, ..old(self).policy })
                &&& r == Ok::<u64, ConnectionError>(pow2(final(self).policy.attempts as nat) as u64)
            },
            final(self).mode == old(self).mode,
            final(self).user == old(self).user,
            final(self).exchange == old(self).exchange,
            final(self).active_orders@ == old(self).active_orders@,
            final(self).order_counter == old(self).order_counter,
    {
        match self.policy.next_attempt() {
            Some(delay) => {
                self.state = ConnectionState::Reconnecting;
                Ok(delay)
            },
            None => {
                self.state = ConnectionState::Failed;
                Err(ConnectionError::MaxReconnects)
            },
        }
    }

    /// Forget the reconnection attempts after a successful operation.
    pub fn reset_reconnect_counter(&mut self)
        ensures
            final(self).policy == (ReconnectPolicy { attempts: 0, ..old(self).policy }),
            final(self).state == old(self).state,
            final(self).mode == old(self).mode,
            final(self).user == old(self).user,
            final(self).exchange == old(self).exchange,
            final(self).active_orders@ == old(self).active_orders@,
            final(self).order_counter == old(self).order_counter,
    {
        self.policy.reset();
    }

    /// The next local order id, `HTB_` and the incremented counter.
    fn next_order_id(&mut self) -> (r: String)
        requires
            old(self).order_counter < u64::MAX,
        ensures
            final(self).order_counter == old(self).order_counter + 1,
            r@ == order_id_text(final(self).order_counter as nat),
            final(self).state == old(self).state,
            final(self).mode == old(self).mode,
            final(self).user == old(self).user,
            final(self).exchange == old(self).exchange,
            final(self).policy == old(self).policy,
            final(self).active_orders@ == old(self).active_orders@,
    {
        self.order_counter = self.order_counter + 1;
        let mut id = String::new();
        proof {
            reveal_strlit("HTB_");
        }
        id.append("HTB_");
        push_decimal_u64(&mut id, self.order_counter);
        id
    }

    /// Submit a bracket order: refused unless connected; otherwise it gets the next
    /// local id and, in simulation, is tracked with no basket id and its stop and target
    /// still to come; outside simulation the broker's call is left to the caller.
    pub fn submit_bracket_order(&mut self, symbol: &str, exchange: &str, side: &str, quantity: i32, stop_ticks: i32, profit_ticks: i32, entry_price: Option<Price>) -> (r: Result<String, ConnectionError>)
        requires
            old(self).order_counter < u64::MAX,
        ensures
            final(self).state == old(self).state,
            final(self).mode == old(self).mode,
            final(self).user == old(self).user,
            final(self).exchange == old(self).exchange,
            final(self).policy == old(self).policy,
            old(self).state != ConnectionState::Connected ==> r == Err::<String, ConnectionError>(ConnectionError::NotConnected)
                && final(self).active_orders@ == old(self).active_orders@ && final(self).order_counter == old(self).order_counter,
            old(self).state == ConnectionState::Connected ==> {
                &&& final(self).order_counter == old(self).order_counter + 1
                &&& old(self).mode == ExecutionMode::Simulation ==> {
                    &&& r matches Ok(id) && id@ == order_id_text(final(self).order_counter as nat)
                    &&& final(self).active_orders@.len() == old(self).active_orders@.len() + 1
                    &&& final(self).active_orders@.drop_last() == old(self).active_orders@
                    &&& ({
                        let o = final(self).active_orders@.last();
                        &&& o.local_id@ == order_id_text(final(self).order_counter as nat)
                        &&& o.basket_id is None
                        &&& o.symbol@ == symbol@
                        &&& o.exchange@ == exchange@
                        &&& o.side@ == side@
                        &&& o.quantity == quantity
                        &&& o.entry_price == entry_price
                        &&& o.stop_price == 0
                        &&& o.target_price == 0
                    })
                }
                &&& old(self).mode != ExecutionMode::Simulation ==> r == Err::<String, ConnectionError>(ConnectionError::BrokerRequired)
                    && final(self).active_orders@ == old(self).active_orders@
            },
    {
        if !self.is_connected() {
            return Err(ConnectionError::NotConnected);
        }
        let local_id = self.next_order_id();
        if self.mode != ExecutionMode::Simulation {
            return Err(ConnectionError::BrokerRequired);
        }
        let order = ActiveOrder {
            local_id: local_id.clone(),
            basket_id: None,
            symbol: symbol.to_owned(),
            exchange: exchange.to_owned(),
            side: side.to_owned(),
            quantity,
            entry_price,
            stop_price: 0,
            target_price: 0,
        };
        let ghost before = self.active_orders@;
        self.active_orders.push(order);
        assert(self.active_orders@.drop_last() =~= before);
        Ok(local_id)
    }

    /// Submit a market order: a bracket with no stop or target distance and no limit
    /// price on the configured exchange (see `submit_bracket_order`).
    pub fn submit_market_order(&mut self, symbol: &str, side: &str, quantity: i32) -> (r: Result<String, ConnectionError>)
        requires
            old(self).order_counter < u64::MAX,
        ensures
            final(self).state == old(self).state,
            final(self).mode == old(self).mode,
            final(self).user == old(self).user,
            final(self).exchange == old(self).exchange,
            final(self).policy == old(self).policy,
            old(self).state != ConnectionState::Connected ==> r == Err::<String, ConnectionError>(ConnectionError::NotConnected)
                && final(self).active_orders@ == old(self).active_orders@ && final(self).order_counter == old(self).order_counter,
            old(self).state == ConnectionState::Connected ==> {
                &&& final(self).order_counter == old(self).order_counter + 1
                &&& old(self).mode == ExecutionMode::Simulation ==> {
                    &&& r matches Ok(id) && id@ == order_id_text(final(self).order_counter as nat)
                    &&& final(self).active_orders@.drop_last() == old(self).active_orders@
                    &&& final(self).active_orders@.len() == old(self).active_orders@.len() + 1
                    &&& ({
                        let o = final(self).active_orders@.last();
                        &&& o.local_id@ == order_id_text(final(self).order_counter as nat)
                        &&& o.basket_id is None
                        &&& o.symbol@ == symbol@
                        &&& o.exchange@ == old(self).exchange@
                        &&& o.side@ == side@
                        &&& o.quantity == quantity
                        &&& o.entry_price is None
                        &&& o.stop_price == 0
                        &&& o.target_price == 0
                    })
                }
                &&& old(self).mode != ExecutionMode::Simulation ==> r == Err::<String, ConnectionError>(ConnectionError::BrokerRequired)
                    && final(self).active_orders@ == old(self).active_orders@
            },
    {
        let exchange = self.exchange.clone();
        self.submit_bracket_order(symbol, exchange.as_str(), side, quantity, 0, 0, None)
    }

    /// Submit a stop or a limit order: refused unless connected; otherwise it only gets
    /// the next local id (such orders are not placed on their own).
    pub fn submit_standalone_order(&mut self) -> (r: Result<String, ConnectionError>)
        requires
            old(self).order_counter < u64::MAX,
        ensures
            final(self).state == old(self).state,
            final(self).mode == old(self).mode,
            final(self).user == old(self).user,
            final(self).exchange == old(self).exchange,
            final(self).policy == old(self).policy,
            final(self).active_orders@ == old(self).active_orders@,
            old(self).state != ConnectionState::Connected ==> r == Err::<String, ConnectionError>(ConnectionError::NotConnected)
                && final(self).order_counter == old(self).order_counter,
            old(self).state == ConnectionState::Connected ==> final(self).order_counter == old(self).order_counter + 1
                && (r matches Ok(id) && id@ == order_id_text(final(self).order_counter as nat)),
    {
        if !self.is_connected() {
            return Err(ConnectionError::NotConnected);
        }
        Ok(self.next_order_id())
    }

    /// Modify an order's stop or prices: refused unless connected; in simulation there is
    /// nothing to change; outside it the broker's call is left to the caller.
    pub fn modify_order(&self) -> (r: Result<(), ConnectionError>)
        ensures
            self.state != ConnectionState::Connected ==> r == Err::<(), ConnectionError>(ConnectionError::NotConnected),
            self.state == ConnectionState::Connected && self.mode == ExecutionMode::Simulation ==> r is Ok,
            self.state == ConnectionState::Connected && self.mode != ExecutionMode::Simulation ==> r == Err::<(), ConnectionError>(
                ConnectionError::BrokerRequired,
            ),
    {
        if !self.is_connected() {
            return Err(ConnectionError::NotConnected);
        }
        if self.mode != ExecutionMode::Simulation {
            return Err(ConnectionError::BrokerRequired);
        }
        Ok(())
    }

    /// Cancel an order: refused unless connected; in simulation every tracked order
    /// with that local id leaves; outside it the broker's call is left to the caller.
    pub fn cancel_order(&mut self, order_id: &str) -> (r: Result<(), ConnectionError>)
        ensures
            final(self).state == old(self).state,
            final(self).mode == old(self).mode,
            final(self).user == old(self).user,
            final(self).exchange == old(self).exchange,
            final(self).policy == old(self).policy,
            final(self).order_counter == old(self).order_counter,
            old(self).state != ConnectionState::Connected ==> r == Err::<(), ConnectionError>(ConnectionError::NotConnected)
                && final(self).active_orders@ == old(self).active_orders@,
            old(self).state == ConnectionState::Connected && old(self).mode == ExecutionMode::Simulation ==> r is Ok
                && final(self).active_orders@ == orders_without_id(old(self).active_orders@, order_id@),
            old(self).state == ConnectionState::Connected && old(self).mode != ExecutionMode::Simulation ==> r == Err::<(), ConnectionError>(
                ConnectionError::BrokerRequired,
            ) && final(self).active_orders@ == old(self).active_orders@,
    {
        if !self.is_connected() {
            return Err(ConnectionError::NotConnected);
        }
        if self.mode != ExecutionMode::Simulation {
            return Err(ConnectionError::BrokerRequired);
        }
        self.active_orders = kept_orders(&self.active_orders, order_id, false);
        Ok(())
    }

    /// Cancel all orders: refused unless connected; in simulation nothing stays tracked;
    /// outside it the broker's call is left to the caller.
    pub fn cancel_all_orders(&mut self) -> (r: Result<(), ConnectionError>)
        ensures
            final(self).state == old(self).state,
            final(self).mode == old(self).mode,
            final(self).user == old(self).user,
            final(self).exchange == old(self).exchange,
            final(self).policy == old(self).policy,
            final(self).order_counter == old(self).order_counter,
            old(self).state != ConnectionState::Connected ==> r == Err::<(), ConnectionError>(ConnectionError::NotConnected)
                && final(self).active_orders@ == old(self).active_orders@,
            old(self).state == ConnectionState::Connected && old(self).mode == ExecutionMode::Simulation ==> r is Ok
                && final(self).active_orders@.len() == 0,
            old(self).state == ConnectionState::Connected && old(self).mode != ExecutionMode::Simulation ==> r == Err::<(), ConnectionError>(
                ConnectionError::BrokerRequired,
            ) && final(self).active_orders@ == old(self).active_orders@,
    {
        if !self.is_connected() {
            return Err(ConnectionError::NotConnected);
        }
        if self.mode != ExecutionMode::Simulation {
            return Err(ConnectionError::BrokerRequired);
        }
        self.active_orders.clear();
        Ok(())
    }

    /// Exit the position on a symbol: refused unless connected; in simulation the
    /// symbol's orders leave; outside it the broker's call is left to the caller.
    pub fn exit_position(&mut self, symbol: &str, exchange: &str) -> (r: Result<(), ConnectionError>)
        ensures
            final(self).state == old(self).state,
            final(self).mode == old(self).mode,
            final(self).user == old(self).user,
            final(self).exchange == old(self).exchange,
            final(self).policy == old(self).policy,
            final(self).order_counter == old(self).order_counter,
            old(self).state != ConnectionState::Connected ==> r == Err::<(), ConnectionError>(ConnectionError::NotConnected)
                && final(self).active_orders@ == old(self).active_orders@,
            old(self).state == ConnectionState::Connected && old(self).mode == ExecutionMode::Simulation ==> r is Ok
                && final(self).active_orders@ == orders_off_symbol(old(self).active_orders@, symbol@),
            old(self).state == ConnectionState::Connected && old(self).mode != ExecutionMode::Simulation ==> r == Err::<(), ConnectionError>(
                ConnectionError::BrokerRequired,
            ) && final(self).active_orders@ == old(self).active_orders@,
    {
        if !self.is_connected() {
            return Err(ConnectionError::NotConnected);
        }
        if self.mode != ExecutionMode::Simulation {
            return Err(ConnectionError::BrokerRequired);
        }
        self.active_orders = kept_orders(&self.active_orders, symbol, true);
        Ok(())
    }
}

} // verus!
