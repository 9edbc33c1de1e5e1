//! Orders, and the bracket order (entry, stop loss, take profit) with its
//! trailing stop.

use vstd::prelude::*;

use crate::clock::now_millis;
use crate::units::{fits_i32, fits_i64, weighted_average, weighted_average_fits, weighted_average_of, AvgPrice, Price};

verus! {

/// Order side.
#[derive(Debug, Clone, Copy, PartialEq, Eq, Structural)]
pub enum OrderSide {
    Buy,
    Sell,
}

impl OrderSide {
    /// The other side.
    pub open spec fn flipped(self) -> OrderSide {
        match self {
            OrderSide::Buy => OrderSide::Sell,
            OrderSide::Sell => OrderSide::Buy,
        }
    }

    /// The side that closes a position opened on this side.
    pub fn opposite(&self) -> (r: OrderSide)
        ensures
            r == self.flipped(),
    {
        match self {
            OrderSide::Buy => OrderSide::Sell,
            OrderSide::Sell => OrderSide::Buy,
        }
    }

    /// The side as the exchange spells it: `BUY` or `SELL`.
    pub fn label(&self) -> (r: &'static str)
        ensures
            *self == OrderSide::Buy ==> r@ == "BUY"@,
            *self == OrderSide::Sell ==> r@ == "SELL"@,
    {
        match self {
            OrderSide::Buy => "BUY",
            OrderSide::Sell => "SELL",
        }
    }
}

/// Taking the opposite side twice gives the side back, and a side is never its own
/// opposite.
pub proof fn lemma_opposite_involution(side: OrderSide)
    ensures
        side.flipped().flipped() == side,
        side.flipped() != side,
{
}

/// Order type.
#[derive(Debug, Clone, Copy, PartialEq, Eq, Structural)]
pub enum OrderType {
    Market,
    Limit,
    Stop,
    StopLimit,
}

/// State of an order.
#[derive(Debug, Clone, Copy, PartialEq, Eq, Structural)]
pub enum OrderState {
    /// Created but not yet submitted
    Pending,
    /// Submitted to the exchange
    Submitted,
    /// Acknowledged by the exchange
    Working,
    /// Partially filled
    PartiallyFilled,
    /// Completely filled
    Filled,
    /// Cancelled
    Cancelled,
    /// Rejected by the exchange
    Rejected,
}

impl OrderState {
    /// Whether no further change can happen to an order in this state.
    pub open spec fn terminal(self) -> bool {
        self == OrderState::Filled || self == OrderState::Cancelled || self == OrderState::Rejected
    }

    /// Whether an order in this state can be cancelled or modified.
    pub open spec fn active(self) -> bool {
        self == OrderState::Working || self == OrderState::PartiallyFilled
    }

    /// The state's display name.
    pub fn label(&self) -> (r: &'static str)
        ensures
            *self == OrderState::Pending ==> r@ == "PENDING"@,
            *self == OrderState::Submitted ==> r@ == "SUBMITTED"@,
            *self == OrderState::Working ==> r@ == "WORKING"@,
            *self == OrderState::PartiallyFilled ==> r@ == "PARTIAL"@,
            *self == OrderState::Filled ==> r@ == "FILLED"@,
            *self == OrderState::Cancelled ==> r@ == "CANCELLED"@,
            *self == OrderState::Rejected ==> r@ == "REJECTED"@,
    {
        match self {
            OrderState::Pending => "PENDING",
            OrderState::Submitted => "SUBMITTED",
            OrderState::Working => "WORKING",
            OrderState::PartiallyFilled => "PARTIAL",
            OrderState::Filled => "FILLED",
            OrderState::Cancelled => "CANCELLED",
            OrderState::Rejected => "REJECTED",
        }
    }
}

/// No order state is both terminal and active.
pub proof fn lemma_terminal_excludes_active(state: OrderState)
    ensures
        !(state.terminal() && state.active()),
{
}

/// An individual order. Timestamps are milliseconds since the Unix epoch.
#[derive(Debug, Clone)]
pub struct Order {
    /// Client-side identifier
    pub id: u128,
    /// Exchange order ID, set after submission
    pub exchange_order_id: Option<String>,
    pub symbol: String,
    pub exchange: String,
    pub side: OrderSide,
    pub order_type: OrderType,
    /// Quantity in contracts
    pub quantity: i32,
    pub filled_quantity: i32,
    /// Limit price (limit orders)
    pub limit_price: Option<Price>,
    /// Stop price (stop orders)
    pub stop_price: Option<Price>,
    pub state: OrderState,
    pub avg_fill_price: Option<AvgPrice>,
    pub created_at: i64,
    pub updated_at: i64,
}

/// Bounds on a product from bounds on its factors.
pub proof fn lemma_mul_bounded(a: int, b: int, ba: int, bb: int)
    requires
        -ba <= a <= ba,
        -bb <= b <= bb,
    ensures
        -(ba * bb) <= a * b <= ba * bb,
{
    assert(-(ba * bb) <= a * b <= ba * bb) by (nonlinear_arith)
        requires -ba <= a <= ba, -bb <= b <= bb;
}

impl Order {
    /// A new order as the three constructors build it.
    pub open spec fn fresh(
        self,
        symbol: Seq<char>,
        exchange: Seq<char>,
        side: OrderSide,
        order_type: OrderType,
        quantity: i32,
        limit_price: Option<Price>,
        stop_price: Option<Price>,
    ) -> bool {
        &&& self.exchange_order_id is None
        &&& self.symbol@ == symbol
        &&& self.exchange@ == exchange
        &&& self.side == side
        &&& self.order_type == order_type
        &&& self.quantity == quantity
        &&& self.filled_quantity == 0
        &&& self.limit_price == limit_price
        &&& self.stop_price == stop_price
        &&& self.state == OrderState::Pending
        &&& self.avg_fill_price is None
        &&& self.created_at == self.updated_at
    }

    /// A new market order.
    pub fn market(symbol: &str, exchange: &str, side: OrderSide, quantity: i32) -> (o: Order)
        ensures
            o.fresh(symbol@, exchange@, side, OrderType::Market, quantity, None, None),
    {
        let now = now_millis();
        Order {
            id: crate::clock::new_id(),
            exchange_order_id: None,
            symbol: symbol.to_owned(),
            exchange: exchange.to_owned(),
            side,
            order_type: OrderType::Market,
            quantity,
            filled_quantity: 0,
            limit_price: None,
            stop_price: None,
            state: OrderState::Pending,
            avg_fill_price: None,
            created_at: now,
            updated_at: now,
        }
    }

    /// A new stop order.
    pub fn stop(symbol: &str, exchange: &str, side: OrderSide, quantity: i32, stop_price: Price) -> (o: Order)
        ensures
            o.fresh(symbol@, exchange@, side, OrderType::Stop, quantity, None, Some(stop_price)),
    {
        let now = now_millis();
        Order {
            id: crate::clock::new_id(),
            exchange_order_id: None,
            symbol: symbol.to_owned(),
            exchange: exchange.to_owned(),
            side,
            order_type: OrderType::Stop,
            quantity,
            filled_quantity: 0,
            limit_price: None,
            stop_price: Some(stop_price),
            state: OrderState::Pending,
            avg_fill_price: None,
            created_at: now,
            updated_at: now,
        }
    }

    /// A new limit order.
    pub fn limit(symbol: &str, exchange: &str, side: OrderSide, quantity: i32, limit_price: Price) -> (o: Order)
        ensures
            o.fresh(symbol@, exchange@, side, OrderType::Limit, quantity, Some(limit_price), None),
    {
        let now = now_millis();
        Order {
            id: crate::clock::new_id(),
            exchange_order_id: None,
            symbol: symbol.to_owned(),
            exchange: exchange.to_owned(),
            side,
            order_type: OrderType::Limit,
            quantity,
            filled_quantity: 0,
            limit_price: Some(limit_price),
            stop_price: None,
            state: OrderState::Pending,
            avg_fill_price: None,
            created_at: now,
            updated_at: now,
        }
    }

    /// Whether the order is filled, cancelled or rejected.
    pub fn is_terminal(&self) -> (r: bool)
        ensures
            r == self.state.terminal(),
    {
        match self.state {
            OrderState::Filled | OrderState::Cancelled | OrderState::Rejected => true,
            _ => false,
        }
    }

    /// Whether the order is working or partially filled.
    pub fn is_active(&self) -> (r: bool)
        ensures
            r == self.state.active(),
    {
        match self.state {
            OrderState::Working | OrderState::PartiallyFilled => true,
            _ => false,
        }
    }

    /// The order after a change of state at time `now`.
    pub open spec fn with_state(self, state: OrderState, now: i64) -> Order {
        Order { state: state, updated_at: now, ..self }
    }

    /// Set the state.
    pub fn update_state(&mut self, state: OrderState)
        ensures
            *final(self) == old(self).with_state(state, final(self).updated_at),
    {
        self.state = state;
        self.updated_at = now_millis();
    }

    /// The order after a fill of `qty` at `price` at time `now`: the average fill price
    /// is the exact weighted average (see `weighted_average`) over the quantity filled
    /// before.
    pub open spec fn after_fill(self, qty: i32, price: Price, now: i64) -> Order {
        let filled = self.filled_quantity + qty;
        let (num, den) = weighted_average(self.avg_fill_price, self.filled_quantity as int, price, qty as int);
        Order {
            filled_quantity: filled as i32,
            avg_fill_price: Some(AvgPrice { num: num as i128, den: den as i128 }),
            updated_at: now,
            state: if filled >= self.quantity { OrderState::Filled } else { OrderState::PartiallyFilled },
            ..self
        }
    }

    /// Record a fill of `fill_quantity` contracts at `fill_price`: the filled quantity
    /// grows, the average fill price is the weighted average, and the order becomes
    /// filled once the filled quantity reaches the order quantity.
    pub fn record_fill(&mut self, fill_quantity: i32, fill_price: Price)
        requires
            fits_i32(old(self).filled_quantity + fill_quantity),
            weighted_average_fits(old(self).avg_fill_price, old(self).filled_quantity as int, fill_price, fill_quantity as int),
        ensures
            *final(self) == old(self).after_fill(fill_quantity, fill_price, final(self).updated_at),
    {
        let avg = weighted_average_of(self.avg_fill_price, self.filled_quantity, fill_price, fill_quantity);
        let filled: i32 = self.filled_quantity + fill_quantity;
        self.filled_quantity = filled;
        self.avg_fill_price = Some(avg);
        self.updated_at = now_millis();
        if self.filled_quantity >= self.quantity {
            self.state = OrderState::Filled;
        } else {
            self.state = OrderState::PartiallyFilled;
        }
    }
}

/// State of a bracket order.
#[derive(Debug, Clone, Copy, PartialEq, Eq, Structural)]
pub enum BracketState {
    /// Entry order pending
    PendingEntry,
    /// Entry order working
    EntryWorking,
    /// Position open, stop and target working
    PositionOpen,
    /// Exiting the position
    Exiting,
    /// Position closed
    Complete,
    /// Entry not filled
    Cancelled,
}

/// P&L in price units of one contract held on `side` from `entry` to `exit`.
pub open spec fn side_pnl(side: OrderSide, entry: int, exit: int) -> int {
    match side {
        OrderSide::Buy => exit - entry,
        OrderSide::Sell => entry - exit,
    }
}

/// A bracket order: an entry, then a stop loss and a take profit once filled.
#[derive(Debug, Clone)]
pub struct BracketOrder {
    pub id: u128,
    pub entry: Order,
    /// Stop loss order, created after the entry fill
    pub stop_loss: Option<Order>,
    /// Take profit order, created after the entry fill
    pub take_profit: Option<Order>,
    pub state: BracketState,
    /// Entry price, set after the fill
    pub entry_price: Option<Price>,
    /// Exit price, set after the exit fill
    pub exit_price: Option<Price>,
    /// LVN level that triggered the trade
    pub lvn_level: Price,
    /// Realized P&L in price units (all contracts)
    pub realized_pnl: Option<i64>,
    /// High water mark for the trailing stop (long)
    pub high_water_mark: Option<Price>,
    /// Low water mark for the trailing stop (short)
    pub low_water_mark: Option<Price>,
    pub created_at: i64,
    pub closed_at: Option<i64>,
}

impl BracketOrder {
    /// A new bracket as the two constructors build it.
    pub open spec fn fresh(self, symbol: Seq<char>, exchange: Seq<char>, side: OrderSide, quantity: i32, lvn_level: Price) -> bool {
        &&& self.entry.fresh(symbol, exchange, side, OrderType::Market, quantity, None, None)
        &&& self.stop_loss is None
        &&& self.take_profit is None
        &&& self.state == BracketState::PendingEntry
        &&& self.entry_price is None
        &&& self.exit_price is None
        &&& self.lvn_level == lvn_level
        &&& self.realized_pnl is None
        &&& self.high_water_mark is None
        &&& self.low_water_mark is None
        &&& self.closed_at is None
    }

    fn new_with_side(symbol: &str, exchange: &str, side: OrderSide, quantity: i32, lvn_level: Price) -> (b: BracketOrder)
        ensures
            b.fresh(symbol@, exchange@, side, quantity, lvn_level),
    {
        let entry = Order::market(symbol, exchange, side, quantity);
        BracketOrder {
            id: crate::clock::new_id(),
            entry,
            stop_loss: None,
            take_profit: None,
            state: BracketState::PendingEntry,
            entry_price: None,
            exit_price: None,
            lvn_level,
            realized_pnl: None,
            high_water_mark: None,
            low_water_mark: None,
            created_at: now_millis(),
            closed_at: None,
        }
    }

    /// A bracket whose entry is a market buy. The stop buffer is applied later, by
    /// `set_exit_orders`.
    pub fn new_long(symbol: &str, exchange: &str, quantity: i32, lvn_level: Price, _stop_buffer: Price) -> (b: BracketOrder)
        ensures
            b.fresh(symbol@, exchange@, OrderSide::Buy, quantity, lvn_level),
    {
        Self::new_with_side(symbol, exchange, OrderSide::Buy, quantity, lvn_level)
    }

    /// A bracket whose entry is a market sell.
    pub fn new_short(symbol: &str, exchange: &str, quantity: i32, lvn_level: Price, _stop_buffer: Price) -> (b: BracketOrder)
        ensures
            b.fresh(symbol@, exchange@, OrderSide::Sell, quantity, lvn_level),
    {
        Self::new_with_side(symbol, exchange, OrderSide::Sell, quantity, lvn_level)
    }

    /// Whether the bracket is long.
    pub open spec fn long(self) -> bool {
        self.entry.side == OrderSide::Buy
    }

    /// Stop price placed beyond the LVN level by `stop_buffer`.
    pub open spec fn initial_stop(self, stop_buffer: int) -> int {
        if self.long() {
            self.lvn_level - stop_buffer
        } else {
            self.lvn_level + stop_buffer
        }
    }

    /// Take-profit price `take_profit` away from the entry.
    pub open spec fn target_price(self, entry_price: int, take_profit: int) -> int {
        if self.long() {
            entry_price + take_profit
        } else {
            entry_price - take_profit
        }
    }

    /// Whether `set_exit_orders` may be called with these arguments without overflow.
    pub open spec fn exit_orders_fit(self, entry_price: Price, take_profit_pts: Price, stop_buffer: Price) -> bool {
        fits_i64(self.initial_stop(stop_buffer as int)) && fits_i64(self.target_price(entry_price as int, take_profit_pts as int))
    }

    /// What `set_exit_orders` leaves: the entry price, a stop order and a limit order on
    /// the closing side for the entry quantity, the water mark of the trade's side at
    /// the entry price, and the open-position state.
    pub open spec fn exits_set(old: BracketOrder, new: BracketOrder, entry_price: Price, take_profit_pts: Price, stop_buffer: Price) -> bool {
        &&& new.entry_price == Some(entry_price)
        &&& new.stop_loss matches Some(s) && s.fresh(
            old.entry.symbol@,
            old.entry.exchange@,
            old.entry.side.flipped(),
            OrderType::Stop,
            old.entry.quantity,
            None,
            Some(old.initial_stop(stop_buffer as int) as i64),
        )
        &&& new.take_profit matches Some(t) && t.fresh(
            old.entry.symbol@,
            old.entry.exchange@,
            old.entry.side.flipped(),
            OrderType::Limit,
            old.entry.quantity,
            Some(old.target_price(entry_price as int, take_profit_pts as int) as i64),
            None,
        )
        &&& new.high_water_mark == (if old.long() { Some(entry_price) } else { old.high_water_mark })
        &&& new.low_water_mark == (if old.long() { old.low_water_mark } else { Some(entry_price) })
        &&& new.state == BracketState::PositionOpen
        &&& new.id == old.id
        &&& new.entry == old.entry
        &&& new.exit_price == old.exit_price
        &&& new.lvn_level == old.lvn_level
        &&& new.realized_pnl == old.realized_pnl
        &&& new.created_at == old.created_at
        &&& new.closed_at == old.closed_at
    }

    /// Set the stop and the target after the entry fill at `entry_price`.
    pub fn set_exit_orders(&mut self, entry_price: Price, take_profit_pts: Price, stop_buffer: Price)
        requires
            old(self).exit_orders_fit(entry_price, take_profit_pts, stop_buffer),
        ensures
            Self::exits_set(*old(self), *final(self), entry_price, take_profit_pts, stop_buffer),
    {
        self.entry_price = Some(entry_price);
        let is_long = self.entry.side == OrderSide::Buy;
        let stop_price = if is_long {
            self.lvn_level - stop_buffer
        } else {
            self.lvn_level + stop_buffer
        };
        let tp_price = if is_long {
            entry_price + take_profit_pts
        } else {
            entry_price - take_profit_pts
        };
        let exit_side = self.entry.side.opposite();
        self.stop_loss = Some(Order::stop(
            self.entry.symbol.as_str(),
            self.entry.exchange.as_str(),
            exit_side,
            self.entry.quantity,
            stop_price,
        ));
        self.take_profit = Some(Order::limit(
            self.entry.symbol.as_str(),
            self.entry.exchange.as_str(),
            exit_side,
            self.entry.quantity,
            tp_price,
        ));
        if is_long {
            self.high_water_mark = Some(entry_price);
        } else {
            self.low_water_mark = Some(entry_price);
        }
        self.state = BracketState::PositionOpen;
    }

    /// The water mark after a price: the high rises for a long, the low falls for a
    /// short; a mark that was never set stays unset.
    pub open spec fn marks_after(self, price: Price) -> (Option<Price>, Option<Price>) {
        if self.long() {
            (
                match self.high_water_mark {
                    Some(h) => Some(if price > h { price } else { h }),
                    None => None,
                },
                self.low_water_mark,
            )
        } else {
            (
                self.high_water_mark,
                match self.low_water_mark {
                    Some(l) => Some(if price < l { price } else { l }),
                    None => None,
                },
            )
        }
    }

    /// The stop that trails the water mark by `trailing`, where it tightens the current
    /// stop: above it for a long, below it for a short.
    pub open spec fn trailed_stop(self, price: Price, trailing: Price) -> Option<int> {
        let marks = self.marks_after(price);
        match self.stop_loss {
            Some(s) => match s.stop_price {
                Some(cur) => if self.long() {
                    match marks.0 {
                        Some(h) => if h - trailing > cur { Some(h - trailing) } else { None },
                        None => None,
                    }
                } else {
                    match marks.1 {
                        Some(l) => if l + trailing < cur { Some(l + trailing) } else { None },
                        None => None,
                    }
                },
                None => None,
            },
            None => None,
        }
    }

    /// Whether `update_trailing_stop` may be called without overflow.
    pub open spec fn trail_fits(self, price: Price, trailing: Price) -> bool {
        let marks = self.marks_after(price);
        &&& (marks.0 matches Some(h) ==> fits_i64(h - trailing))
        &&& (marks.1 matches Some(l) ==> fits_i64(l + trailing))
    }

    /// What `update_trailing_stop` leaves: new water marks, and where the stop
    /// tightens, a stop order at the new price updated at `now`.
    pub open spec fn after_trail(self, price: Price, trailing: Price, now: i64) -> BracketOrder {
        let marks = self.marks_after(price);
        BracketOrder {
            high_water_mark: marks.0,
            low_water_mark: marks.1,
            stop_loss: match self.trailed_stop(price, trailing) {
                Some(n) => match self.stop_loss {
                    Some(s) => Some(Order { stop_price: Some(n as i64), updated_at: now, ..s }),
                    None => None,
                },
                None => self.stop_loss,
            },
            ..self
        }
    }

    /// Move the water mark with `current_price`, and trail the stop `trailing_pts`
    /// behind it where that tightens the stop. Returns the new stop when it moved.
    pub fn update_trailing_stop(&mut self, current_price: Price, trailing_pts: Price) -> (r: Option<Price>)
        requires
            old(self).trail_fits(current_price, trailing_pts),
        ensures
            r == (match old(self).trailed_stop(current_price, trailing_pts) {
                Some(n) => Some(n as i64),
                None => None,
            }),
            *final(self) == old(self).after_trail(
                current_price,
                trailing_pts,
                match final(self).stop_loss {
                    Some(s) => s.updated_at,
                    None => 0,
                },
            ),
    {
        let is_long = self.entry.side == OrderSide::Buy;
        if is_long {
            if let Some(hwm) = self.high_water_mark {
                if current_price > hwm {
                    self.high_water_mark = Some(current_price);
                }
            }
            if let Some(hwm) = self.high_water_mark {
                if let Some(stop) = &mut self.stop_loss {
                    let new_stop = hwm - trailing_pts;
                    if let Some(current_stop) = stop.stop_price {
                        if new_stop > current_stop {
                            let now = now_millis();
                            stop.stop_price = Some(new_stop);
                            stop.updated_at = now;
                            return Some(new_stop);
                        }
                    }
                }
            }
        } else {
            if let Some(lwm) = self.low_water_mark {
                if current_price < lwm {
                    self.low_water_mark = Some(current_price);
                }
            }
            if let Some(lwm) = self.low_water_mark {
                if let Some(stop) = &mut self.stop_loss {
                    let new_stop = lwm + trailing_pts;
                    if let Some(current_stop) = stop.stop_price {
                        if new_stop < current_stop {
                            let now = now_millis();
                            stop.stop_price = Some(new_stop);
                            stop.updated_at = now;
                            return Some(new_stop);
                        }
                    }
                }
            }
        }
        None
    }

    /// P&L in price units of the whole bracket if closed at `price`.
    pub open spec fn pnl_at(self, entry: Price, price: Price) -> int {
        side_pnl(self.entry.side, entry as int, price as int) * self.entry.quantity
    }

    /// Whether the P&L at `price` can be held by an `i64`.
    pub open spec fn pnl_fits(self, price: Price) -> bool {
        self.entry_price matches Some(e) ==> fits_i64(self.pnl_at(e, price))
    }

    /// What `complete` leaves.
    pub open spec fn completed(self, exit_price: Price, now: i64) -> BracketOrder {
        BracketOrder {
            exit_price: Some(exit_price),
            closed_at: Some(now),
            state: BracketState::Complete,
            realized_pnl: match self.entry_price {
                Some(e) => Some(self.pnl_at(e, exit_price) as i64),
                None => self.realized_pnl,
            },
            ..self
        }
    }

    /// Mark the bracket complete with its exit price and realized P&L.
    pub fn complete(&mut self, exit_price: Price)
        requires
            old(self).pnl_fits(exit_price),
        ensures
            *final(self) == old(self).completed(exit_price, final(self).closed_at.unwrap()),
    {
        let now = now_millis();
        self.exit_price = Some(exit_price);
        self.closed_at = Some(now);
        self.state = BracketState::Complete;
        if let Some(entry) = self.entry_price {
            let pnl: i128 = if self.entry.side == OrderSide::Buy {
                exit_price as i128 - entry as i128
            } else {
                entry as i128 - exit_price as i128
            };
            proof {
                lemma_mul_bounded(pnl as int, self.entry.quantity as int, 0x1_0000_0000_0000_0000, 0x8000_0000);
            }
            self.realized_pnl = Some((pnl * self.entry.quantity as i128) as i64);
        }
    }

    /// Whether the bracket is complete or cancelled.
    pub fn is_terminal(&self) -> (r: bool)
        ensures
            r == (self.state == BracketState::Complete || self.state == BracketState::Cancelled),
    {
        match self.state {
            BracketState::Complete | BracketState::Cancelled => true,
            _ => false,
        }
    }

    /// The side of the position.
    pub fn position_side(&self) -> (r: OrderSide)
        ensures
            r == self.entry.side,
    {
        self.entry.side
    }

    /// Unrealized P&L in price units at `current_price`, once entered.
    pub fn unrealized_pnl(&self, current_price: Price) -> (r: Option<i64>)
        requires
            self.pnl_fits(current_price),
        ensures
            r == (match self.entry_price {
                Some(e) => Some(self.pnl_at(e, current_price) as i64),
                None => None,
            }),
    {
        match self.entry_price {
            Some(entry) => {
                let pnl: i128 = if self.entry.side == OrderSide::Buy {
                    current_price as i128 - entry as i128
                } else {
                    entry as i128 - current_price as i128
                };
                proof {
                    lemma_mul_bounded(pnl as int, self.entry.quantity as int, 0x1_0000_0000_0000_0000, 0x8000_0000);
                }
                Some((pnl * self.entry.quantity as i128) as i64)
            },
            None => None,
        }
    }
}

/// The trailing stop only ever tightens: after an update, a long's stop is no lower
/// and a short's stop no higher than before.
pub proof fn lemma_trailing_stop_never_loosens(b: BracketOrder, price: Price, trailing: Price, now: i64)
    requires
        b.stop_loss matches Some(s) && s.stop_price is Some,
        b.trail_fits(price, trailing),
    ensures
        ({
            let after = b.after_trail(price, trailing, now);
            let before_stop = b.stop_loss.unwrap().stop_price.unwrap();
            &&& after.stop_loss matches Some(s) && s.stop_price is Some
            &&& b.long() ==> after.stop_loss.unwrap().stop_price.unwrap() >= before_stop
            &&& !b.long() ==> after.stop_loss.unwrap().stop_price.unwrap() <= before_stop
        }),
{
}

/// Trailing never loosens a stop, on any prices: where the stop moves, a long's new stop
/// is above its current one and a short's below it, and the water mark of the trade's
/// side follows the price (the high only rises for a long, the low only falls for a
/// short).
pub proof fn lemma_trailed_stop_tightens(b: BracketOrder, price: Price, trailing: Price)
    ensures
        b.trailed_stop(price, trailing) matches Some(n) ==> {
            let cur = b.stop_loss.unwrap().stop_price.unwrap();
            &&& b.long() ==> n > cur
            &&& !b.long() ==> n < cur
        },
        b.long() ==> b.marks_after(price).0 == match b.high_water_mark {
            Some(h) => Some(if price > h { price } else { h }),
            None => None,
        },
        !b.long() ==> b.marks_after(price).1 == match b.low_water_mark {
            Some(l) => Some(if price < l { price } else { l }),
            None => None,
        },
{
}

/// The trailing stop never moves past the water mark: a long's new stop is at most the
/// high water mark less the trailing distance, a short's at least the low water mark
/// plus it.
pub proof fn lemma_trailing_stop_behind_mark(b: BracketOrder, price: Price, trailing: Price)
    ensures
        b.trailed_stop(price, trailing) matches Some(n) ==> (if b.long() {
            b.marks_after(price).0 matches Some(h) && n == h - trailing
        } else {
            b.marks_after(price).1 matches Some(l) && n == l + trailing
        }),
{
}

/// Closing a bracket at a price realizes exactly the P&L that was unrealized at that
/// price.
pub proof fn lemma_complete_realizes_unrealized(b: BracketOrder, exit_price: Price, now: i64)
    requires
        b.entry_price is Some,
        b.pnl_fits(exit_price),
    ensures
        b.completed(exit_price, now).realized_pnl == Some(b.pnl_at(b.entry_price.unwrap(), exit_price) as i64),
        b.completed(exit_price, now).realized_pnl.unwrap() == b.pnl_at(b.entry_price.unwrap(), exit_price),
{
}

/// A bracket's target is the take-profit distance on the winning side of the entry
/// (above a long's, below a short's) and its stop the buffer beyond the LVN level on the
/// losing side; a short's P&L is a long's negated.
pub proof fn lemma_bracket_sides(b: BracketOrder, entry: int, take_profit: int, stop_buffer: int, exit: int)
    ensures
        b.long() ==> b.target_price(entry, take_profit) - entry == take_profit && b.lvn_level - b.initial_stop(stop_buffer)
            == stop_buffer,
        !b.long() ==> entry - b.target_price(entry, take_profit) == take_profit && b.initial_stop(stop_buffer) - b.lvn_level
            == stop_buffer,
        side_pnl(OrderSide::Buy, entry, exit) == exit - entry,
        side_pnl(OrderSide::Sell, entry, exit) == -side_pnl(OrderSide::Buy, entry, exit),
{
}

} // verus!
