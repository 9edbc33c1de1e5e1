//! Position management and P&L tracking.

use std::collections::VecDeque;
use vstd::prelude::*;

use crate::clock::{new_york_date_text, new_york_today, now_millis};
use crate::execution::order::{lemma_mul_bounded, side_pnl, BracketOrder, BracketState, OrderSide};
use crate::units::{fits_i32, fits_i64, weighted_average, weighted_average_fits, weighted_average_of, AvgPrice, Price};

verus! {


/// A completed trade.
#[derive(Debug, Clone, Copy, PartialEq, Eq, Structural)]
pub struct TradeRecord {
    pub entry_price: Price,
    pub exit_price: Price,
    pub side: OrderSide,
    /// Number of contracts
    pub quantity: i32,
    /// P&L in price units (all contracts)
    pub pnl_points: i64,
    /// Entry and exit times, milliseconds since the Unix epoch
    pub entry_time: i64,
    pub exit_time: i64,
    /// LVN level that triggered the trade
    pub lvn_level: Price,
}

/// The day's P&L summary. P&L in price units; balances in cents.
#[derive(Debug, Clone)]
pub struct DailyPnL {
    /// Date (YYYY-MM-DD), in New York
    pub date: String,
    pub gross_pnl: i64,
    pub trade_count: i32,
    pub wins: i32,
    pub losses: i32,
    /// Largest win
    pub largest_win: i64,
    /// Largest loss (zero or negative)
    pub largest_loss: i64,
    /// Largest fall of the balance from its peak, in cents
    pub max_drawdown: i64,
    /// Peak balance reached, in cents
    pub peak_balance: i64,
}

impl DailyPnL {
    /// A summary with no trades in it.
    pub open spec fn is_empty_day(self) -> bool {
        &&& self.gross_pnl == 0
        &&& self.trade_count == 0
        &&& self.wins == 0
        &&& self.losses == 0
        &&& self.largest_win == 0
        &&& self.largest_loss == 0
        &&& self.max_drawdown == 0
        &&& self.peak_balance == 0
    }
}

impl Default for DailyPnL {
    /// An empty summary dated today in New York, by the system clock.
    fn default() -> (d: DailyPnL)
        ensures
            d.is_empty_day(),
            exists|t: i64| d.date@ == new_york_date_text(t),
    {
        DailyPnL {
            date: new_york_today(),
            gross_pnl: 0,
            trade_count: 0,
            wins: 0,
            losses: 0,
            largest_win: 0,
            largest_loss: 0,
            max_drawdown: 0,
            peak_balance: 0,
        }
    }
}

/// Maximum number of trades kept in the history.
pub const MAX_HISTORY: usize = 1000;

/// What a position manager holds.
pub struct PositionModel {
    pub symbol: Seq<char>,
    /// Net position in contracts: positive long, negative short
    pub net_position: int,
    pub avg_entry_price: Option<AvgPrice>,
    pub brackets: Seq<BracketOrder>,
    /// Completed trades, oldest first
    pub history: Seq<TradeRecord>,
    pub daily: DailyPnL,
    /// Balances in cents
    pub running_balance: int,
    pub starting_balance: int,
    /// Dollars per point and contract
    pub point_value: int,
}

/// Tracks open brackets, the net position and P&L.
pub struct PositionManager {
    symbol: String,
    net_position: i32,
    avg_entry_price: Option<AvgPrice>,
    active_brackets: Vec<BracketOrder>,
    trade_history: VecDeque<TradeRecord>,
    daily_pnl: DailyPnL,
    running_balance: i64,
    starting_balance: i64,
    point_value: i64,
}

/// Index of the first bracket with the given id.
pub open spec fn first_with_id(brackets: Seq<BracketOrder>, id: u128) -> Option<int>
    decreases brackets.len(),
{
    if brackets.len() == 0 {
        None
    } else {
        match first_with_id(brackets.drop_last(), id) {
            Some(i) => Some(i),
            None => if brackets.last().id == id { Some(brackets.len() - 1) } else { None },
        }
    }
}

pub proof fn lemma_first_with_id(brackets: Seq<BracketOrder>, id: u128)
    ensures
        first_with_id(brackets, id) matches Some(i) ==> {
            &&& 0 <= i < brackets.len()
            &&& brackets[i].id == id
            &&& forall|j: int| 0 <= j < i ==> brackets[j].id != id
        },
        first_with_id(brackets, id) is None ==> forall|j: int| 0 <= j < brackets.len() ==> brackets[j].id != id,
    decreases brackets.len(),
{
    if brackets.len() > 0 {
        lemma_first_with_id(brackets.drop_last(), id);
        assert(forall|j: int| 0 <= j < brackets.len() - 1 ==> brackets.drop_last()[j] == brackets[j]);
    }
}

/// Brackets that are neither complete nor cancelled, in order.
pub open spec fn live_brackets(brackets: Seq<BracketOrder>) -> Seq<BracketOrder>
    decreases brackets.len(),
{
    if brackets.len() == 0 {
        brackets
    } else {
        let rest = live_brackets(brackets.drop_last());
        let b = brackets.last();
        if b.state == BracketState::Complete || b.state == BracketState::Cancelled {
            rest
        } else {
            rest.push(b)
        }
    }
}

/// Sum over the entered brackets of their P&L at `price`.
pub open spec fn open_pnl_sum(brackets: Seq<BracketOrder>, price: Price) -> int
    decreases brackets.len(),
{
    if brackets.len() == 0 {
        0
    } else {
        let b = brackets.last();
        open_pnl_sum(brackets.drop_last(), price) + match b.entry_price {
            Some(e) => b.pnl_at(e, price),
            None => 0,
        }
    }
}

/// Whether every partial sum of the open P&L, and every term of it, fits in an `i64`.
pub open spec fn open_pnl_fits(brackets: Seq<BracketOrder>, price: Price) -> bool {
    forall|k: int| 0 <= k <= brackets.len() ==> {
        &&& fits_i64(#[trigger] open_pnl_sum(brackets.take(k), price))
        &&& (k < brackets.len() ==> brackets[k].pnl_fits(price))
    }
}

/// The signed contract count of `quantity` on `side`.
pub open spec fn signed_qty(side: OrderSide, quantity: int) -> int {
    if side == OrderSide::Buy {
        quantity
    } else {
        -quantity
    }
}

pub open spec fn signum(x: int) -> int {
    if x > 0 {
        1
    } else if x < 0 {
        -1
    } else {
        0
    }
}

/// The average entry price after an entry fill of `quantity` on `side` at `price`, as
/// numerator and denominator: set to the fill price when flat; when adding to the
/// position, the weighted average of the old average (the fill price where there is
/// none) over the position's size and the fill (see `weighted_average`); kept when
/// reducing the position.
pub open spec fn next_avg(net: int, avg: Option<AvgPrice>, price: Price, quantity: int, side: OrderSide) -> Option<(int, int)> {
    let s = signed_qty(side, quantity);
    let n = if net < 0 { -net } else { net };
    if net == 0 {
        Some((price as int, 1))
    } else if signum(net) == signum(s) {
        match avg {
            None => Some((price * n + price * quantity, n + quantity)),
            Some(a) => Some(weighted_average(avg, n, price, quantity)),
        }
    } else {
        match avg {
            Some(a) => Some((a.num as int, a.den as int)),
            None => None,
        }
    }
}

/// Whether the terms of `next_avg` fit in `i128`: only a fill that adds to the position
/// computes a weighted average.
pub open spec fn avg_entry_fits(net: int, avg: Option<AvgPrice>, price: Price, quantity: int, side: OrderSide) -> bool {
    let n = if net < 0 { -net } else { net };
    net != 0 && signum(net) == signum(signed_qty(side, quantity)) ==> weighted_average_fits(avg, n, price, quantity)
}

/// The average entry price after an entry fill (see `next_avg`).
pub open spec fn avg_after_entry(net: int, avg: Option<AvgPrice>, price: Price, quantity: int, side: OrderSide) -> Option<AvgPrice> {
    match next_avg(net, avg, price, quantity, side) {
        Some((num, den)) => Some(AvgPrice { num: num as i128, den: den as i128 }),
        None => None,
    }
}

/// The running peak after a balance.
pub open spec fn max(a: int, b: int) -> int {
    if a > b {
        a
    } else {
        b
    }
}

pub open spec fn min(a: int, b: int) -> int {
    if a < b {
        a
    } else {
        b
    }
}

impl PositionModel {
    /// The trade record of closing bracket `b` at `price` at time `now`.
    pub open spec fn exit_record(b: BracketOrder, price: Price, now: i64) -> TradeRecord {
        TradeRecord {
            entry_price: b.entry_price.unwrap(),
            exit_price: price,
            side: b.entry.side,
            quantity: b.entry.quantity,
            pnl_points: b.pnl_at(b.entry_price.unwrap(), price) as i64,
            entry_time: b.created_at,
            exit_time: now,
            lvn_level: b.lvn_level,
        }
    }

    /// The day's summary after a trade with P&L `pnl` that leaves the balance at `balance`.
    pub open spec fn daily_after(d: DailyPnL, pnl: int, balance: int) -> DailyPnL {
        let peak = max(d.peak_balance as int, balance);
        DailyPnL {
            gross_pnl: (d.gross_pnl + pnl) as i64,
            trade_count: (d.trade_count + 1) as i32,
            wins: if pnl > 0 { (d.wins + 1) as i32 } else { d.wins },
            losses: if pnl > 0 { d.losses } else { (d.losses + 1) as i32 },
            largest_win: if pnl > 0 { max(d.largest_win as int, pnl) as i64 } else { d.largest_win },
            largest_loss: if pnl > 0 { d.largest_loss } else { min(d.largest_loss as int, pnl) as i64 },
            peak_balance: peak as i64,
            max_drawdown: max(d.max_drawdown as int, peak - balance) as i64,
            ..d
        }
    }

    /// Whether closing bracket `i` at `price` keeps every quantity within its integer type.
    pub open spec fn exit_fits(self, i: int, price: Price) -> bool {
        let b = self.brackets[i];
        let pnl = b.pnl_at(b.entry_price.unwrap(), price);
        let balance = self.running_balance + pnl * self.point_value;
        &&& fits_i64(pnl)
        &&& fits_i64(pnl * self.point_value)
        &&& fits_i64(balance)
        &&& fits_i64(self.daily.gross_pnl + pnl)
        &&& fits_i32(self.daily.trade_count + 1)
        &&& fits_i32(self.daily.wins + 1)
        &&& fits_i32(self.daily.losses + 1)
        &&& fits_i64(max(self.daily.peak_balance as int, balance) - balance)
        &&& fits_i32(self.net_position - signed_qty(b.entry.side, b.entry.quantity as int))
    }

    /// The manager after closing bracket `i` at `price`, the trade recorded at time `now`
    /// and the bracket closed at time `closed`: the P&L is booked
    /// into the balance and the day's summary, the position shrinks by the bracket's
    /// contracts, the trade joins the history (which keeps the last `MAX_HISTORY`),
    /// and the bracket is completed.
    pub open spec fn after_exit(self, i: int, price: Price, now: i64, closed: i64) -> PositionModel {
        let b = self.brackets[i];
        let pnl = b.pnl_at(b.entry_price.unwrap(), price);
        let balance = self.running_balance + pnl * self.point_value;
        let net = self.net_position - signed_qty(b.entry.side, b.entry.quantity as int);
        let history = self.history.push(Self::exit_record(b, price, now));
        PositionModel {
            running_balance: balance,
            daily: Self::daily_after(self.daily, pnl, balance),
            net_position: net,
            avg_entry_price: if net == 0 { None } else { self.avg_entry_price },
            history: if history.len() > MAX_HISTORY { history.subrange(1, history.len() as int) } else { history },
            brackets: self.brackets.update(i, b.completed(price, closed)),
            ..self
        }
    }
}

pub proof fn lemma_first_index_is(brackets: Seq<BracketOrder>, id: u128, i: int)
    requires
        0 <= i < brackets.len(),
        brackets[i].id == id,
        forall|j: int| 0 <= j < i ==> brackets[j].id != id,
    ensures
        first_with_id(brackets, id) == Some(i),
    decreases brackets.len(),
{
    if i < brackets.len() - 1 {
        lemma_first_index_is(brackets.drop_last(), id, i);
    } else {
        lemma_first_none(brackets.drop_last(), id);
    }
}

pub proof fn lemma_first_none(brackets: Seq<BracketOrder>, id: u128)
    requires
        forall|j: int| 0 <= j < brackets.len() ==> brackets[j].id != id,
    ensures
        first_with_id(brackets, id) is None,
    decreases brackets.len(),
{
    if brackets.len() > 0 {
        lemma_first_none(brackets.drop_last(), id);
    }
}

/// Replacing a bracket by one with the same id keeps the first index of that id.
pub proof fn lemma_first_with_id_update(brackets: Seq<BracketOrder>, i: int, b: BracketOrder, id: u128)
    requires
        first_with_id(brackets, id) == Some(i),
        b.id == id,
    ensures
        first_with_id(brackets.update(i, b), id) == Some(i),
{
    lemma_first_with_id(brackets, id);
    lemma_first_index_is(brackets.update(i, b), id, i);
}

fn sign_of(x: i32) -> (r: i32)
    ensures
        r == signum(x as int),
{
    if x > 0 {
        1
    } else if x < 0 {
        -1
    } else {
        0
    }
}

impl View for PositionManager {
    type V = PositionModel;

    closed spec fn view(&self) -> PositionModel {
        PositionModel {
            symbol: self.symbol@,
            net_position: self.net_position as int,
            avg_entry_price: self.avg_entry_price,
            brackets: self.active_brackets@,
            history: self.trade_history@,
            daily: self.daily_pnl,
            running_balance: self.running_balance as int,
            starting_balance: self.starting_balance as int,
            point_value: self.point_value as int,
        }
    }
}

impl PositionManager {
    /// Whether the history holds at most `MAX_HISTORY` trades.
    pub open spec fn wf(&self) -> bool {
        self@.history.len() <= MAX_HISTORY
    }

    /// A flat manager with the given balance (cents) and point value (dollars).
    pub fn new(symbol: &str, starting_balance: i64, point_value: i64) -> (pm: PositionManager)
        ensures
            pm.wf(),
            pm@.symbol == symbol@,
            pm@.net_position == 0,
            pm@.avg_entry_price is None,
            pm@.brackets.len() == 0,
            pm@.history.len() == 0,
            pm@.daily.is_empty_day(),
            pm@.running_balance == starting_balance,
            pm@.starting_balance == starting_balance,
            pm@.point_value == point_value,
    {
        PositionManager {
            symbol: symbol.to_owned(),
            net_position: 0,
            avg_entry_price: None,
            active_brackets: Vec::new(),
            trade_history: VecDeque::new(),
            daily_pnl: DailyPnL::default(),
            running_balance: starting_balance,
            starting_balance,
            point_value,
        }
    }

    /// Net position in contracts.
    pub fn net_position(&self) -> (r: i32)
        ensures
            r == self@.net_position,
    {
        self.net_position
    }

    /// Whether there is no position.
    pub fn is_flat(&self) -> (r: bool)
        ensures
            r == (self@.net_position == 0),
    {
        self.net_position == 0
    }

    /// Average entry price of the position.
    pub fn avg_entry_price(&self) -> (r: Option<AvgPrice>)
        ensures
            r == self@.avg_entry_price,
    {
        self.avg_entry_price
    }

    /// Running balance in cents.
    pub fn running_balance(&self) -> (r: i64)
        ensures
            r == self@.running_balance,
    {
        self.running_balance
    }

    /// The day's P&L in price units.
    pub fn daily_pnl_points(&self) -> (r: i64)
        ensures
            r == self@.daily.gross_pnl,
    {
        self.daily_pnl.gross_pnl
    }

    /// The day's P&L in cents: price units times dollars per point.
    pub fn daily_pnl_dollars(&self) -> (r: i64)
        requires
            fits_i64(self@.daily.gross_pnl * self@.point_value),
        ensures
            r == self@.daily.gross_pnl * self@.point_value,
    {
        self.daily_pnl.gross_pnl * self.point_value
    }

    /// How far the balance is below the starting balance, in cents (zero when not below).
    pub fn drawdown(&self) -> (r: i64)
        requires
            fits_i64(self@.starting_balance - self@.running_balance),
        ensures
            r == (if self@.running_balance < self@.starting_balance {
                self@.starting_balance - self@.running_balance
            } else {
                0
            }),
    {
        if self.running_balance < self.starting_balance {
            (self.starting_balance as i128 - self.running_balance as i128) as i64
        } else {
            0
        }
    }

    /// The drawdown in price units, rounded toward zero.
    pub fn drawdown_points(&self) -> (r: i64)
        requires
            self@.point_value > 0,
            fits_i64(self@.starting_balance - self@.running_balance),
        ensures
            r == (if self@.running_balance < self@.starting_balance {
                (self@.starting_balance - self@.running_balance) / self@.point_value
            } else {
                0
            }),
    {
        let d = if self.running_balance < self.starting_balance {
            self.starting_balance - self.running_balance
        } else {
            0
        };
        d / self.point_value
    }

    /// Track a new bracket.
    pub fn add_bracket(&mut self, bracket: BracketOrder)
        ensures
            final(self)@ == (PositionModel { brackets: old(self)@.brackets.push(bracket), ..old(self)@ }),
    {
        self.active_brackets.push(bracket);
    }

    fn find_index(&self, id: u128) -> (r: Option<usize>)
        ensures
            match r {
                Some(i) => first_with_id(self@.brackets, id) == Some(i as int) && i < self@.brackets.len(),
                None => first_with_id(self@.brackets, id) is None,
            },
    {
        proof {
            lemma_first_with_id(self@.brackets, id);
        }
        let mut i: usize = 0;
        while i < self.active_brackets.len()
            invariant
                i <= self@.brackets.len(),
                forall|j: int| 0 <= j < i ==> self@.brackets[j].id != id,
            decreases self@.brackets.len() - i,
        {
            if self.active_brackets[i].id == id {
                proof {
                    lemma_first_index_is(self@.brackets, id, i as int);
                }
                return Some(i);
            }
            i += 1;
        }
        proof {
            lemma_first_none(self@.brackets, id);
        }
        None
    }

    /// The first tracked bracket with the given id.
    pub fn get_bracket(&self, id: u128) -> (r: Option<&BracketOrder>)
        ensures
            match first_with_id(self@.brackets, id) {
                Some(i) => r == Some(&self@.brackets[i]),
                None => r is None,
            },
    {
        match self.find_index(id) {
            Some(i) => Some(&self.active_brackets[i]),
            None => None,
        }
    }

    /// The first tracked bracket with the given id, for change in place.
    pub fn get_bracket_mut(&mut self, id: u128) -> (r: Option<&mut BracketOrder>)
        ensures
            match first_with_id(old(self)@.brackets, id) {
                Some(i) => {
                    &&& r matches Some(b) && *b == old(self)@.brackets[i]
                    &&& final(self)@ == (PositionModel {
                        brackets: old(self)@.brackets.update(i, *final(r.unwrap())),
                        ..old(self)@
                    })
                },
                None => r is None && final(self)@ == old(self)@,
            },
    {
        match self.find_index(id) {
            Some(i) => Some(&mut self.active_brackets[i]),
            None => None,
        }
    }

    /// The tracked brackets.
    pub fn active_brackets(&self) -> (r: &[BracketOrder])
        ensures
            r@ == self@.brackets,
    {
        self.active_brackets.as_slice()
    }

    /// Record the fill of an entry: the net position moves by the signed quantity, the
    /// average entry price follows `avg_after_entry`, and the bracket with the id (the
    /// first one, if any) gets its entry price.
    pub fn record_entry_fill(&mut self, bracket_id: u128, fill_price: Price, quantity: i32, side: OrderSide)
        requires
            quantity != i32::MIN,
            old(self)@.net_position != i32::MIN,
            fits_i32(old(self)@.net_position + signed_qty(side, quantity as int)),
            avg_entry_fits(old(self)@.net_position, old(self)@.avg_entry_price, fill_price, quantity as int, side),
        ensures
            final(self)@ == (PositionModel {
                net_position: old(self)@.net_position + signed_qty(side, quantity as int),
                avg_entry_price: avg_after_entry(old(self)@.net_position, old(self)@.avg_entry_price, fill_price, quantity as int, side),
                brackets: match first_with_id(old(self)@.brackets, bracket_id) {
                    Some(i) => old(self)@.brackets.update(i, BracketOrder { entry_price: Some(fill_price), ..old(self)@.brackets[i] }),
                    None => old(self)@.brackets,
                },
                ..old(self)@
            }),
    {
        let signed: i32 = if side == OrderSide::Buy { quantity } else { -quantity };
        if self.net_position == 0 {
            self.avg_entry_price = Some(AvgPrice { num: fill_price as i128, den: 1 });
        } else if sign_of(self.net_position) == sign_of(signed) {
            let n: i32 = if self.net_position < 0 { -self.net_position } else { self.net_position };
            self.avg_entry_price = match self.avg_entry_price {
                None => {
                    proof {
                        lemma_mul_bounded(fill_price as int, quantity as int, 0x8000_0000_0000_0000, 0x8000_0000);
                        lemma_mul_bounded(fill_price as int, n as int, 0x8000_0000_0000_0000, 0x8000_0000);
                    }
                    Some(AvgPrice {
                        num: fill_price as i128 * n as i128 + fill_price as i128 * quantity as i128,
                        den: n as i128 + quantity as i128,
                    })
                },
                Some(a) => Some(weighted_average_of(Some(a), n, fill_price, quantity)),
            };
        }
        self.net_position = self.net_position + signed;
        match self.find_index(bracket_id) {
            Some(i) => {
                let b = &mut self.active_brackets[i];
                b.entry_price = Some(fill_price);
            },
            None => {},
        }
    }

    /// Record the exit fill of the bracket with the given id (the first one) at
    /// `fill_price`. Returns `None`, changing nothing, where no bracket has the id or the
    /// bracket was never entered; otherwise books the trade as `after_exit` says and
    /// returns its record.
    pub fn record_exit_fill(&mut self, bracket_id: u128, fill_price: Price) -> (r: Option<TradeRecord>)
        requires
            old(self).wf(),
            match first_with_id(old(self)@.brackets, bracket_id) {
                Some(i) => old(self)@.brackets[i].entry_price is Some ==> old(self)@.exit_fits(i, fill_price),
                None => true,
            },
        ensures
            final(self).wf(),
            match first_with_id(old(self)@.brackets, bracket_id) {
                Some(i) => if old(self)@.brackets[i].entry_price is Some {
                    &&& r matches Some(rec) && rec == PositionModel::exit_record(old(self)@.brackets[i], fill_price, rec.exit_time)
                    &&& final(self)@ == old(self)@.after_exit(i, fill_price, r.unwrap().exit_time, final(self)@.brackets[i].closed_at.unwrap())
                } else {
                    r is None && final(self)@ == old(self)@
                },
                None => r is None && final(self)@ == old(self)@,
            },
    {
        let idx = match self.find_index(bracket_id) {
            Some(i) => i,
            None => return None,
        };
        let entry_price = match self.active_brackets[idx].entry_price {
            Some(e) => e,
            None => return None,
        };
        let ghost m = self@;
        let side = self.active_brackets[idx].position_side();
        let quantity = self.active_brackets[idx].entry.quantity;
        let created_at = self.active_brackets[idx].created_at;
        let lvn_level = self.active_brackets[idx].lvn_level;
        let diff: i128 = if side == OrderSide::Buy {
            fill_price as i128 - entry_price as i128
        } else {
            entry_price as i128 - fill_price as i128
        };
        proof {
            lemma_mul_bounded(diff as int, quantity as int, 0x1_0000_0000_0000_0000, 0x8000_0000);
        }
        let pnl_points: i64 = (diff * quantity as i128) as i64;
        let pnl_dollars: i64 = pnl_points * self.point_value;
        self.running_balance = self.running_balance + pnl_dollars;

        self.daily_pnl.gross_pnl = self.daily_pnl.gross_pnl + pnl_points;
        self.daily_pnl.trade_count = self.daily_pnl.trade_count + 1;
        if pnl_points > 0 {
            self.daily_pnl.wins = self.daily_pnl.wins + 1;
            if pnl_points > self.daily_pnl.largest_win {
                self.daily_pnl.largest_win = pnl_points;
            }
        } else {
            self.daily_pnl.losses = self.daily_pnl.losses + 1;
            if pnl_points < self.daily_pnl.largest_loss {
                self.daily_pnl.largest_loss = pnl_points;
            }
        }
        if self.running_balance > self.daily_pnl.peak_balance {
            self.daily_pnl.peak_balance = self.running_balance;
        }
        let dd: i64 = self.daily_pnl.peak_balance - self.running_balance;
        if dd > self.daily_pnl.max_drawdown {
            self.daily_pnl.max_drawdown = dd;
        }

        let signed: i64 = if side == OrderSide::Buy { quantity as i64 } else { -(quantity as i64) };
        self.net_position = (self.net_position as i64 - signed) as i32;
        if self.net_position == 0 {
            self.avg_entry_price = None;
        }

        let exit_time = now_millis();
        let record = TradeRecord {
            entry_price,
            exit_price: fill_price,
            side,
            quantity,
            pnl_points,
            entry_time: created_at,
            exit_time,
            lvn_level,
        };
        self.trade_history.push_back(record);
        if self.trade_history.len() > MAX_HISTORY {
            let _ = self.trade_history.pop_front();
        }
        let b = &mut self.active_brackets[idx];
        b.complete(fill_price);
        Some(record)
    }
}


impl PositionManager {
    /// Drop the completed and cancelled brackets, keeping the others in order.
    pub fn cleanup_completed(&mut self)
        ensures
            final(self)@ == (PositionModel { brackets: live_brackets(old(self)@.brackets), ..old(self)@ }),
    {
        let ghost orig = self@.brackets;
        let mut i: usize = 0;
        let ghost mut j: int = 0;
        while i < self.active_brackets.len()
            invariant
                0 <= i <= self@.brackets.len(),
                0 <= j <= orig.len(),
                self@.brackets.subrange(0, i as int) == live_brackets(orig.subrange(0, j)),
                self@.brackets.subrange(i as int, self@.brackets.len() as int) == orig.subrange(j, orig.len() as int),
                self@.symbol == old(self)@.symbol,
                self@.net_position == old(self)@.net_position,
                self@.avg_entry_price == old(self)@.avg_entry_price,
                self@.history == old(self)@.history,
                self@.daily == old(self)@.daily,
                self@.running_balance == old(self)@.running_balance,
                self@.starting_balance == old(self)@.starting_balance,
                self@.point_value == old(self)@.point_value,
                orig == old(self)@.brackets,
            decreases self@.brackets.len() - i,
        {
            let ghost before = self@.brackets;
            proof {
                assert(before.subrange(i as int, before.len() as int).len() == orig.subrange(j, orig.len() as int).len());
                assert(j < orig.len());
                assert(orig.subrange(0, j + 1).drop_last() =~= orig.subrange(0, j));
                assert forall|k: int| i + 1 <= k < before.len() implies #[trigger] before[k] == orig[k - i + j] by {
                    assert(before.subrange(i as int, before.len() as int)[k - i] == orig.subrange(j, orig.len() as int)[k - i]);
                }
                assert(orig[j] == before[i as int]) by {
                    assert(before.subrange(i as int, before.len() as int)[0] == orig.subrange(j, orig.len() as int)[0]);
                }
            }
            if self.active_brackets[i].is_terminal() {
                let _ = self.active_brackets.remove(i);
                proof {
                    assert(self@.brackets.subrange(0, i as int) =~= before.subrange(0, i as int));
                    assert(self@.brackets.subrange(i as int, self@.brackets.len() as int) =~= orig.subrange(j + 1, orig.len() as int));
                    j = j + 1;
                }
            } else {
                proof {
                    assert(before.subrange(0, i + 1) =~= before.subrange(0, i as int).push(before[i as int]));
                    assert(before.subrange(i + 1, before.len() as int) =~= orig.subrange(j + 1, orig.len() as int));
                }
                i += 1;
                proof {
                    j = j + 1;
                }
            }
        }
        proof {
            assert(self@.brackets.subrange(0, i as int) =~= self@.brackets);
            assert(orig.subrange(j, orig.len() as int).len() == 0);
            assert(orig.subrange(0, j) =~= orig);
        }
    }

    /// Unrealized P&L in price units at `current_price` over the entered brackets.
    pub fn unrealized_pnl(&self, current_price: Price) -> (r: i64)
        requires
            open_pnl_fits(self@.brackets, current_price),
        ensures
            r == open_pnl_sum(self@.brackets, current_price),
    {
        let mut total: i64 = 0;
        let mut i: usize = 0;
        while i < self.active_brackets.len()
            invariant
                0 <= i <= self@.brackets.len(),
                open_pnl_fits(self@.brackets, current_price),
                total == open_pnl_sum(self@.brackets.take(i as int), current_price),
            decreases self@.brackets.len() - i,
        {
            proof {
                assert(self@.brackets.take(i + 1).drop_last() =~= self@.brackets.take(i as int));
                assert(fits_i64(open_pnl_sum(self@.brackets.take(i + 1), current_price)));
                assert(self@.brackets[i as int].pnl_fits(current_price));
            }
            match self.active_brackets[i].unrealized_pnl(current_price) {
                Some(p) => {
                    total = total + p;
                },
                None => {},
            }
            i += 1;
        }
        proof {
            assert(self@.brackets.take(i as int) =~= self@.brackets);
        }
        total
    }

    /// Realized plus unrealized P&L of the day in price units.
    pub fn total_pnl(&self, current_price: Price) -> (r: i64)
        requires
            open_pnl_fits(self@.brackets, current_price),
            fits_i64(self@.daily.gross_pnl + open_pnl_sum(self@.brackets, current_price)),
        ensures
            r == self@.daily.gross_pnl + open_pnl_sum(self@.brackets, current_price),
    {
        self.daily_pnl.gross_pnl + self.unrealized_pnl(current_price)
    }

    /// Start a new trading day: an empty summary whose peak is the running balance.
    pub fn reset_daily(&mut self)
        ensures
            final(self)@.daily.gross_pnl == 0,
            final(self)@.daily.trade_count == 0,
            final(self)@.daily.wins == 0,
            final(self)@.daily.losses == 0,
            final(self)@.daily.largest_win == 0,
            final(self)@.daily.largest_loss == 0,
            final(self)@.daily.max_drawdown == 0,
            final(self)@.daily.peak_balance == old(self)@.running_balance,
            final(self)@ == (PositionModel { daily: final(self)@.daily, ..old(self)@ }),
    {
        self.daily_pnl = DailyPnL::default();
        self.daily_pnl.peak_balance = self.running_balance;
    }

    /// The completed trades, oldest first.
    pub fn trade_history(&self) -> (r: &VecDeque<TradeRecord>)
        ensures
            r@ == self@.history,
    {
        &self.trade_history
    }

    /// The day's summary.
    pub fn daily_summary(&self) -> (r: &DailyPnL)
        ensures
            *r == self@.daily,
    {
        &self.daily_pnl
    }

    /// The point value in dollars.
    pub fn point_value(&self) -> (r: i64)
        ensures
            r == self@.point_value,
    {
        self.point_value
    }
}

/// An entry fill followed by the exit fill of the same bracket leaves the net position
/// where it was, and moves the running balance by exactly the trade's P&L times the point
/// value.
pub proof fn lemma_round_trip(m: PositionModel, i: int, entry: Price, quantity: i32, exit: Price, now: i64, closed: i64)
    requires
        0 <= i < m.brackets.len(),
        quantity == m.brackets[i].entry.quantity,
        quantity >= 0,
        fits_i32(m.daily.trade_count + 1),
    ensures
        ({
            let b = m.brackets[i];
            let entered = PositionModel {
                net_position: m.net_position + signed_qty(b.entry.side, quantity as int),
                brackets: m.brackets.update(i, BracketOrder { entry_price: Some(entry), ..b }),
                ..m
            };
            let done = entered.after_exit(i, exit, now, closed);
            &&& done.net_position == m.net_position
            &&& done.running_balance == m.running_balance + side_pnl(b.entry.side, entry as int, exit as int) * quantity * m.point_value
            &&& done.daily.trade_count == m.daily.trade_count + 1
        }),
{
}
/// Over a day's trades the balance's peak never falls and stays at or above the
/// balance, and the largest drawdown never falls and is at least the drop of the balance
/// from its peak: after a trade that leaves the balance at `balance`, the peak is the
/// greater of the old peak and the balance, and the largest drawdown the greater of the
/// old one and the peak less the balance.
pub proof fn lemma_drawdown_tracks_peak(d: DailyPnL, pnl: int, balance: int)
    requires
        fits_i64(balance),
        fits_i64(d.gross_pnl + pnl),
        fits_i32(d.trade_count + 1),
        fits_i32(d.wins + 1),
        fits_i32(d.losses + 1),
        fits_i64(pnl),
        fits_i64(if d.peak_balance > balance { d.peak_balance - balance } else { 0 }),
    ensures
        ({
            let r = PositionModel::daily_after(d, pnl, balance);
            &&& r.peak_balance >= balance
            &&& r.peak_balance >= d.peak_balance
            &&& r.peak_balance == balance || r.peak_balance == d.peak_balance
            &&& r.max_drawdown >= d.max_drawdown
            &&& r.max_drawdown >= r.peak_balance - balance
            &&& r.max_drawdown == d.max_drawdown || r.max_drawdown == r.peak_balance - balance
            &&& r.gross_pnl == d.gross_pnl + pnl
            &&& r.trade_count == d.trade_count + 1
        }),
{
}

} // verus!
