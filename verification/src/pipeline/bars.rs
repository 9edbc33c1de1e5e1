//! One-second bars, and the aggregator that builds them from trades.

use vstd::prelude::*;

use crate::units::{fits_i64, Price};

verus! {

/// A bar of trades. The timestamp is milliseconds since the Unix epoch.
#[derive(Debug)]
pub struct Bar {
    pub timestamp: i64,
    pub open: Price,
    pub high: Price,
    pub low: Price,
    pub close: Price,
    pub volume: u64,
    pub buy_volume: u64,
    pub sell_volume: u64,
    /// Buy volume minus sell volume
    pub delta: i64,
    pub trade_count: u64,
    pub symbol: String,
}

impl Bar {
    /// A copy of the bar.
    pub fn duplicate(&self) -> (r: Bar)
        ensures
            r == *self,
    {
        Bar {
            timestamp: self.timestamp,
            open: self.open,
            high: self.high,
            low: self.low,
            close: self.close,
            volume: self.volume,
            buy_volume: self.buy_volume,
            sell_volume: self.sell_volume,
            delta: self.delta,
            trade_count: self.trade_count,
            symbol: self.symbol.clone(),
        }
    }
}

/// Whole seconds since the Unix epoch of a timestamp in milliseconds (rounded down).
pub open spec fn seconds_of(ts_millis: int) -> int {
    ts_millis / 1000
}

/// Days since the Unix epoch (UTC) of a timestamp in milliseconds (rounded down).
pub open spec fn day_of(ts_millis: int) -> int {
    ts_millis / 86_400_000
}

proof fn lemma_floor_of_negative(n: int, b: int)
    requires
        n > 0,
        b > 0,
    ensures
        -((n + b - 1) / b) == (-n) / b,
{
    let q = (n + b - 1) / b;
    let r = (n + b - 1) % b;
    assert(n + b - 1 == q * b + r && 0 <= r < b) by (nonlinear_arith)
        requires b > 0, q == (n + b - 1) / b, r == (n + b - 1) % b;
    assert(-n == (-q) * b + (b - 1 - r)) by (nonlinear_arith)
        requires n + b - 1 == q * b + r;
    assert((-n) / b == -q) by (nonlinear_arith)
        requires -n == (-q) * b + (b - 1 - r), 0 <= b - 1 - r < b, b > 0;
}

/// Rounded-down division by a positive divisor.
fn floor_div(a: i64, b: i64) -> (r: i64)
    requires
        b > 0,
    ensures
        r == a / b,
{
    if a >= 0 {
        a / b
    } else {
        let n: i128 = -(a as i128);
        proof {
            lemma_floor_of_negative(n as int, b as int);
            assert((n + b - 1) / (b as int) <= n) by (nonlinear_arith)
                requires n > 0, b > 0;
        }
        let q: i128 = (n + b as i128 - 1) / (b as i128);
        (-q) as i64
    }
}

/// Whole seconds since the Unix epoch of a timestamp in milliseconds.
pub fn unix_seconds(ts_millis: i64) -> (r: i64)
    ensures
        r == seconds_of(ts_millis as int),
{
    floor_div(ts_millis, 1000)
}

/// The UTC day, as days since the Unix epoch, of a timestamp in milliseconds.
pub fn utc_day(ts_millis: i64) -> (r: i64)
    ensures
        r == day_of(ts_millis as int),
{
    floor_div(ts_millis, 86_400_000)
}

/// A bar under construction.
#[derive(Debug)]
pub struct BarBuilder {
    pub timestamp: i64,
    pub open: Price,
    pub high: Price,
    pub low: Price,
    pub close: Price,
    pub volume: u64,
    pub buy_volume: u64,
    pub sell_volume: u64,
    pub trade_count: u64,
    pub symbol: String,
}

impl BarBuilder {
    /// A bar opened by one trade.
    pub open spec fn opened(timestamp: i64, price: Price, size: u64, is_buy: bool, symbol: Seq<char>, b: BarBuilder) -> bool {
        &&& b.timestamp == timestamp
        &&& b.open == price && b.high == price && b.low == price && b.close == price
        &&& b.volume == size
        &&& b.buy_volume == (if is_buy { size } else { 0 })
        &&& b.sell_volume == (if is_buy { 0 } else { size })
        &&& b.trade_count == 1
        &&& b.symbol@ == symbol
    }

    /// A bar opened by a trade.
    pub fn new(timestamp: i64, price: Price, size: u64, is_buy: bool, symbol: String) -> (b: BarBuilder)
        ensures
            Self::opened(timestamp, price, size, is_buy, symbol@, b),
    {
        let (buy_volume, sell_volume) = if is_buy { (size, 0u64) } else { (0u64, size) };
        BarBuilder {
            timestamp,
            open: price,
            high: price,
            low: price,
            close: price,
            volume: size,
            buy_volume,
            sell_volume,
            trade_count: 1,
            symbol,
        }
    }

    /// Whether a trade of `size` can be added without overflow.
    pub open spec fn can_add(self, size: u64) -> bool {
        &&& self.volume + size <= u64::MAX
        &&& self.buy_volume + size <= u64::MAX
        &&& self.sell_volume + size <= u64::MAX
        &&& self.trade_count + 1 <= u64::MAX
    }

    /// The bar after a trade.
    pub open spec fn with_trade(self, price: Price, size: u64, is_buy: bool) -> BarBuilder {
        BarBuilder {
            high: if price > self.high { price } else { self.high },
            low: if price < self.low { price } else { self.low },
            close: price,
            volume: (self.volume + size) as u64,
            buy_volume: if is_buy { (self.buy_volume + size) as u64 } else { self.buy_volume },
            sell_volume: if is_buy { self.sell_volume } else { (self.sell_volume + size) as u64 },
            trade_count: (self.trade_count + 1) as u64,
            ..self
        }
    }

    /// Add a trade: the high and low widen, the close moves, volumes accumulate.
    pub fn add_trade(&mut self, price: Price, size: u64, is_buy: bool)
        requires
            old(self).can_add(size),
        ensures
            *final(self) == old(self).with_trade(price, size, is_buy),
    {
        if price > self.high {
            self.high = price;
        }
        if price < self.low {
            self.low = price;
        }
        self.close = price;
        self.volume = self.volume + size;
        if is_buy {
            self.buy_volume = self.buy_volume + size;
        } else {
            self.sell_volume = self.sell_volume + size;
        }
        self.trade_count = self.trade_count + 1;
    }

    /// Whether the delta of the bar fits in an `i64`.
    pub open spec fn delta_fits(self) -> bool {
        fits_i64(self.buy_volume - self.sell_volume)
    }

    /// The finished bar; the delta is buy volume minus sell volume.
    pub open spec fn finished(self) -> Bar {
        Bar {
            timestamp: self.timestamp,
            open: self.open,
            high: self.high,
            low: self.low,
            close: self.close,
            volume: self.volume,
            buy_volume: self.buy_volume,
            sell_volume: self.sell_volume,
            delta: (self.buy_volume - self.sell_volume) as i64,
            trade_count: self.trade_count,
            symbol: self.symbol,
        }
    }

    /// The bar built so far.
    pub fn to_bar(&self) -> (b: Bar)
        requires
            self.delta_fits(),
        ensures
            b == self.finished(),
    {
        Bar {
            timestamp: self.timestamp,
            open: self.open,
            high: self.high,
            low: self.low,
            close: self.close,
            volume: self.volume,
            buy_volume: self.buy_volume,
            sell_volume: self.sell_volume,
            delta: (self.buy_volume as i128 - self.sell_volume as i128) as i64,
            trade_count: self.trade_count,
            symbol: self.symbol.clone(),
        }
    }
}

/// Aggregates trades into one-second bars.
pub struct BarAggregator {
    pub current_bar: Option<BarBuilder>,
    pub completed_bars: Vec<Bar>,
}

impl BarAggregator {
    /// An aggregator with no bar.
    pub fn new() -> (a: BarAggregator)
        ensures
            a.current_bar is None,
            a.completed_bars@.len() == 0,
    {
        BarAggregator { current_bar: None, completed_bars: Vec::new() }
    }

    /// Whether a trade can be processed without overflow.
    pub open spec fn can_process(self, timestamp: i64, size: u64) -> bool {
        self.current_bar matches Some(b) ==> (if seconds_of(timestamp as int) > seconds_of(b.timestamp as int) {
            b.delta_fits()
        } else {
            b.can_add(size)
        })
    }

    /// Process a trade. A trade in a later second than the current bar completes that
    /// bar, which is kept and returned, and opens a new bar; a trade in the same (or an
    /// earlier) second joins the current bar; the first trade opens the first bar.
    pub fn process_trade(&mut self, timestamp: i64, price: Price, size: u64, is_buy: bool, symbol: &str) -> (r: Option<Bar>)
        requires
            old(self).can_process(timestamp, size),
        ensures
            match old(self).current_bar {
                Some(b) => if seconds_of(timestamp as int) > seconds_of(b.timestamp as int) {
                    &&& r == Some(b.finished())
                    &&& final(self).completed_bars@ == old(self).completed_bars@.push(b.finished())
                    &&& final(self).current_bar matches Some(n) && BarBuilder::opened(timestamp, price, size, is_buy, symbol@, n)
                } else {
                    &&& r is None
                    &&& final(self).completed_bars@ == old(self).completed_bars@
                    &&& final(self).current_bar == Some(b.with_trade(price, size, is_buy))
                },
                None => {
                    &&& r is None
                    &&& final(self).completed_bars@ == old(self).completed_bars@
                    &&& final(self).current_bar matches Some(n) && BarBuilder::opened(timestamp, price, size, is_buy, symbol@, n)
                },
            },
    {
        let second = unix_seconds(timestamp);
        match &mut self.current_bar {
            Some(bar) => {
                let bar_second = unix_seconds(bar.timestamp);
                if second > bar_second {
                    let completed = bar.to_bar();
                    self.current_bar = Some(BarBuilder::new(timestamp, price, size, is_buy, symbol.to_owned()));
                    self.completed_bars.push(completed.duplicate());
                    Some(completed)
                } else {
                    bar.add_trade(price, size, is_buy);
                    None
                }
            },
            None => {
                self.current_bar = Some(BarBuilder::new(timestamp, price, size, is_buy, symbol.to_owned()));
                None
            },
        }
    }
}

} // verus!
