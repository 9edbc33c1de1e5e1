//! Configuration of the execution engine.

use vstd::prelude::*;

use crate::units::{fits_i64, Price};

verus! {

/// Whether orders are simulated or sent to the exchange.
#[derive(Debug, Clone, Copy, PartialEq, Eq, Structural)]
pub enum ExecutionMode {
    /// Simulated execution (no orders sent)
    Simulation,
    /// Paper trading on the broker's demo system
    Paper,
    /// Live trading
    Live,
}

impl Default for ExecutionMode {
    fn default() -> (m: ExecutionMode)
        ensures
            m == ExecutionMode::Simulation,
    {
        ExecutionMode::Simulation
    }
}

impl ExecutionMode {
    /// The mode's display name.
    pub fn label(&self) -> (r: &'static str)
        ensures
            *self == ExecutionMode::Simulation ==> r@ == "Simulation"@,
            *self == ExecutionMode::Paper ==> r@ == "Paper"@,
            *self == ExecutionMode::Live ==> r@ == "Live"@,
    {
        match self {
            ExecutionMode::Simulation => "Simulation",
            ExecutionMode::Paper => "Paper",
            ExecutionMode::Live => "Live",
        }
    }
}

/// Configuration of the execution engine. Point distances are in price units
/// (hundredths of a point); the point value is in dollars per point and contract.
#[derive(Debug, Clone)]
pub struct ExecutionConfig {
    pub mode: ExecutionMode,
    /// Symbol to trade (e.g. "NQ.c.0")
    pub symbol: String,
    /// Exchange (e.g. "CME")
    pub exchange: String,
    /// Maximum position size in contracts
    pub max_position_size: i32,
    /// Daily loss limit (trading stops when reached)
    pub daily_loss_limit: Price,
    /// Losing trades per day after which trading stops
    pub max_daily_losses: i32,
    /// Take profit distance
    pub take_profit: Price,
    /// Trailing stop distance
    pub trailing_stop: Price,
    /// Stop buffer beyond the LVN level
    pub stop_buffer: Price,
    /// Dollars per point (NQ 20, MNQ 2)
    pub point_value: i64,
    /// Trading hours (ET)
    pub start_hour: u32,
    pub start_minute: u32,
    pub end_hour: u32,
    pub end_minute: u32,
    /// Broker environment ("Demo" or "Live")
    pub rithmic_env: String,
    pub rithmic_user: String,
    pub rithmic_fcm_id: String,
    pub rithmic_ib_id: String,
    pub rithmic_system: String,
}

impl ExecutionConfig {
    /// The default configuration: simulated, one NQ contract, a 100-point daily loss
    /// limit, three losses a day, no take profit, a 1.5-point trailing stop, a 2-point
    /// stop buffer, $20 per point, trading 9:30 to 11:00 ET.
    pub open spec fn is_default_with(self, max_position_size: i32, daily_loss_limit: Price) -> bool {
        &&& self.mode == ExecutionMode::Simulation
        &&& self.symbol@ == "NQ.c.0"@
        &&& self.exchange@ == "CME"@
        &&& self.max_position_size == max_position_size
        &&& self.daily_loss_limit == daily_loss_limit
        &&& self.max_daily_losses == 3
        &&& self.take_profit == 0
        &&& self.trailing_stop == 150
        &&& self.stop_buffer == 200
        &&& self.point_value == 20
        &&& self.start_hour == 9
        &&& self.start_minute == 30
        &&& self.end_hour == 11
        &&& self.end_minute == 0
        &&& self.rithmic_env@ == "Demo"@
        &&& self.rithmic_user@.len() == 0
        &&& self.rithmic_fcm_id@.len() == 0
        &&& self.rithmic_ib_id@.len() == 0
        &&& self.rithmic_system@ == "Rithmic Paper Trading"@
    }

    fn with_limits(max_position_size: i32, daily_loss_limit: Price) -> (c: ExecutionConfig)
        ensures
            c.is_default_with(max_position_size, daily_loss_limit),
    {
        ExecutionConfig {
            mode: ExecutionMode::Simulation,
            symbol: "NQ.c.0".to_owned(),
            exchange: "CME".to_owned(),
            max_position_size,
            daily_loss_limit,
            max_daily_losses: 3,
            take_profit: 0,
            trailing_stop: 150,
            stop_buffer: 200,
            point_value: 20,
            start_hour: 9,
            start_minute: 30,
            end_hour: 11,
            end_minute: 0,
            rithmic_env: "Demo".to_owned(),
            rithmic_user: String::new(),
            rithmic_fcm_id: String::new(),
            rithmic_ib_id: String::new(),
            rithmic_system: "Rithmic Paper Trading".to_owned(),
        }
    }

    /// A 2-contract account with a 125-point daily loss limit.
    pub fn mff_static_pro() -> (c: ExecutionConfig)
        ensures
            c.is_default_with(2, 12500),
    {
        Self::with_limits(2, 12500)
    }

    /// A 4-contract account with a 100-point daily loss limit.
    pub fn etf_static() -> (c: ExecutionConfig)
        ensures
            c.is_default_with(4, 10000),
    {
        Self::with_limits(4, 10000)
    }

    /// The daily loss limit in cents for a number of contracts: the limit in price units
    /// times the point value times the contracts.
    pub fn max_dollar_loss(&self, contracts: i32) -> (r: i64)
        requires
            fits_i64(self.daily_loss_limit * self.point_value),
            fits_i64(self.daily_loss_limit * self.point_value * contracts),
        ensures
            r == self.daily_loss_limit * self.point_value * contracts,
    {
        self.daily_loss_limit * self.point_value * contracts as i64
    }

    /// Minute of the day at which trading starts.
    pub open spec fn start_minute_of_day(self) -> int {
        self.start_hour * 60 + self.start_minute
    }

    /// Minute of the day at which trading ends.
    pub open spec fn end_minute_of_day(self) -> int {
        self.end_hour * 60 + self.end_minute
    }

    /// Whether `hour:minute` lies in the trading window: at or after the start and
    /// before the end.
    pub fn is_trading_hours(&self, hour: u32, minute: u32) -> (r: bool)
        requires
            hour * 60 + minute <= u32::MAX,
            self.start_minute_of_day() <= u32::MAX,
            self.end_minute_of_day() <= u32::MAX,
        ensures
            r == (self.start_minute_of_day() <= hour * 60 + minute < self.end_minute_of_day()),
    {
        let current = hour * 60 + minute;
        let start = self.start_hour * 60 + self.start_minute;
        let end = self.end_hour * 60 + self.end_minute;
        current >= start && current < end
    }
}

impl Default for ExecutionConfig {
    fn default() -> (c: ExecutionConfig)
        ensures
            c.is_default_with(1, 10000),
    {
        Self::with_limits(1, 10000)
    }
}

} // verus!
