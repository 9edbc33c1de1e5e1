//! Market data and strategy: bars, volume profiles, LVN levels and their retests,
//! and the live trader's per-bar decisions.

pub mod bars;
pub mod profile;
pub mod lvn;
pub mod trades;
pub mod keyed;
pub mod sorting;
pub mod lvn_retest;
pub mod live_trader;
pub mod levels;
pub mod level_index;
pub mod state_machine;
pub mod live_session;
pub mod three_element;
pub mod aggression;
pub mod backtester;
pub mod smart_lvn;
pub mod ib_execution;
pub mod sweep;
pub mod lvn_backtest;
