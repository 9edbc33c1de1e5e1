//! Verified core of an order-flow trading system for index futures: orders,
//! bracket orders with trailing stops, position and P&L tracking, the execution
//! engine's decisions, LVN level tracking and signal generation, volume profiles,
//! and the live trader's per-bar decisions.

pub mod api;
pub mod clock;
pub mod execution;
pub mod pipeline;
pub mod processing;
pub mod units;
