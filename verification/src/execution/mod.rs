//! Order execution: orders, brackets, positions and the engine's decisions.

pub mod order;
pub mod position;
pub mod config;
pub mod engine;
pub mod connection;
