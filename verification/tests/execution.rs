use hitthebid::execution::config::{ExecutionConfig, ExecutionMode};
use hitthebid::execution::connection::{reconnect_state, ConnectionError, ConnectionState, ReconnectPolicy, RithmicConnection};
use hitthebid::execution::engine::{ExecutionEngine, ExecutionEvent, SignalError, SignalRejection, TradingSignal};
use hitthebid::execution::order::{BracketOrder, BracketState, Order, OrderSide, OrderState};
use hitthebid::execution::position::PositionManager;
use hitthebid::units::AvgPrice;

fn buy_signal() -> TradingSignal {
    TradingSignal { side: OrderSide::Buy, lvn_level: 2_150_000, current_price: 2_150_500, delta: 100 }
}

#[test]
fn test_trading_hours() {
    let config = ExecutionConfig::default();

    assert!(!config.is_trading_hours(9, 0));
    assert!(!config.is_trading_hours(9, 29));

    assert!(config.is_trading_hours(9, 30));
    assert!(config.is_trading_hours(10, 0));
    assert!(config.is_trading_hours(10, 59));

    assert!(!config.is_trading_hours(11, 0));
    assert!(!config.is_trading_hours(11, 30));
}

#[test]
fn test_max_dollar_loss() {
    let config = ExecutionConfig::default();
    // 100 points * $20 * contracts, in cents
    assert_eq!(config.max_dollar_loss(1), 200_000);
    assert_eq!(config.max_dollar_loss(2), 400_000);
}

#[test]
fn test_bracket_long() {
    let mut bracket = BracketOrder::new_long("NQ.c.0", "CME", 1, 2_150_000, 150);
    bracket.set_exit_orders(2_150_500, 3_000, 150);

    assert_eq!(bracket.entry_price, Some(2_150_500));
    assert_eq!(bracket.stop_loss.as_ref().unwrap().stop_price, Some(2_149_850));
    assert_eq!(bracket.take_profit.as_ref().unwrap().limit_price, Some(2_153_500));
}

#[test]
fn test_trailing_stop_long() {
    let mut bracket = BracketOrder::new_long("NQ.c.0", "CME", 1, 2_150_000, 150);
    bracket.set_exit_orders(2_150_500, 3_000, 150);

    assert_eq!(bracket.update_trailing_stop(2_151_500, 600), Some(2_150_900));
    assert_eq!(bracket.update_trailing_stop(2_152_000, 600), Some(2_151_400));
    assert_eq!(bracket.update_trailing_stop(2_151_800, 600), None);
}

#[test]
fn test_unrealized_pnl() {
    let mut bracket = BracketOrder::new_long("NQ.c.0", "CME", 2, 2_150_000, 150);
    bracket.set_exit_orders(2_150_500, 3_000, 150);

    assert_eq!(bracket.unrealized_pnl(2_151_500), Some(2_000));
    assert_eq!(bracket.unrealized_pnl(2_150_000), Some(-1_000));
}

#[test]
fn test_position_tracking() {
    let pm = PositionManager::new("NQ.c.0", 5_000_000, 20);

    assert!(pm.is_flat());
    assert_eq!(pm.net_position(), 0);
}

#[test]
fn test_pnl_calculation() {
    let mut pm = PositionManager::new("NQ.c.0", 5_000_000, 20);

    let bracket = BracketOrder::new_long("NQ.c.0", "CME", 1, 2_150_000, 150);
    let bracket_id = bracket.id;
    pm.add_bracket(bracket);

    pm.record_entry_fill(bracket_id, 2_150_500, 1, OrderSide::Buy);
    assert_eq!(pm.net_position(), 1);

    let record = pm.record_exit_fill(bracket_id, 2_151_500).unwrap();
    assert_eq!(record.pnl_points, 1_000);
    assert_eq!(pm.running_balance(), 5_020_000);

    assert!(pm.is_flat());
    assert_eq!(pm.daily_summary().wins, 1);
}

#[test]
fn test_execute_signal() {
    let config = ExecutionConfig {
        mode: ExecutionMode::Simulation,
        daily_loss_limit: 10_000,
        take_profit: 3_000,
        trailing_stop: 600,
        stop_buffer: 150,
        ..Default::default()
    };
    let mut engine = ExecutionEngine::new(config);
    engine.connect().unwrap();

    let bracket_id = engine.execute_signal(&buy_signal(), 1).unwrap();

    assert_eq!(engine.position_manager().net_position(), 1);
    let bracket = engine.position_manager().get_bracket(bracket_id).unwrap();
    assert_eq!(bracket.entry_price, Some(2_150_500));
    assert_eq!(bracket.stop_loss.as_ref().unwrap().stop_price, Some(2_149_850));
}

#[test]
fn test_daily_loss_limit() {
    let config = ExecutionConfig { mode: ExecutionMode::Simulation, daily_loss_limit: 1_000, ..Default::default() };
    let mut engine = ExecutionEngine::with_balance(config, 5_000_000);
    engine.connect().unwrap();

    let bracket_id = engine.execute_signal(&buy_signal(), 1).unwrap();
    // A 15 point loss, beyond the 10 point limit
    engine.process_exit_fill(bracket_id, 2_149_000, "STOP");

    assert!(engine.is_daily_limit_hit());
    assert!(engine.is_trading_stopped());
    assert!(!engine.is_max_losses_hit());
    assert_eq!(engine.daily_pnl(), -1_500);
    assert_eq!(engine.balance(), 5_000_000 - 1_500 * 20);
    let result = engine.execute_signal(&buy_signal(), 1);
    assert_eq!(result, Err(SignalError::Rejected(SignalRejection::DailyLimitReached)));
    assert_eq!(engine.position_manager().active_brackets().len(), 1);
    assert_eq!(engine.position_manager().net_position(), 0);
}

#[test]
fn test_max_daily_losses() {
    let config = ExecutionConfig {
        mode: ExecutionMode::Simulation,
        max_daily_losses: 3,
        daily_loss_limit: 100_000,
        ..Default::default()
    };
    let mut engine = ExecutionEngine::with_balance(config, 5_000_000);
    engine.connect().unwrap();
    let signal = buy_signal();

    for i in 0..3 {
        let bracket_id = engine.execute_signal(&signal, 1).unwrap();
        // A 2 point loss each time
        engine.process_exit_fill(bracket_id, 2_150_300, "STOP");
        if i < 2 {
            assert!(!engine.is_max_losses_hit(), "Should not be hit after {} losses", i + 1);
        }
    }

    assert!(engine.is_max_losses_hit());
    assert!(engine.is_trading_stopped());

    let result = engine.execute_signal(&signal, 1);
    assert!(!engine.is_daily_limit_hit());
    assert_eq!(engine.daily_pnl(), -600);
    assert!(matches!(result, Err(SignalError::Rejected(SignalRejection::MaxLossesReached { max_daily_losses: 3 }))));
}

#[test]
fn opposite_side_undoes_itself() {
    assert_eq!(OrderSide::Buy.opposite(), OrderSide::Sell);
    assert_eq!(OrderSide::Sell.opposite(), OrderSide::Buy);
    assert_eq!(OrderSide::Buy.opposite().opposite(), OrderSide::Buy);
}

#[test]
fn order_state_labels_and_terminality() {
    let mut order = Order::market("NQ.c.0", "CME", OrderSide::Buy, 1);
    assert_eq!(order.state, OrderState::Pending);
    assert!(!order.is_active());
    assert!(!order.is_terminal());
    order.update_state(OrderState::Working);
    assert!(order.is_active());
    order.record_fill(1, 2_150_025);
    assert_eq!(order.state, OrderState::Filled);
    assert_eq!(order.avg_fill_price, Some(AvgPrice { num: 2_150_025, den: 1 }));
    assert!(order.is_terminal());
    assert!(!order.is_active());
    assert_eq!(OrderState::Filled.label(), "FILLED");
}

#[test]
fn partial_fills_average_their_prices() {
    let mut order = Order::market("NQ.c.0", "CME", OrderSide::Buy, 2);
    order.record_fill(1, 2_150_000);
    assert_eq!(order.state, OrderState::PartiallyFilled);
    order.record_fill(1, 2_150_025);
    assert_eq!(order.state, OrderState::Filled);
    // 21500.00 and 21500.25 average 21500.125 exactly
    assert_eq!(order.avg_fill_price, Some(AvgPrice { num: 4_300_025, den: 2 }));
}

#[test]
fn short_bracket_trails_down_and_completes() {
    let mut bracket = BracketOrder::new_short("NQ.c.0", "CME", 1, 2_150_000, 150);
    bracket.set_exit_orders(2_149_500, 3_000, 150);
    assert_eq!(bracket.stop_loss.as_ref().unwrap().stop_price, Some(2_150_150));
    assert_eq!(bracket.take_profit.as_ref().unwrap().limit_price, Some(2_146_500));
    assert_eq!(bracket.update_trailing_stop(2_148_000, 600), Some(2_148_600));
    assert_eq!(bracket.update_trailing_stop(2_148_500, 600), None);
    bracket.complete(2_148_600);
    assert_eq!(bracket.state, BracketState::Complete);
    assert_eq!(bracket.realized_pnl, Some(900));
    assert!(bracket.is_terminal());
}

#[test]
fn position_limit_refuses_oversized_signal() {
    let mut engine = ExecutionEngine::new(ExecutionConfig::default());
    engine.connect().unwrap();
    engine.execute_signal(&buy_signal(), 1).unwrap();
    let refused = engine.execute_signal(&buy_signal(), 1);
    assert_eq!(refused, Err(SignalError::Rejected(SignalRejection::PositionLimit { current: 1, quantity: 1, max: 1 })));
}

#[test]
fn exit_event_carries_pnl() {
    let mut engine = ExecutionEngine::new(ExecutionConfig::default());
    engine.connect().unwrap();
    let id = engine.execute_signal(&buy_signal(), 1).unwrap();
    let events = engine.process_exit_fill(id, 2_151_000, "TARGET");
    match &events[0] {
        ExecutionEvent::ExitFilled { bracket_id, fill_price, pnl_points, exit_type } => {
            assert_eq!(*bracket_id, id);
            assert_eq!(*fill_price, 2_151_000);
            assert_eq!(*pnl_points, 500);
            assert_eq!(exit_type, "TARGET");
        },
        other => panic!("unexpected event {:?}", other),
    }
    assert_eq!(engine.balance(), 5_000_000 + 500 * 20);
}

#[test]
fn reconnection_backs_off_then_fails() {
    let mut policy = ReconnectPolicy::new();
    assert_eq!(policy.next_attempt(), Some(2));
    assert_eq!(policy.next_attempt(), Some(4));
    assert_eq!(policy.next_attempt(), Some(8));
    assert_eq!(policy.next_attempt(), Some(16));
    assert_eq!(policy.next_attempt(), Some(32));
    assert_eq!(policy.next_attempt(), None);
    assert_eq!(reconnect_state(None), ConnectionState::Failed);
    policy.reset();
    assert_eq!(policy.next_attempt(), Some(2));
    assert_eq!(reconnect_state(Some(2)), ConnectionState::Reconnecting);
}

#[test]
fn average_entry_price_is_exact() {
    let mut pm = PositionManager::new("NQ.c.0", 5_000_000, 20);
    assert_eq!(pm.avg_entry_price(), None);
    pm.record_entry_fill(1, 2_150_000, 1, OrderSide::Buy);
    assert_eq!(pm.avg_entry_price(), Some(AvgPrice { num: 2_150_000, den: 1 }));
    // One lot at 21500.00 and one at 21500.25 average 21500.125
    pm.record_entry_fill(2, 2_150_025, 1, OrderSide::Buy);
    assert_eq!(pm.net_position(), 2);
    assert_eq!(pm.avg_entry_price(), Some(AvgPrice { num: 4_300_025, den: 2 }));
    // Reducing the position keeps the average
    pm.record_entry_fill(3, 2_160_000, 1, OrderSide::Sell);
    assert_eq!(pm.net_position(), 1);
    assert_eq!(pm.avg_entry_price(), Some(AvgPrice { num: 4_300_025, den: 2 }));
    // Adding again weighs the exact average by the one contract left:
    // (21500.125 * 1 + 21501.00 * 1) / 2 = 21500.5625
    pm.record_entry_fill(4, 2_150_100, 1, OrderSide::Buy);
    let a = pm.avg_entry_price().unwrap();
    assert_eq!(a, AvgPrice { num: 4_300_025 + 2_150_100 * 2, den: 4 });
    assert_eq!(a.num * 10_000 / a.den, 21_500_562_500);
}

#[test]
fn daily_summary_is_dated_in_new_york() {
    let pm = PositionManager::new("NQ.c.0", 5_000_000, 20);
    let date = &pm.daily_summary().date;
    assert_eq!(date.len(), 10);
    assert_eq!(&date[4..5], "-");
    assert_eq!(&date[7..8], "-");
    assert!(date[..4].chars().all(|c| c.is_ascii_digit()));
}

#[test]
fn test_simulation_connection() {
    let config = ExecutionConfig { mode: ExecutionMode::Simulation, ..Default::default() };

    let mut conn = RithmicConnection::new(&config);
    conn.connect().unwrap();

    assert!(conn.is_connected());
}

#[test]
fn test_simulation_bracket_order() {
    let config = ExecutionConfig { mode: ExecutionMode::Simulation, ..Default::default() };

    let mut conn = RithmicConnection::new(&config);
    conn.connect().unwrap();

    // Test bracket order
    let order_id = conn
        .submit_bracket_order(
            "MNQH6", "CME", "BUY", 1, 4, // 4 ticks stop
            8,    // 8 ticks profit
            None, // market entry
        )
        .unwrap();

    assert!(!order_id.is_empty());
    assert_eq!(conn.active_orders().len(), 1);
}

#[test]
fn test_simulation_cancel_all() {
    let config = ExecutionConfig { mode: ExecutionMode::Simulation, ..Default::default() };

    let mut conn = RithmicConnection::new(&config);
    conn.connect().unwrap();

    // Place some orders
    conn.submit_bracket_order("MNQH6", "CME", "BUY", 1, 4, 8, None).unwrap();
    conn.submit_bracket_order("MNQH6", "CME", "SELL", 1, 4, 8, None).unwrap();

    assert_eq!(conn.active_orders().len(), 2);

    // Cancel all
    conn.cancel_all_orders().unwrap();
    assert_eq!(conn.active_orders().len(), 0);
}

#[test]
fn simulated_orders_are_numbered_and_tracked() {
    let config = ExecutionConfig { mode: ExecutionMode::Simulation, ..Default::default() };
    let mut conn = RithmicConnection::new(&config);
    // Nothing before connecting
    assert_eq!(conn.submit_bracket_order("MNQH6", "CME", "BUY", 1, 4, 8, None), Err(ConnectionError::NotConnected));
    assert_eq!(conn.cancel_all_orders(), Err(ConnectionError::NotConnected));
    conn.connect().unwrap();
    assert_eq!(conn.submit_bracket_order("MNQH6", "CME", "BUY", 1, 4, 8, None).unwrap(), "HTB_1");
    assert_eq!(conn.submit_market_order("MESH6", "SELL", 2).unwrap(), "HTB_2");
    assert_eq!(conn.submit_standalone_order().unwrap(), "HTB_3");
    assert_eq!(conn.submit_bracket_order("MNQH6", "CME", "SELL", 1, 4, 8, Some(2_150_000)).unwrap(), "HTB_4");
    assert_eq!(conn.active_orders().len(), 3);
    let o = &conn.active_orders()[1];
    assert_eq!((o.symbol.as_str(), o.exchange.as_str(), o.side.as_str(), o.quantity, o.entry_price), ("MESH6", "CME", "SELL", 2, None));
    assert!(conn.modify_order().is_ok());
    conn.cancel_order("HTB_1").unwrap();
    assert_eq!(conn.active_orders().len(), 2);
    assert_eq!(conn.active_orders()[0].local_id, "HTB_2");
    conn.exit_position("MNQH6", "CME").unwrap();
    assert_eq!(conn.active_orders().len(), 1);
    assert_eq!(conn.active_orders()[0].symbol, "MESH6");
    // Reconnection: delays of 2, 4, 8, 16, 32 seconds, then failure
    for k in 1..=5u32 {
        assert_eq!(conn.reconnect(), Ok(1u64 << k));
        assert_eq!(conn.state(), ConnectionState::Reconnecting);
    }
    assert_eq!(conn.reconnect(), Err(ConnectionError::MaxReconnects));
    assert_eq!(conn.state(), ConnectionState::Failed);
    conn.disconnect();
    assert_eq!(conn.state(), ConnectionState::Disconnected);
}

#[test]
fn live_connection_needs_the_broker() {
    let config = ExecutionConfig { mode: ExecutionMode::Paper, ..Default::default() };
    let mut conn = RithmicConnection::new(&config);
    // The default configuration names no user
    assert_eq!(conn.connect(), Err(ConnectionError::MissingUser));
    assert_eq!(conn.state(), ConnectionState::Connecting);
}

#[test]
fn test_engine_simulation() {
    let config = ExecutionConfig { mode: ExecutionMode::Simulation, ..Default::default() };

    let mut engine = ExecutionEngine::new(config);
    engine.connect().unwrap();

    assert!(engine.is_connected());
}

#[test]
fn engine_connects_in_simulation() {
    let config = ExecutionConfig { mode: ExecutionMode::Simulation, ..Default::default() };
    let mut engine = ExecutionEngine::new(config);
    assert_eq!(engine.connection_state(), ConnectionState::Disconnected);
    assert!(!engine.is_connected());
    engine.connect().unwrap();
    assert!(engine.is_connected());
    engine.disconnect();
    assert_eq!(engine.connection_state(), ConnectionState::Disconnected);
}

#[test]
fn signals_need_the_connection() {
    let mut engine = ExecutionEngine::new(ExecutionConfig::default());
    assert_eq!(engine.execute_signal(&buy_signal(), 1), Err(SignalError::Connection(ConnectionError::NotConnected)));
    assert!(engine.position_manager().active_brackets().is_empty());
    // Outside simulation the connection needs a user name, then the broker
    let config = ExecutionConfig { mode: ExecutionMode::Paper, rithmic_user: String::new(), ..Default::default() };
    let mut conn = RithmicConnection::new(&config);
    assert_eq!(conn.connect(), Err(ConnectionError::MissingUser));
    let config = ExecutionConfig { mode: ExecutionMode::Paper, rithmic_user: "trader".to_string(), ..Default::default() };
    let mut conn = RithmicConnection::new(&config);
    assert_eq!(conn.connect(), Err(ConnectionError::BrokerRequired));
}
