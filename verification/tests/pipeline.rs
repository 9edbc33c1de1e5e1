use hitthebid::pipeline::bars::{Bar, BarAggregator};
use hitthebid::pipeline::aggression::{detect_aggression_from_bars, find_bar_index_binary, AggressionConfig};
use hitthebid::pipeline::backtester::{calculate_results, MarketReading, ThreeElementBacktester, ThreeElementTrade};
use hitthebid::pipeline::level_index::LevelIndex;
use hitthebid::pipeline::levels::{compute_daily_levels, compute_volume_profile, is_near_level, DailyLevels, LevelType};
use hitthebid::pipeline::live_session::{
    eastern_hour, is_buy_aggressor, is_buy_side, millis_from_nanos, price_from_raw, price_to_ticks, BrokerCommand,
    OrderManager, OrderRouter, SessionTally, SessionTracker,
};
use hitthebid::pipeline::live_trader::{ExitCause, TradeAction};
use hitthebid::pipeline::live_session::{chart_signal, ChartSignalKind};
use hitthebid::pipeline::lvn::{
    bucket_to_price, extract_lvns, extract_lvns_from_full_profile, extract_lvns_from_rth_profile, extract_lvns_realtime,
    price_to_bucket, ImpulseDirection, ImpulseLeg, LvnLevel,
};
use hitthebid::pipeline::lvn_backtest::{run_backtest, simulate_retest_trade, summarize, LvnRetestBacktester, RetestTrade};
use hitthebid::pipeline::lvn_retest::{Direction, LvnRetestConfig, LvnSignalGenerator, Outcome};
use hitthebid::pipeline::sweep::{generate_combinations, synthesize_trades_from_bar, SweepParams};
use hitthebid::pipeline::smart_lvn::{
    detect_valid_impulses, find_best_lvn_in_impulse, find_impulse_from, find_retest_trade, is_state_transition_impulse,
    compute_results, simulate_exit, trade_day, DayData, ExitReason, ImpulseDir, RealLvnBacktest, SmartLvnBacktest,
    SmartLvnConfig, TimeWindow,
};
use hitthebid::pipeline::state_machine::{
    BreakoutLevel, ImpulseFailure, ImpulseReading, LiveDailyLevels, StateMachineConfig, StateTransition,
    TradingState, TradingStateMachine,
};
use hitthebid::units::Fraction;
use hitthebid::pipeline::three_element::{
    SimulatedTrade, is_rth, max_drawdown, should_take_trade, simulate_trade, trade_model, AggressionType, ModelStats, ThreeElementConfig,
    TradeDirection, TradeModel, TradeOutcome,
};
use hitthebid::pipeline::trades::{
    extract_date_from_filename, get_front_month_contract, get_front_month_symbol, trade_from_row, RowError, Side, Trade,
};

/// 2024-01-02 15:00:00 UTC (10:00 in New York), in milliseconds.
const MORNING: i64 = 1_704_207_600_000;

fn bar(ts: i64, open: i64, high: i64, low: i64, close: i64, volume: u64, delta: i64) -> Bar {
    Bar {
        timestamp: ts,
        open,
        high,
        low,
        close,
        volume,
        buy_volume: 0,
        sell_volume: 0,
        delta,
        trade_count: 1,
        symbol: "NQH4".to_string(),
    }
}

fn flat_bar(ts: i64, price: i64) -> Bar {
    bar(ts, price, price, price, price, 10, 0)
}

fn test_levels() -> LiveDailyLevels {
    LiveDailyLevels {
        date: 19_724,
        pdh: 2_150_000,
        pdl: 2_140_000,
        onh: 0,
        onl: 0,
        vah: 2_148_000,
        val: 2_142_000,
        session_high: 2_150_000,
        session_low: 2_140_000,
    }
}

#[test]
fn test_volume_profile() {
    let bars: Vec<Bar> = vec![];
    assert_eq!(compute_volume_profile(&bars), (0, 0, 0));
    assert!(compute_daily_levels(&bars).is_empty());
}

#[test]
fn test_lvn_bucket_conversion() {
    let price = 2_150_050;
    let bucket = price_to_bucket(price);
    let recovered = bucket_to_price(bucket);
    assert!((price - recovered).abs() < 1);
}

#[test]
fn test_state_machine_init() {
    let sm = TradingStateMachine::new(StateMachineConfig::default());
    assert_eq!(sm.state(), TradingState::WaitingForBreakout);
}

#[test]
fn test_breakout_detection() {
    let levels = test_levels();

    let result = levels.check_breakout(2_150_300, 200);
    assert!(result.is_some());
    let (level, dir) = result.unwrap();
    assert_eq!(level, BreakoutLevel::PDH);
    assert_eq!(dir, ImpulseDirection::Up);

    let result = levels.check_breakout(2_139_700, 200);
    assert!(result.is_some());
    let (level, dir) = result.unwrap();
    assert_eq!(level, BreakoutLevel::PDL);
    assert_eq!(dir, ImpulseDirection::Down);

    let result = levels.check_breakout(2_145_000, 200);
    assert!(result.is_none());
}

#[test]
fn test_model_stats() {
    let trades = vec![];
    let stats = ModelStats::from_trades(&trades);
    assert_eq!(stats.trade_count, 0);
    assert_eq!(stats.wins, 0);
    assert_eq!(stats.win_rate(), Fraction { num: 0, den: 1 });
    assert_eq!(stats.profit_factor(), Some(Fraction { num: 0, den: 1 }));
}

#[test]
fn model_stats_ratios() {
    let t = |pnl: i64, outcome: TradeOutcome| SimulatedTrade {
        entry_idx: 0,
        exit_idx: 1,
        entry_price: 2_150_000,
        exit_price: 2_150_000 + pnl,
        stop_loss: 2_149_000,
        take_profit: 2_152_000,
        pnl,
        outcome,
    };
    let trades = vec![t(1_000, TradeOutcome::Win), t(-500, TradeOutcome::Loss), t(300, TradeOutcome::Timeout)];
    let stats = ModelStats::from_trades(&trades);
    assert_eq!((stats.trade_count, stats.wins, stats.losses, stats.timeouts), (3, 1, 1, 1));
    assert_eq!((stats.total_pnl, stats.largest_win, stats.largest_loss), (800, 1_000, 500));
    // A third of the trades won; positive timeouts join the gains
    assert_eq!(stats.win_rate(), Fraction { num: 100, den: 3 });
    assert_eq!(stats.avg_win(), Fraction { num: 1_300, den: 1 });
    assert_eq!(stats.avg_loss(), Fraction { num: 500, den: 1 });
    assert_eq!(stats.profit_factor(), Some(Fraction { num: 1_300, den: 500 }));
    // Gains without losses: unbounded
    let stats = ModelStats::from_trades(&trades[..1]);
    assert_eq!(stats.profit_factor(), None);
}

#[test]
fn breakout_beyond_threshold_only() {
    let levels = test_levels();
    // Exactly at the threshold the prior day high is not broken, but the value area high is
    assert_eq!(levels.check_breakout(2_150_200, 200), Some((BreakoutLevel::VAH, ImpulseDirection::Up)));
    assert_eq!(levels.check_breakout(2_150_201, 200), Some((BreakoutLevel::PDH, ImpulseDirection::Up)));
    assert!(levels.check_breakout(2_148_200, 200).is_none());
    // Value area breaks come after the prior day levels
    let inside = LiveDailyLevels { vah: 2_145_000, ..test_levels() };
    assert_eq!(inside.check_breakout(2_146_000, 200), Some((BreakoutLevel::VAH, ImpulseDirection::Up)));
}

#[test]
fn state_machine_cycle() {
    let config = StateMachineConfig { max_hunting_bars: 2, ..StateMachineConfig::default() };
    let mut sm = TradingStateMachine::new(config);
    sm.set_daily_levels(test_levels());
    let quiet = ImpulseReading { sufficient_size: false, complete: false, start_time: MORNING, move_size: 0, end_price: 0 };

    // A close beyond the prior day high starts an impulse
    let t = sm.process_bar(&flat_bar(MORNING, 2_150_500), quiet);
    assert!(matches!(
        t,
        Some(StateTransition::BreakoutDetected { level: BreakoutLevel::PDH, direction: ImpulseDirection::Up, price: 2_150_500 })
    ));
    assert_eq!(sm.state(), TradingState::ProfilingImpulse);
    let id = sm.active_impulse_id().unwrap();

    // Trades of the impulse, one thin bucket among thick ones
    for (k, price) in [2_150_500i64, 2_151_000, 2_151_500, 2_152_000].iter().enumerate() {
        let size = if *price == 2_151_000 { 1 } else { 100 };
        sm.process_trade(&Trade { ts_event: MORNING + k as i64, price: *price, size, side: Side::Buy, symbol: "NQH4".to_string() });
    }

    // The builder reports a complete impulse: its LVNs are extracted and hunting starts
    let done = ImpulseReading { sufficient_size: true, complete: true, start_time: MORNING, move_size: 3_000, end_price: 2_153_000 };
    let t = sm.process_bar(&flat_bar(MORNING + 1_000, 2_152_000), done);
    match t {
        Some(StateTransition::ImpulseComplete { impulse_id, lvn_count, direction }) => {
            assert_eq!(impulse_id, id);
            assert_eq!(lvn_count, 1);
            assert_eq!(direction, ImpulseDirection::Up);
        },
        other => panic!("unexpected transition {:?}", other),
    }
    assert_eq!(sm.state(), TradingState::Hunting);
    assert_eq!(sm.active_lvns()[0].price, 2_151_000);

    // Hunting times out after more than two bars, then the machine resets
    assert!(sm.process_bar(&flat_bar(MORNING + 2_000, 2_152_000), quiet).is_none());
    assert!(sm.process_bar(&flat_bar(MORNING + 3_000, 2_152_000), quiet).is_none());
    assert!(matches!(sm.process_bar(&flat_bar(MORNING + 4_000, 2_152_000), quiet), Some(StateTransition::HuntingTimeout)));
    assert!(matches!(sm.process_bar(&flat_bar(MORNING + 5_000, 2_152_000), quiet), Some(StateTransition::Reset)));
    assert_eq!(sm.state(), TradingState::WaitingForBreakout);

    sm.reset_for_new_day();
    assert!(sm.active_impulse_id().is_none());
    assert!(sm.active_lvns().is_empty());
}

#[test]
fn impulse_that_retraces_is_given_up() {
    let mut sm = TradingStateMachine::new(StateMachineConfig::default());
    sm.set_daily_levels(test_levels());
    let quiet = ImpulseReading { sufficient_size: false, complete: false, start_time: MORNING, move_size: 0, end_price: 0 };
    sm.process_bar(&flat_bar(MORNING, 2_150_500), quiet);
    // Up 40 points to 21550, now back below 21530: more than half given back
    let reading = ImpulseReading { sufficient_size: true, complete: false, start_time: MORNING, move_size: 4_000, end_price: 2_155_000 };
    let t = sm.process_bar(&flat_bar(MORNING + 1_000, 2_152_900), reading);
    assert!(matches!(t, Some(StateTransition::ImpulseInvalid { reason: ImpulseFailure::Retraced })));
    assert_eq!(sm.state(), TradingState::Reset);
}

#[test]
fn lvn_extraction_keeps_thin_buckets() {
    let mut trades = Vec::new();
    for k in 0..10i64 {
        trades.push(Trade { ts_event: MORNING + k, price: 2_150_000, size: 100, side: Side::Buy, symbol: "NQH4".to_string() });
    }
    trades.push(Trade { ts_event: MORNING + 20, price: 2_150_050, size: 2, side: Side::Sell, symbol: "NQH4".to_string() });
    // Outside the window
    trades.push(Trade { ts_event: MORNING + 10_000, price: 2_160_000, size: 1, side: Side::Sell, symbol: "NQH4".to_string() });
    let lvns = extract_lvns_realtime(&trades, 7, MORNING, MORNING + 1_000, ImpulseDirection::Down, "NQH4");
    assert_eq!(lvns.len(), 1);
    assert_eq!(lvns[0].price, 2_150_050);
    assert_eq!(lvns[0].volume, 2);
    assert_eq!(lvns[0].profile_volume, 1_002);
    assert_eq!(lvns[0].profile_buckets, 2);
    assert_eq!(lvns[0].impulse_id, 7);
}

fn lvn(price: i64, direction: ImpulseDirection) -> LvnLevel {
    LvnLevel {
        impulse_id: 1,
        price,
        volume: 1,
        profile_volume: 1_000,
        profile_buckets: 10,
        impulse_start_time: MORNING,
        impulse_end_time: MORNING + 60_000,
        impulse_direction: direction,
        date: 19_724,
        symbol: "NQH4".to_string(),
    }
}

#[test]
fn retest_of_armed_level_signals() {
    let config = LvnRetestConfig { rth_only: false, ..LvnRetestConfig::default() };
    let mut generator = LvnSignalGenerator::new(config);
    generator.add_lvn_levels(&[lvn(2_150_000, ImpulseDirection::Up)]);
    assert_eq!(generator.level_count(), 1);

    // First bar only records the close; then touch, move away, come back
    assert!(generator.process_bar(&bar(MORNING, 2_152_000, 2_152_000, 2_152_000, 2_152_000, 10, 0), true).is_none());
    assert!(generator.process_bar(&bar(MORNING + 1_000, 2_150_100, 2_150_100, 2_150_100, 2_150_100, 10, 0), true).is_none());
    assert!(generator.process_bar(&bar(MORNING + 2_000, 2_151_000, 2_151_000, 2_151_000, 2_151_000, 10, 0), true).is_none());
    let signal = generator.process_bar(&bar(MORNING + 3_000, 2_150_150, 2_150_200, 2_150_100, 2_150_100, 300, 150), true);
    let signal = signal.expect("retest with buying should signal");
    assert_eq!(signal.direction, Direction::Long);
    assert_eq!(signal.price, 2_150_100);
    assert_eq!(signal.level_price, 2_150_000);
    assert_eq!(signal.delta, 150);
}

#[test]
fn retest_without_imbalance_is_ignored() {
    let config = LvnRetestConfig { rth_only: false, ..LvnRetestConfig::default() };
    let mut generator = LvnSignalGenerator::new(config);
    generator.add_lvn_levels(&[lvn(2_150_000, ImpulseDirection::Up)]);
    generator.process_bar(&flat_bar(MORNING, 2_152_000), true);
    generator.process_bar(&flat_bar(MORNING + 1_000, 2_150_100), true);
    generator.process_bar(&flat_bar(MORNING + 2_000, 2_151_000), true);
    let signal = generator.process_bar(&bar(MORNING + 3_000, 2_150_100, 2_150_100, 2_150_100, 2_150_100, 300, 150), false);
    assert!(signal.is_none());
}

#[test]
fn thick_lvns_are_not_tracked() {
    let mut generator = LvnSignalGenerator::new(LvnRetestConfig::default());
    let thick = LvnLevel { volume: 500, ..lvn(2_150_000, ImpulseDirection::Up) };
    generator.add_lvn_levels(&[thick]);
    assert_eq!(generator.level_count(), 0);
}

#[test]
fn daily_levels_of_two_days() {
    let day1 = 1_704_153_600_000; // 2024-01-02 00:00 UTC
    let day2 = day1 + 86_400_000;
    let bars = vec![
        bar(day1 + 1_000, 2_150_000, 2_151_000, 2_149_000, 2_150_500, 100, 0),
        bar(day1 + 2_000, 2_150_500, 2_153_000, 2_150_000, 2_152_000, 50, 0),
        bar(day2 + 1_000, 2_152_000, 2_152_500, 2_148_000, 2_149_000, 70, 0),
    ];
    let levels = compute_daily_levels(&bars);
    assert_eq!(levels.len(), 2);
    let first = &levels[0];
    assert_eq!(first.date, 19_724);
    assert_eq!(first.session_high, 2_153_000);
    assert_eq!(first.session_low, 2_149_000);
    assert_eq!(first.session_open, 2_150_000);
    assert_eq!(first.session_close, 2_152_000);
    assert_eq!(first.total_volume, 150);
    assert_eq!((first.pdh, first.pdl, first.pdc), (2_153_000, 2_149_000, 2_150_000));
    assert_eq!(first.poc, 2_150_000);
    let second = &levels[1];
    assert_eq!(second.date, 19_725);
    assert_eq!((second.pdh, second.pdl, second.pdc), (2_153_000, 2_149_000, 2_152_000));
    assert_eq!(second.total_volume, 70);
    assert_eq!(second.poc, 2_150_300);
}

#[test]
fn near_level_is_inclusive() {
    assert!(is_near_level(2_150_200, 2_150_000, 200));
    assert!(!is_near_level(2_150_201, 2_150_000, 200));
    assert_eq!(LevelType::POC.label(), "POC");
}

#[test]
fn bars_close_on_new_second() {
    let mut agg = BarAggregator::new();
    assert!(agg.process_trade(MORNING, 2_150_000, 5, true, "NQH4").is_none());
    assert!(agg.process_trade(MORNING + 500, 2_150_100, 3, false, "NQH4").is_none());
    let b = agg.process_trade(MORNING + 1_000, 2_150_200, 1, true, "NQH4").unwrap();
    assert_eq!((b.open, b.high, b.low, b.close), (2_150_000, 2_150_100, 2_150_000, 2_150_100));
    assert_eq!((b.volume, b.buy_volume, b.sell_volume, b.delta, b.trade_count), (8, 5, 3, 2, 2));
}

#[test]
fn front_month_symbol_by_quarter() {
    assert_eq!(get_front_month_symbol(2025, 3), "NQH5");
    assert_eq!(get_front_month_symbol(2025, 11), "NQZ5");
    assert_eq!(get_front_month_symbol(2026, 4), "NQM6");
}

#[test]
fn exchange_trade_decoding() {
    assert_eq!(price_from_raw(21_500_250_000_000), 2_150_025);
    assert_eq!(millis_from_nanos(1_704_207_600_123_456_789), 1_704_207_600_123);
    assert!(is_buy_side(b'A'));
    assert!(!is_buy_side(b'B'));
    assert!(!is_buy_side(b'b'));
    assert!(is_buy_side(b'N'));
    assert!(is_buy_aggressor(Some(1)));
    assert!(!is_buy_aggressor(Some(2)));
    assert!(is_buy_aggressor(None));
    // 15:00 UTC is 10 in the approximate Eastern hour; 02:00 UTC is 21
    assert_eq!(eastern_hour(MORNING), 10);
    assert_eq!(eastern_hour(1_704_160_800_000), 21);
}

#[test]
fn evening_levels_from_regular_session() {
    let mut tracker = SessionTracker::new();
    let ten_am = MORNING; // Eastern hour 10
    assert!(tracker.on_trade(ten_am, 2_150_000).is_none());
    assert!(tracker.on_trade(ten_am + 1_000, 2_160_000).is_none());
    // Outside the session: not part of the range
    let five_pm = MORNING + 7 * 3_600_000;
    let levels = tracker.on_trade(five_pm, 2_170_000).expect("levels at 17:00");
    assert_eq!((levels.pdh, levels.pdl, levels.onh, levels.onl), (2_160_000, 2_150_000, 2_160_000, 2_150_000));
    assert_eq!(levels.vah, 2_157_000);
    assert_eq!(levels.val, 2_153_000);
    assert_eq!(levels.date, 19_724);
    // Only once
    assert!(tracker.on_trade(five_pm + 1_000, 2_170_000).is_none());
}

#[test]
fn order_routing_follows_position() {
    let mut router = OrderRouter::new();
    assert_eq!(router.on_action(&TradeAction::UpdateStop { new_stop: 2_150_000 }), (None, false));
    let enter = TradeAction::Enter { direction: Direction::Long, price: 2_150_000, stop: 2_149_000, target: 2_152_000, contracts: 1 };
    assert_eq!(
        router.on_action(&enter),
        (
            Some(BrokerCommand::SubmitBracket { direction: Direction::Long, contracts: 1, entry: 2_150_000, stop: 2_149_000, target: 2_152_000 }),
            false
        )
    );
    assert_eq!(
        router.on_action(&TradeAction::UpdateStop { new_stop: 2_149_500 }),
        (Some(BrokerCommand::ModifyStop { new_stop: 2_149_500, entry: 2_150_000, direction: Direction::Long }), false)
    );
    let exit = TradeAction::Exit { direction: Direction::Long, price: 2_152_000, pnl_points: 2_000, cause: ExitCause::Target };
    assert_eq!(router.on_action(&exit), (Some(BrokerCommand::ClearOrders), false));
    assert_eq!(router.on_action(&TradeAction::FlattenAll), (Some(BrokerCommand::FlattenAll), true));
}

#[test]
fn bracket_plan_in_ticks() {
    assert_eq!(price_to_ticks(150, 25), 6);
    assert_eq!(price_to_ticks(160, 25), 6);
    assert_eq!(price_to_ticks(163, 25), 7);
    assert_eq!(price_to_ticks(-163, 25), -7);
    let mut manager = OrderManager::new("NQ.c.0".to_string(), "CME".to_string(), 25);
    let plan = manager.bracket_plan(Direction::Short, 2, 2_150_000, 2_150_400, 2_148_000);
    assert_eq!(plan.local_id, "LVN_1");
    assert_eq!((plan.action, plan.qty, plan.stop_ticks, plan.profit_ticks), (2, 2, 16, 80));
    assert_eq!((plan.order_type, plan.price, plan.duration), (2, None, 2));
    assert_eq!((plan.symbol.as_str(), plan.exchange.as_str()), ("NQ.c.0", "CME"));
    assert_eq!(manager.stop_adjustment(2_150_200, 2_150_000, Direction::Short), None);
    manager.record_bracket_id("B1".to_string());
    assert_eq!(manager.stop_adjustment(2_150_200, 2_150_000, Direction::Short), Some(8));
    assert_eq!(manager.bracket_plan(Direction::Long, 1, 2_150_000, 2_149_000, 2_151_000).local_id, "LVN_2");
    manager.clear_orders();
    assert!(manager.current_bracket_id.is_none());
}

#[test]
fn session_tally_counts_exits() {
    let mut tally = SessionTally::new();
    tally.record_signal();
    tally.record_exit(500);
    tally.record_exit(-200);
    tally.record_exit(0);
    assert_eq!((tally.signals, tally.wins, tally.losses, tally.total_pnl), (1, 1, 2, 300));
}

#[test]
fn trade_simulation_hits_target() {
    let bars = vec![
        flat_bar(MORNING, 2_150_000),
        bar(MORNING + 1_000, 2_150_000, 2_150_100, 2_149_900, 2_150_000, 10, 0),
        bar(MORNING + 2_000, 2_150_000, 2_151_300, 2_149_900, 2_151_000, 10, 0),
    ];
    let cfg = ThreeElementConfig::default();
    let t = simulate_trade(&bars, 0, TradeDirection::Long, TradeModel::MeanReversion, &cfg).unwrap();
    assert_eq!((t.entry_idx, t.exit_idx), (1, 2));
    assert_eq!((t.entry_price, t.exit_price, t.stop_loss, t.take_profit), (2_150_000, 2_151_200, 2_149_400, 2_151_200));
    assert_eq!((t.pnl, t.outcome), (1_200, TradeOutcome::Win));
    // No bar to enter on
    assert!(simulate_trade(&bars, 2, TradeDirection::Long, TradeModel::MeanReversion, &cfg).is_none());
}

#[test]
fn trend_trade_trails_into_profit() {
    let bars = vec![
        flat_bar(MORNING, 2_150_000),
        flat_bar(MORNING + 1_000, 2_150_000),
        bar(MORNING + 2_000, 2_150_600, 2_151_000, 2_150_600, 2_151_000, 10, 0),
        bar(MORNING + 3_000, 2_151_000, 2_151_000, 2_150_400, 2_150_400, 10, 0),
    ];
    let cfg = ThreeElementConfig::default();
    let t = simulate_trade(&bars, 0, TradeDirection::Long, TradeModel::TrendContinuation, &cfg).unwrap();
    // Trail starts once 5 points up, 5 points behind the high: stopped at 21505 in profit
    assert_eq!((t.exit_idx, t.exit_price, t.pnl, t.outcome), (3, 2_150_500, 500, TradeOutcome::Timeout));
}

#[test]
fn three_elements_agree() {
    assert_eq!(should_take_trade(true, 0, LevelType::VAL, TradeDirection::Long), Some(TradeDirection::Long));
    assert_eq!(should_take_trade(true, 0, LevelType::VAL, TradeDirection::Short), None);
    assert_eq!(should_take_trade(true, 0, LevelType::LVN, TradeDirection::Short), Some(TradeDirection::Short));
    assert_eq!(should_take_trade(false, 1, LevelType::VAH, TradeDirection::Short), None);
    assert_eq!(should_take_trade(false, -1, LevelType::VAH, TradeDirection::Short), Some(TradeDirection::Short));
    assert_eq!(trade_model(true), TradeModel::MeanReversion);
    assert_eq!(TradeModel::TrendContinuation.label(), "Trend Continuation");
    // 15:00 UTC is in the morning session, 18:00 is not, 20:30 is the last hour
    assert!(is_rth(MORNING));
    assert!(!is_rth(MORNING + 3 * 3_600_000));
    assert!(is_rth(MORNING + 5 * 3_600_000 + 1_800_000));
}

#[test]
fn drawdown_from_running_peak() {
    assert_eq!(max_drawdown(&[100, -50, 200, -300, 50]), 300);
    assert_eq!(max_drawdown(&[-100, 20]), 100);
    assert_eq!(max_drawdown(&[]), 0);
}

#[test]
fn smart_exit_trails_best_price() {
    let cfg = SmartLvnConfig::default();
    let bars = vec![
        flat_bar(MORNING, 2_150_000),
        bar(MORNING + 1_000, 2_150_000, 2_150_500, 2_149_900, 2_150_000, 10, 0),
    ];
    let exit = simulate_exit(&bars, 0, 2_150_000, ImpulseDir::Up, 2_149_000, &cfg);
    assert_eq!(exit, Some((2_150_100, MORNING + 1_000, ExitReason::TrailingStop)));
    // Without a stop hit, the last bar's close
    let quiet = vec![flat_bar(MORNING, 2_150_000), flat_bar(MORNING + 1_000, 2_150_000)];
    assert_eq!(simulate_exit(&quiet, 0, 2_150_000, ImpulseDir::Up, 2_149_000, &cfg), Some((2_150_000, MORNING + 1_000, ExitReason::EndOfDay)));
    assert_eq!(simulate_exit(&[], 0, 2_150_000, ImpulseDir::Up, 2_149_000, &cfg), None);
    assert_eq!(TimeWindow::morning().name, "morning");
}

#[test]
fn full_profile_lvns_below_session_average() {
    // Two hours before the open: outside the session, but part of the average price
    let pre = bar(MORNING - 7_200_000, 2_160_000, 2_160_000, 2_160_000, 2_160_000, 1_000, 0);
    let thick1 = bar(MORNING, 2_150_000, 2_150_000, 2_150_000, 2_150_000, 400, 0);
    let thick2 = bar(MORNING + 1_000, 2_150_000, 2_150_000, 2_150_000, 2_150_000, 400, 0);
    let thin = bar(MORNING + 2_000, 2_150_500, 2_150_500, 2_150_500, 2_150_500, 4, 0);
    let bars = vec![pre, thick1, thick2, thin];
    let lvns = extract_lvns_from_rth_profile(&bars);
    assert_eq!(lvns.len(), 1);
    let l = &lvns[0];
    assert_eq!(l.price, 2_150_500);
    assert_eq!(l.volume, 4);
    assert_eq!(l.profile_volume, 804);
    assert_eq!(l.profile_buckets, 2);
    assert_eq!(l.impulse_id, 0);
    assert_eq!(l.impulse_start_time, MORNING - 7_200_000);
    assert_eq!(l.impulse_end_time, MORNING + 2_000);
    assert_eq!(l.date, 19_724);
    assert_eq!(l.symbol, "NQH4");
    // Below the average price of all the bars: support
    assert_eq!(l.impulse_direction, ImpulseDirection::Up);
}

#[test]
fn full_profile_spreads_each_bar_over_its_prices() {
    let spread = bar(MORNING, 2_150_000, 2_151_000, 2_149_000, 2_150_500, 10, 0);
    let thick1 = bar(MORNING + 1_000, 2_150_000, 2_150_000, 2_150_000, 2_150_000, 400, 0);
    let thick2 = bar(MORNING + 2_000, 2_150_000, 2_150_000, 2_150_000, 2_150_000, 400, 0);
    let lvns = extract_lvns_from_full_profile(&[spread, thick1, thick2], 9, 16);
    let prices: Vec<i64> = lvns.iter().map(|l| l.price).collect();
    assert_eq!(prices, vec![2_149_000, 2_150_500, 2_151_000]);
    assert!(lvns.iter().all(|l| l.volume == 2 && l.profile_volume == 810 && l.profile_buckets == 4));
    assert_eq!(lvns[0].impulse_direction, ImpulseDirection::Up);
    assert_eq!(lvns[1].impulse_direction, ImpulseDirection::Down);
    assert_eq!(lvns[2].impulse_direction, ImpulseDirection::Down);
}

#[test]
fn regular_session_opens_at_half_past_nine() {
    // 9:15 in New York
    let early = bar(MORNING - 2_700_000, 2_150_500, 2_150_500, 2_150_500, 2_150_500, 4, 0);
    let thick1 = bar(MORNING, 2_150_000, 2_150_000, 2_150_000, 2_150_000, 400, 0);
    let thick2 = bar(MORNING + 1_000, 2_150_000, 2_150_000, 2_150_000, 2_150_000, 400, 0);
    let bars = vec![early, thick1, thick2];
    assert!(extract_lvns_from_rth_profile(&bars).is_empty());
    assert!(extract_lvns_from_full_profile(&bars, 9, 16).is_empty());
    let wider = extract_lvns_from_full_profile(&bars, 9, 17);
    assert_eq!(wider.len(), 1);
    assert_eq!(wider[0].price, 2_150_500);
    // Above the average price: resistance
    assert_eq!(wider[0].impulse_direction, ImpulseDirection::Down);
    assert!(extract_lvns_from_full_profile(&[], 9, 16).is_empty());
}

#[test]
fn retest_trade_reaches_target() {
    let cfg = LvnRetestConfig::default();
    let bars = vec![
        flat_bar(MORNING, 2_150_000),
        bar(MORNING + 1_000, 2_150_000, 2_150_100, 2_149_900, 2_150_000, 10, 0),
        bar(MORNING + 2_000, 2_150_000, 2_150_900, 2_150_600, 2_150_800, 10, 0),
    ];
    // Level at 2_149_000, keyed in tenths of a point
    let t = simulate_retest_trade(&bars, 0, Direction::Long, 214_900, &cfg).expect("a next bar to enter on");
    assert_eq!(t.entry_idx, 1);
    assert_eq!(t.entry_price, 2_150_000);
    assert_eq!(t.stop_loss, 2_148_800);
    assert_eq!(t.take_profit, 2_150_800);
    assert_eq!(t.exit_idx, 2);
    assert_eq!(t.exit_price, 2_150_800);
    assert_eq!(t.pnl, 800);
    assert_eq!(t.peak_unrealized, 900);
    assert_eq!(t.outcome, Outcome::Win);
    assert_eq!(t.hold_bars, 1);
    assert_eq!(t.level_price, 2_149_000);
    assert!(simulate_retest_trade(&bars, 2, Direction::Long, 214_900, &cfg).is_none());
}

#[test]
fn retest_backtest_trades_armed_level() {
    let cfg = LvnRetestConfig { rth_only: false, ..LvnRetestConfig::default() };
    let bars = vec![
        flat_bar(MORNING, 2_152_000),
        flat_bar(MORNING + 1_000, 2_150_100),
        flat_bar(MORNING + 2_000, 2_151_000),
        bar(MORNING + 3_000, 2_150_150, 2_150_200, 2_150_100, 2_150_100, 300, 150),
        bar(MORNING + 4_000, 2_150_200, 2_150_300, 2_150_100, 2_150_200, 10, 0),
        bar(MORNING + 5_000, 2_150_200, 2_151_100, 2_150_900, 2_151_000, 10, 0),
    ];
    let imbalanced = vec![true; bars.len()];
    let trades = run_backtest(&bars, &[lvn(2_150_000, ImpulseDirection::Up)], cfg, &imbalanced);
    assert_eq!(trades.len(), 1);
    let t = trades[0];
    assert_eq!(t.direction, Direction::Long);
    assert_eq!(t.entry_idx, 4);
    assert_eq!(t.entry_price, 2_150_200);
    assert_eq!(t.exit_idx, 5);
    assert_eq!(t.exit_price, 2_151_000);
    assert_eq!(t.pnl, 800);
    assert_eq!(t.outcome, Outcome::Win);
    // A calm market gives no trade
    let calm = vec![false; bars.len()];
    assert!(run_backtest(&bars, &[lvn(2_150_000, ImpulseDirection::Up)], cfg, &calm).is_empty());
}

fn retest_trade(pnl: i64, outcome: Outcome) -> RetestTrade {
    RetestTrade {
        entry_idx: 0,
        exit_idx: 1,
        entry_time: MORNING,
        exit_time: MORNING + 1_000,
        direction: Direction::Long,
        entry_price: 2_150_000,
        exit_price: 2_150_000 + pnl,
        stop_loss: 2_149_000,
        take_profit: 2_151_000,
        pnl,
        peak_unrealized: 0,
        outcome,
        level_price: 2_150_000,
        hold_bars: 1,
    }
}

#[test]
fn retest_summary_counts_and_drawdown() {
    let trades = vec![
        retest_trade(800, Outcome::Win),
        retest_trade(-400, Outcome::Loss),
        retest_trade(-300, Outcome::Loss),
        retest_trade(20, Outcome::Breakeven),
        retest_trade(100, Outcome::Timeout),
    ];
    let s = summarize(&trades);
    assert_eq!(s.total_trades, 5);
    assert_eq!(s.wins, 1);
    assert_eq!(s.losses, 2);
    assert_eq!(s.breakevens, 1);
    assert_eq!(s.timeouts, 1);
    assert_eq!(s.total_pnl, 220);
    assert_eq!(s.gross_profit, 920);
    assert_eq!(s.gross_loss, 700);
    assert_eq!(s.winning_trades, 3);
    assert_eq!(s.losing_trades, 2);
    assert_eq!(s.max_drawdown, 700);
    assert_eq!(summarize(&[]).total_trades, 0);
}

#[test]
fn up_bar_synthesizes_buys_then_sells() {
    let mut b = bar(MORNING, 2_150_000, 2_151_000, 2_149_000, 2_150_500, 14, 6);
    b.buy_volume = 10;
    b.sell_volume = 4;
    let trades = synthesize_trades_from_bar(&b);
    assert_eq!(trades.len(), 3);
    assert_eq!((trades[0].price, trades[0].size, trades[0].side), (2_149_000, 5, Side::Buy));
    assert_eq!((trades[1].price, trades[1].size, trades[1].side), (2_150_500, 5, Side::Buy));
    assert_eq!((trades[2].price, trades[2].size, trades[2].side), (2_151_000, 4, Side::Sell));
    assert!(trades.iter().all(|t| t.ts_event == MORNING && t.symbol == "NQH4"));
    let empty = bar(MORNING, 2_150_000, 2_150_000, 2_150_000, 2_150_000, 0, 0);
    assert!(synthesize_trades_from_bar(&empty).is_empty());
}

#[test]
fn down_bar_synthesizes_sells_then_buys() {
    let mut b = bar(MORNING, 2_150_500, 2_151_000, 2_149_000, 2_150_000, 14, -6);
    b.buy_volume = 4;
    b.sell_volume = 10;
    let trades = synthesize_trades_from_bar(&b);
    assert_eq!(trades.len(), 3);
    assert_eq!((trades[0].price, trades[0].size, trades[0].side), (2_151_000, 5, Side::Sell));
    assert_eq!((trades[1].price, trades[1].size, trades[1].side), (2_150_000, 5, Side::Sell));
    assert_eq!((trades[2].price, trades[2].size, trades[2].side), (2_149_000, 4, Side::Buy));
}

#[test]
fn chart_signals_of_trader_actions() {
    let enter = TradeAction::Enter { direction: Direction::Short, price: 2_150_000, stop: 2_150_400, target: 2_149_200, contracts: 1 };
    let s = chart_signal(&enter, 1_000, 2_150_100).expect("entries are shown");
    assert_eq!(s.kind, ChartSignalKind::Entry);
    assert_eq!(s.direction, Some(Direction::Short));
    assert_eq!((s.price, s.stop, s.target, s.x), (2_150_000, Some(2_150_400), Some(2_149_200), 2_150_100));
    let flat = chart_signal(&TradeAction::FlattenAll, 2_000, 2_150_300).expect("flattening is shown");
    assert_eq!(flat.kind, ChartSignalKind::Flatten);
    assert!(flat.flatten);
    assert_eq!(flat.price, 2_150_300);
    let update = chart_signal(&TradeAction::UpdateStop { new_stop: 2_150_200 }, 3_000, 2_150_000).expect("stop updates are shown");
    assert_eq!((update.kind, update.stop), (ChartSignalKind::StopUpdate, Some(2_150_200)));
    assert!(chart_signal(&TradeAction::SignalPending, 4_000, 2_150_000).is_none());
}

fn day_levels() -> DailyLevels {
    DailyLevels {
        date: 19_724,
        symbol: "NQH4".to_string(),
        pdh: 2_155_000,
        pdl: 2_145_000,
        pdc: 2_150_000,
        onh: 2_153_000,
        onl: 2_147_000,
        poc: 2_150_000,
        vah: 2_152_000,
        val: 2_148_000,
        session_high: 2_156_000,
        session_low: 2_144_000,
        session_open: 2_149_000,
        session_close: 2_151_000,
        total_volume: 10_000,
    }
}

#[test]
fn level_index_sorts_and_finds_levels() {
    let thin = LvnLevel { price: 2_150_100, ..lvn(2_150_100, ImpulseDirection::Up) };
    let thick = LvnLevel { volume: 100, ..lvn(2_150_000, ImpulseDirection::Down) };
    let index = LevelIndex::new(&[day_levels()], &[thin, thick], 200);
    assert_eq!(index.len(), 9);
    assert!(!index.is_empty());
    let day: Vec<(i64, LevelType)> = index.levels_for_date(19_724).iter().map(|l| (l.price, l.level_type)).collect();
    assert_eq!(
        day,
        vec![
            (2_145_000, LevelType::PDL),
            (2_147_000, LevelType::ONL),
            (2_148_000, LevelType::VAL),
            (2_150_000, LevelType::POC),
            (2_150_000, LevelType::LVN),
            (2_150_100, LevelType::LVN),
            (2_152_000, LevelType::VAH),
            (2_153_000, LevelType::ONH),
            (2_155_000, LevelType::PDH),
        ]
    );
    let near = index.levels_near(2_150_050, 19_724);
    assert_eq!(near.len(), 3);
    // LVN strength is one minus the volume ratio: 1 * 10 / 1000 leaves 990/1000
    assert_eq!((near[2].strength_num, near[2].strength_den), (990, 1_000));
    // A ratio of one leaves no strength
    assert_eq!(near[1].strength_num, 0);
    let strongest = index.strongest_level_near(2_150_050, 19_724).expect("levels are near");
    assert_eq!(strongest.level_type, LevelType::POC);
    assert!(index.is_at_level(2_150_050, 19_724));
    assert!(!index.is_at_level(2_160_000, 19_724));
    assert!(!index.is_at_level(2_150_050, 19_725));
    assert!(index.strongest_level_near(2_160_000, 19_724).is_none());
    assert!(index.levels_for_date(19_725).is_empty());
}

#[test]
fn strongest_level_prefers_the_last_of_equals() {
    let index = LevelIndex::new(&[day_levels()], &[], 1_000);
    let strongest = index.strongest_level_near(2_152_500, 19_724).expect("two levels are near");
    assert_eq!(strongest.level_type, LevelType::ONH);
    assert!(LevelIndex::new(&[], &[], 100).is_empty());
}

/// A climb of five bars from 2_150_000 to 2_151_600 with a thin bar at 2_150_800, then a
/// flat top at 2_152_000, a retest of 2_150_800 with buying, and a bar that trails out.
fn impulse_day() -> Vec<Bar> {
    let mut bars = Vec::new();
    let climb = [(2_150_000, 100), (2_150_400, 100), (2_150_800, 5), (2_151_200, 100), (2_151_600, 100)];
    for (k, (price, volume)) in climb.iter().enumerate() {
        bars.push(bar(MORNING + 1_000 * k as i64, *price, *price, *price, *price, *volume, 0));
    }
    for k in 5..16 {
        bars.push(flat_bar(MORNING + 1_000 * k, 2_152_000));
    }
    bars.push(bar(MORNING + 16_000, 2_151_000, 2_151_000, 2_150_700, 2_150_900, 60, 50));
    bars.push(bar(MORNING + 17_000, 2_150_900, 2_151_500, 2_150_800, 2_151_000, 60, 0));
    bars
}

fn impulse_config() -> SmartLvnConfig {
    SmartLvnConfig { max_impulse_bars: 10, min_impulse_size: 1_500, ..SmartLvnConfig::default() }
}

#[test]
fn thinnest_bucket_between_heavy_ones_is_the_lvn() {
    let bars = impulse_day();
    let mut longer: Vec<Bar> = bars[..5].iter().map(|b| b.duplicate()).collect();
    longer.push(flat_bar(MORNING + 5_000, 2_152_000));
    longer[5].volume = 100;
    assert_eq!(find_best_lvn_in_impulse(&longer, 0, 5, ImpulseDir::Up), Some(2_150_800));
    assert_eq!(find_best_lvn_in_impulse(&bars, 0, 4, ImpulseDir::Up), Some(2_150_800));
    // Fewer than five buckets
    assert_eq!(find_best_lvn_in_impulse(&bars, 0, 3, ImpulseDir::Up), None);
    // An empty window
    assert_eq!(find_best_lvn_in_impulse(&bars, 3, 3, ImpulseDir::Up), None);
}

#[test]
fn impulse_found_once_its_move_is_large_enough() {
    let bars = impulse_day();
    let cfg = impulse_config();
    let imp = find_impulse_from(&bars, 0, &cfg).expect("a 16-point climb");
    assert_eq!((imp.start_idx, imp.end_idx), (0, 4));
    assert_eq!((imp.start_price, imp.end_price), (2_150_000, 2_151_600));
    assert_eq!(imp.direction, ImpulseDir::Up);
    assert_eq!(imp.lvn_price, 2_150_800);
    assert!(find_impulse_from(&bars, 5, &cfg).is_none());
    let impulses = detect_valid_impulses(&bars, &cfg);
    assert_eq!(impulses.len(), 1);
    assert_eq!(impulses[0], imp);
    assert!(is_state_transition_impulse(true, true, &imp));
    assert!(!is_state_transition_impulse(true, false, &imp));
    assert!(!is_state_transition_impulse(false, true, &imp));
}

#[test]
fn impulse_without_lvn_falls_back_to_retracement() {
    let cfg = impulse_config();
    let bars: Vec<Bar> = (0..12).map(|k| flat_bar(MORNING + 1_000 * k, 2_150_000 + 400 * k)).collect();
    let imp = find_impulse_from(&bars, 0, &cfg).expect("a steady climb");
    // 16 points of climb; 38.2% of it is 6.112 points
    assert_eq!(imp.end_idx, 4);
    assert_eq!(imp.lvn_price, 2_150_611);
}

#[test]
fn smart_retest_trades_the_impulse_lvn() {
    let bars = impulse_day();
    let cfg = impulse_config();
    let t = find_retest_trade(&bars, ImpulseDir::Up, 2_150_800, 5, &cfg).expect("the retest with buying");
    assert_eq!((t.entry_time, t.entry_price, t.entry_delta), (MORNING + 16_000, 2_150_900, 50));
    assert_eq!((t.exit_time, t.exit_price, t.exit_reason), (MORNING + 17_000, 2_151_100, ExitReason::TrailingStop));
    assert_eq!(t.pnl_points, 200);
    let impulses = detect_valid_impulses(&bars, &cfg);
    let trades = trade_day(&bars, &impulses, &cfg);
    assert_eq!(trades, vec![t]);
    // The same LVN twice is traded once
    let twice = vec![impulses[0], impulses[0]];
    assert_eq!(trade_day(&bars, &twice, &cfg).len(), 1);
}

#[test]
fn precomputed_lvn_retest_trades_once() {
    let bars = impulse_day();
    let backtest = RealLvnBacktest::new(impulse_config());
    let level = LvnLevel { impulse_end_time: MORNING + 4_000, ..lvn(2_150_800, ImpulseDirection::Up) };
    let trades = backtest.trade_day_real_lvns(&bars, &[level]);
    assert_eq!(trades.len(), 1);
    assert_eq!((trades[0].entry_price, trades[0].exit_price, trades[0].pnl_points), (2_150_900, 2_151_100, 200));
    // Too thick to trade
    let thick = LvnLevel { volume: 500, impulse_end_time: MORNING + 4_000, ..lvn(2_150_800, ImpulseDirection::Up) };
    assert!(backtest.trade_day_real_lvns(&bars, &[thick]).is_empty());
}

/// Seventy quiet bars, a heavy bar of buying, then a bar to enter on and a rally.
fn aggression_day() -> Vec<Bar> {
    let mut bars = Vec::new();
    for k in 0..70 {
        let mut b = flat_bar(MORNING + 1_000 * k, 2_150_000);
        b.buy_volume = 5;
        b.sell_volume = 5;
        bars.push(b);
    }
    let mut heavy = bar(MORNING + 70_000, 2_150_000, 2_150_100, 2_150_000, 2_150_050, 1_000, 800);
    heavy.buy_volume = 900;
    heavy.sell_volume = 100;
    bars.push(heavy);
    bars.push(bar(MORNING + 71_000, 2_150_050, 2_150_100, 2_150_000, 2_150_100, 10, 0));
    bars.push(bar(MORNING + 72_000, 2_150_100, 2_153_100, 2_150_100, 2_153_000, 10, 0));
    bars
}

#[test]
fn heavy_one_sided_bar_is_aggression() {
    let bars = aggression_day();
    let events = detect_aggression_from_bars(&bars, &AggressionConfig::default());
    let kinds: Vec<AggressionType> = events.iter().map(|e| e.aggression_type).collect();
    assert_eq!(kinds, vec![AggressionType::TradeFlowImbalance, AggressionType::DeltaMomentumUp, AggressionType::DeltaMomentumUp]);
    assert!(events.iter().all(|e| e.bar_idx == 70 && e.direction == TradeDirection::Long && e.strength_tenths == 10));
    assert!(events.iter().all(|e| e.price == 2_150_050 && e.delta_change == 800 && e.timestamp == MORNING + 70_000));
    // Too few bars for the lookback
    assert!(detect_aggression_from_bars(&bars[..60], &AggressionConfig::default()).is_empty());
}

#[test]
fn bar_index_by_time() {
    let bars = aggression_day();
    assert_eq!(find_bar_index_binary(&bars, MORNING + 1_500), Some(1));
    assert_eq!(find_bar_index_binary(&bars, MORNING + 72_000), Some(72));
    assert_eq!(find_bar_index_binary(&bars, MORNING + 1_000_000), Some(72));
    assert_eq!(find_bar_index_binary(&bars, MORNING - 1), None);
    assert_eq!(find_bar_index_binary(&[], MORNING), None);
}

#[test]
fn three_elements_make_one_trade() {
    let bars = aggression_day();
    let states = vec![MarketReading { balanced: false, trend_direction: 1 }; bars.len()];
    let backtester = ThreeElementBacktester::new(bars, vec![], ThreeElementConfig::default(), states);
    let results = backtester.run();
    assert_eq!(results.trades.len(), 1);
    let t = results.trades[0];
    assert_eq!(t.aggression_type, AggressionType::TradeFlowImbalance);
    assert_eq!(t.direction, TradeDirection::Long);
    assert_eq!(t.model, TradeModel::TrendContinuation);
    assert_eq!((t.entry_time, t.entry_price), (MORNING + 71_000, 2_150_050));
    assert_eq!((t.exit_time, t.exit_price, t.exit_idx), (MORNING + 72_000, 2_153_050, 72));
    assert_eq!((t.pnl_points, t.outcome), (3_000, TradeOutcome::Win));
    assert_eq!(t.delta_change, 800);
    assert!((t.level_price - 2_150_050).abs() <= 100);
    // Against the trend nothing is taken
    let bars = aggression_day();
    let down = vec![MarketReading { balanced: false, trend_direction: -1 }; bars.len()];
    assert!(ThreeElementBacktester::new(bars, vec![], ThreeElementConfig::default(), down).run().trades.is_empty());
    assert_eq!((results.total_trades, results.wins, results.total_pnl), (1, 1, 3_000));
    assert_eq!((results.gross_profit, results.gross_loss, results.max_drawdown), (3_000, 0, 0));
    assert_eq!(results.trend_continuation_stats.trade_count, 1);
    assert_eq!(results.trend_continuation_stats.largest_win, 3_000);
    assert_eq!(results.mean_reversion_stats.trade_count, 0);
    assert_eq!(results.stats_by_aggression.len(), 1);
    assert_eq!(results.stats_by_aggression[0].0, AggressionType::TradeFlowImbalance);
    assert_eq!(results.stats_by_level.len(), 1);
    assert_eq!(results.stats_by_level[0].0, t.level_type);
}

#[test]
fn backtest_results_by_group() {
    let trade = |pnl: i64, outcome: TradeOutcome, model: TradeModel, level_type: LevelType, aggression_type: AggressionType| ThreeElementTrade {
        entry_idx: 1,
        entry_time: MORNING,
        exit_time: MORNING + 1_000,
        direction: TradeDirection::Long,
        model,
        entry_price: 2_150_000,
        exit_price: 2_150_000 + pnl,
        stop_loss: 2_149_000,
        take_profit: 2_152_000,
        pnl_points: pnl,
        outcome,
        aggression_type,
        level_type,
        level_price: 2_150_000,
        balanced: model == TradeModel::MeanReversion,
        delta_change: 600,
        trend_direction: 1,
        exit_idx: 2,
    };
    let trades = vec![
        trade(1_200, TradeOutcome::Win, TradeModel::MeanReversion, LevelType::VAL, AggressionType::TradeFlowImbalance),
        trade(-600, TradeOutcome::Loss, TradeModel::MeanReversion, LevelType::VAL, AggressionType::DeltaMomentumUp),
        trade(-1_000, TradeOutcome::Loss, TradeModel::TrendContinuation, LevelType::POC, AggressionType::DeltaMomentumUp),
        trade(300, TradeOutcome::Timeout, TradeModel::TrendContinuation, LevelType::LVN, AggressionType::DeltaMomentumUp),
    ];
    let r = calculate_results(trades);
    assert_eq!((r.total_trades, r.wins, r.total_pnl), (4, 1, -100));
    assert_eq!((r.gross_profit, r.gross_loss), (1_500, 1_600));
    // Running P&L 1200, 600, -400, -100: the peak 1200 falls to -400
    assert_eq!(r.max_drawdown, 1_600);
    assert_eq!((r.mean_reversion_stats.trade_count, r.mean_reversion_stats.total_pnl), (2, 600));
    assert_eq!((r.trend_continuation_stats.trade_count, r.trend_continuation_stats.timeouts), (2, 1));
    let levels: Vec<(LevelType, u32)> = r.stats_by_level.iter().map(|(l, s)| (*l, s.trade_count)).collect();
    assert_eq!(levels, vec![(LevelType::POC, 1), (LevelType::VAL, 2), (LevelType::LVN, 1)]);
    let kinds: Vec<(AggressionType, u32)> = r.stats_by_aggression.iter().map(|(a, s)| (*a, s.trade_count)).collect();
    assert_eq!(kinds, vec![(AggressionType::DeltaMomentumUp, 3), (AggressionType::TradeFlowImbalance, 1)]);
}

#[test]
fn precomputed_lvn_backtest_over_days() {
    let backtest = RealLvnBacktest::new(impulse_config());
    let level = LvnLevel { impulse_end_time: MORNING + 4_000, ..lvn(2_150_800, ImpulseDirection::Up) };
    let day = DayData { date: "20240102".to_string(), bars_1s: impulse_day(), lvn_levels: vec![level] };
    let empty = DayData { date: "20240103".to_string(), bars_1s: vec![], lvn_levels: vec![] };
    let r = backtest.run(&[day, empty]);
    assert_eq!((r.total_days, r.total_impulses, r.valid_impulses), (2, 0, 1));
    assert_eq!((r.total_trades, r.wins, r.losses), (1, 1, 0));
    assert_eq!((r.net_pnl, r.gross_profit, r.gross_loss), (200, 200, 0));
}

#[test]
fn smart_results_count_winners_and_losers() {
    let bars = impulse_day();
    let cfg = impulse_config();
    let win = find_retest_trade(&bars, ImpulseDir::Up, 2_150_800, 5, &cfg).expect("the retest");
    let loss = hitthebid::pipeline::smart_lvn::SmartTrade { pnl_points: -300, ..win };
    let flat = hitthebid::pipeline::smart_lvn::SmartTrade { pnl_points: 0, ..win };
    let r = compute_results(vec![win, loss, flat], 5, 3, 1);
    assert_eq!((r.total_trades, r.wins, r.losses), (3, 1, 1));
    assert_eq!((r.net_pnl, r.gross_profit, r.gross_loss), (-100, 200, 300));
    assert_eq!((r.total_impulses, r.valid_impulses, r.total_days), (5, 3, 1));
}

#[test]
fn front_contract_rolls_mid_month() {
    assert_eq!(get_front_month_contract("NQ", 2025, 3, 9), "NQH5");
    assert_eq!(get_front_month_contract("NQ", 2025, 3, 10), "NQM5");
    assert_eq!(get_front_month_contract("NQ", 2025, 5, 31), "NQM5");
    assert_eq!(get_front_month_contract("ES", 2025, 9, 15), "ESZ5");
    assert_eq!(get_front_month_contract("NQ", 2025, 12, 9), "NQZ5");
    // The December roll goes to March of the next year
    assert_eq!(get_front_month_contract("NQ", 2029, 12, 20), "NQH0");
    assert_eq!(get_front_month_contract("NQ", -3, 1, 1), "NQH-3");
}

#[test]
fn retest_backtester_summarizes_its_trades() {
    let cfg = LvnRetestConfig { rth_only: false, ..LvnRetestConfig::default() };
    let bars = vec![
        flat_bar(MORNING, 2_152_000),
        flat_bar(MORNING + 1_000, 2_150_100),
        flat_bar(MORNING + 2_000, 2_151_000),
        bar(MORNING + 3_000, 2_150_150, 2_150_200, 2_150_100, 2_150_100, 300, 150),
        bar(MORNING + 4_000, 2_150_200, 2_150_300, 2_150_100, 2_150_200, 10, 0),
        bar(MORNING + 5_000, 2_150_200, 2_151_100, 2_150_900, 2_151_000, 10, 0),
    ];
    let imbalanced = vec![true; bars.len()];
    let backtester = LvnRetestBacktester::new(bars, vec![lvn(2_150_000, ImpulseDirection::Up)], cfg);
    let results = backtester.run(&imbalanced);
    assert_eq!(results.trades.len(), 1);
    assert_eq!((results.summary.total_trades, results.summary.wins, results.summary.total_pnl), (1, 1, 800));
    assert_eq!((results.summary.winning_trades, results.summary.max_drawdown), (1, 0));
}

#[test]
fn lvns_of_impulse_legs_sorted_by_price() {
    let mut trades = Vec::new();
    let mut add = |ts: i64, price: i64, size: u64| trades.push(Trade { ts_event: ts, price, size, side: Side::Buy, symbol: "NQH4".to_string() });
    for k in 0..10i64 {
        add(MORNING + k, 2_150_000, 100);
        add(MORNING + 2_000 + k, 2_149_000, 100);
    }
    add(MORNING + 20, 2_150_050, 2);
    add(MORNING + 2_020, 2_148_950, 1);
    let leg = |id: u128, start: i64, direction: ImpulseDirection| ImpulseLeg {
        id,
        start_time: start,
        end_time: start + 1_000,
        direction,
        date: 19_724,
        symbol: "NQH4".to_string(),
    };
    let legs = vec![
        leg(1, MORNING, ImpulseDirection::Down),
        leg(2, MORNING + 2_000, ImpulseDirection::Up),
        leg(3, MORNING + 50_000, ImpulseDirection::Up),
    ];
    let lvns = extract_lvns(&trades, &legs);
    assert_eq!(lvns.len(), 2);
    assert_eq!((lvns[0].price, lvns[0].impulse_id, lvns[0].impulse_direction), (2_148_950, 2, ImpulseDirection::Up));
    assert_eq!((lvns[1].price, lvns[1].impulse_id, lvns[1].impulse_direction), (2_150_050, 1, ImpulseDirection::Down));
    assert_eq!((lvns[0].volume, lvns[0].profile_volume, lvns[0].profile_buckets), (1, 1_001, 2));
    assert!(lvns.iter().all(|l| l.date == 19_724 && l.symbol == "NQH4"));
}

#[test]
fn smart_backtest_trades_impulses_that_turn_the_market() {
    let backtest = SmartLvnBacktest::new(impulse_config(), 30);
    let day = || DayData { date: "20240102".to_string(), bars_1s: impulse_day(), lvn_levels: vec![] };
    let n = impulse_day().len();
    let imbalanced = vec![MarketReading { balanced: false, trend_direction: 1 }; n];
    let r = backtest.run(&[day()], &[imbalanced]);
    assert_eq!((r.total_days, r.total_impulses, r.valid_impulses), (1, 1, 1));
    assert_eq!((r.total_trades, r.wins, r.net_pnl), (1, 1, 200));
    // A market that stays balanced keeps no impulse
    let balanced = vec![MarketReading { balanced: true, trend_direction: 0 }; n];
    let r = backtest.run(&[day()], &[balanced]);
    assert_eq!((r.total_impulses, r.valid_impulses, r.total_trades), (1, 0, 0));
}

#[test]
fn date_from_data_file_name() {
    assert_eq!(extract_date_from_filename("glbx-mdp3-20250103.trades.csv.zst"), Some((2025, 1, 3)));
    assert_eq!(extract_date_from_filename("20241231.zst"), Some((2024, 12, 31)));
    // The first eight-digit part decides, even where chrono refuses it
    assert_eq!(extract_date_from_filename("x-20251399-20250103.zst"), None);
    // Parts of other lengths, or with letters, are passed over
    assert_eq!(extract_date_from_filename("glbx-2025010-2025a103-20250104"), Some((2025, 1, 4)));
    assert_eq!(extract_date_from_filename("trades.csv.zst"), None);
    assert_eq!(extract_date_from_filename(""), None);
}

#[test]
fn trades_from_data_rows() {
    let t = trade_from_row("T", "NQH5", "B", "2025-01-03T14:30:00.123456789Z", 2_150_025, 3, "NQH5")
        .unwrap()
        .unwrap();
    assert_eq!((t.ts_event, t.price, t.size, t.side), (1_735_914_600_123, 2_150_025, 3, Side::Buy));
    assert_eq!(t.symbol, "NQH5");
    let t = trade_from_row("T", "NQH5", "A", "2025-01-03T09:30:00-05:00", 2_150_000, 1, "NQH5").unwrap().unwrap();
    assert_eq!((t.ts_event, t.side), (1_735_914_600_000, Side::Sell));
    // Skipped: other actions, other contracts, unknown sides
    assert!(trade_from_row("A", "NQH5", "B", "2025-01-03T14:30:00Z", 1, 1, "NQH5").unwrap().is_none());
    assert!(trade_from_row("T", "NQM5", "B", "2025-01-03T14:30:00Z", 1, 1, "NQH5").unwrap().is_none());
    assert!(trade_from_row("T", "NQH5", "N", "not a time", 1, 1, "NQH5").unwrap().is_none());
    // A bad timestamp on a kept row is an error
    assert_eq!(trade_from_row("T", "NQH5", "B", "not a time", 1, 1, "NQH5").unwrap_err(), RowError::BadTimestamp);
}

#[test]
fn three_element_documented_defaults() {
    let c = ThreeElementConfig::default();
    assert_eq!((c.level_tolerance, c.mr_stop_loss, c.mr_take_profit, c.mr_max_hold_bars), (200, 600, 1_200, 3));
    assert_eq!((c.tc_stop_loss, c.tc_take_profit, c.tc_max_hold_bars, c.tc_trailing_stop), (1_000, 3_000, 10, 500));
}

#[test]
fn sweep_grid_combinations() {
    let c = generate_combinations(&[100, 200], &[1_500], &[3_000], &[4, 5], &[3_000], &[500], &[300], &[200], &[600, 900]);
    assert_eq!(c.len(), 8);
    let first = SweepParams {
        min_delta: 100,
        max_lvn_ratio_bp: 1_500,
        min_impulse_size: 3_000,
        min_impulse_score: 4,
        take_profit: 3_000,
        trailing_stop: 500,
        stop_buffer: 300,
        breakout_threshold: 200,
        max_hunting_bars: 600,
    };
    assert_eq!(c[0], first);
    // The last list varies fastest, the first slowest
    assert_eq!(c[1], SweepParams { max_hunting_bars: 900, ..first });
    assert_eq!(c[2], SweepParams { min_impulse_score: 5, ..first });
    assert_eq!(c[7], SweepParams { min_delta: 200, min_impulse_score: 5, max_hunting_bars: 900, ..first });
    // An empty list gives no combination
    assert!(generate_combinations(&[100], &[], &[3_000], &[4], &[3_000], &[500], &[300], &[200], &[600]).is_empty());
}
