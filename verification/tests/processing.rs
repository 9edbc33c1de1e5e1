use hitthebid::processing::{strength_label, FlowSide, FlowTrade, ProcessingState};

const NOW: u64 = 1_700_000_000_000;

fn trade(price: i64, size: u32, side: FlowSide) -> FlowTrade {
    FlowTrade { price, size, side }
}

#[test]
fn bubble_of_dominant_side() {
    let mut state = ProcessingState::new();
    for _ in 0..10 {
        state.add_trade(trade(86_000, 1, FlowSide::Buy));
    }
    for _ in 0..3 {
        state.add_trade(trade(86_001, 1, FlowSide::Sell));
    }
    let out = state.process_buffer_at(NOW, NOW).expect("a buffer with volume gives a bubble");
    assert_eq!(out.bubble.id, 0);
    assert_eq!((out.bubble.price_num, out.bubble.price_den), (860_000, 10));
    assert_eq!(out.bubble.size, 10);
    assert!(out.bubble.is_buy);
    assert!(out.bubble.significant);
    assert_eq!((out.cvd_point.timestamp, out.cvd_point.value), (NOW, 7));
    // A delta of 7 is below the threshold of 20: no absorption
    assert!(out.absorption.is_none());
    assert!(out.zones.is_empty());
    let levels = state.volume_profile_levels();
    assert_eq!(levels.len(), 2);
    assert_eq!((levels[0].0, levels[0].1.buy_volume, levels[0].1.total_volume), (86_000, 10, 10));
    assert_eq!((levels[1].0, levels[1].1.sell_volume, levels[1].1.total_volume), (86_001, 3, 3));
    // The buffer was consumed
    assert!(state.process_buffer_at(NOW + 1, NOW + 1).is_none());
}

#[test]
fn repeated_absorption_builds_a_zone() {
    let mut state = ProcessingState::new();
    state.add_trade(trade(86_000, 100, FlowSide::Buy));
    let out = state.process_buffer_at(NOW, NOW).unwrap();
    let event = out.absorption.expect("heavy buying without a rise is absorption");
    assert!(event.buying);
    assert_eq!((event.delta, event.price_change, event.event_count, event.total_absorbed), (100, 0, 1, 100));
    assert_eq!(event.strength, 1);
    assert!(event.at_key_level);
    assert!(!event.against_trend);
    assert!(out.zones.is_empty());

    state.add_trade(trade(86_000, 100, FlowSide::Buy));
    let out = state.process_buffer_at(NOW + 1_000, NOW + 1_000).unwrap();
    assert_eq!(out.bubble.id, 1);
    let event = out.absorption.unwrap();
    assert_eq!((event.event_count, event.total_absorbed, event.strength), (2, 200, 2));
    assert_eq!(out.zones.len(), 1);
    let zone = out.zones[0];
    assert_eq!((zone.event_count, zone.total_absorbed, zone.strength), (2, 200, 2));
    assert!(zone.at_poc && zone.at_vah && zone.at_val);
    assert_eq!(zone.first_seen, NOW);
    assert_eq!(zone.last_seen, NOW + 1_000);
    assert_eq!(strength_label(zone.strength), "strong");
}

#[test]
fn price_that_rose_is_not_absorption() {
    let mut state = ProcessingState::new();
    state.add_trade(trade(86_000, 50, FlowSide::Buy));
    state.add_trade(trade(86_004, 50, FlowSide::Buy));
    let out = state.process_buffer_at(NOW, NOW).unwrap();
    assert!(out.absorption.is_none());
}

#[test]
fn zero_volume_buffer_sends_nothing() {
    let mut state = ProcessingState::new();
    assert!(state.process_buffer_at(NOW, NOW).is_none());
    state.add_trade(trade(86_000, 0, FlowSide::Other));
    assert!(state.process_buffer_at(NOW, NOW).is_none());
    assert!(state.within_limits());
}

#[test]
fn strength_names() {
    assert_eq!(strength_label(0), "weak");
    assert_eq!(strength_label(1), "medium");
    assert_eq!(strength_label(3), "defended");
    assert_eq!(strength_label(7), "defended");
}
