use ac_core::executor::NaiveLimitExecutor;
use ac_core::types::{
    Bbo, BrokerEvent, ClientEvent, ExecType, Fill, FillState, InstId, Order, Signal, UNIT,
};

const U: i64 = UNIT;
const UU: i128 = (UNIT as i128) * (UNIT as i128);

fn create_test_executor() -> NaiveLimitExecutor {
    NaiveLimitExecutor::new(
        InstId::EthUsdtSwap,
        1000 * UU, // notional
        2,         // size_digits
        2,
        0,
        10000, // holding_duration in ms
        0,
        123, // order_id_offset
    )
}

fn create_test_bbo(ts: u64, bid_price: i64, ask_price: i64) -> Bbo {
    Bbo {
        ts,
        instrument_id: InstId::EthUsdtSwap,
        bid_price,
        bid_size: 10 * U,
        ask_price,
        ask_size: 10 * U,
    }
}

fn fill(order_id: u64, filled: i64, acc: i64, price: i64, side: bool, state: FillState) -> Fill {
    Fill {
        order_id,
        instrument_id: InstId::EthUsdtSwap,
        filled_size: filled,
        acc_filled_size: acc,
        price,
        side,
        exec_type: ExecType::Maker,
        state,
    }
}

#[test]
fn test_new_executor() {
    let executor = create_test_executor();
    assert_eq!(executor.instrument_id.as_str(), "ETH-USDT-SWAP");
    assert_eq!(executor.notional, 1000 * UU);
    assert_eq!(executor.size_digits, 2);
    assert_eq!(executor.size_step, 10_000); // one hundredth of a unit
    assert_eq!(executor.holding_duration, 10000);
    assert_eq!(executor.order_id_offset, 123);
}

#[test]
fn test_long_signal() {
    let mut executor = create_test_executor();

    // Update with a BBO
    let bbo = create_test_bbo(1000, 100 * U, 101 * U);
    executor.update(&BrokerEvent::Data(bbo));

    // Process a long signal
    let events = executor.on_signal(Some(Signal::Long));

    assert_eq!(events.len(), 1);
    if let ClientEvent::PlaceOrder(Order::Limit(order)) = &events[0] {
        assert_eq!(order.instrument_id, InstId::EthUsdtSwap);
        assert!(order.side); // Buy side
        assert_eq!(order.price, 100 * U); // Should use bid price
        assert_eq!(order.size, 10 * U); // 1000 / 100 = 10
    } else {
        panic!("Expected PlaceOrder event with limit order");
    }
}

#[test]
fn test_short_signal() {
    let mut executor = create_test_executor();

    // Update with a BBO
    let bbo = create_test_bbo(1000, 100 * U, 101 * U);
    executor.update(&BrokerEvent::Data(bbo));

    // Process a short signal
    let events = executor.on_signal(Some(Signal::Short));

    assert_eq!(events.len(), 1);
    if let ClientEvent::PlaceOrder(Order::Limit(order)) = &events[0] {
        assert_eq!(order.instrument_id, InstId::EthUsdtSwap);
        assert!(!order.side); // Sell side
        assert_eq!(order.price, 101 * U); // Should use ask price
        assert_eq!(order.size, 9_900_000); // 1000 / 101 = 9.90 (truncated to 2 decimals)
    } else {
        panic!("Expected PlaceOrder event with limit order");
    }
}

#[test]
fn test_signal_change() {
    let mut executor = create_test_executor();

    // Update with a BBO
    let bbo = create_test_bbo(1000, 100 * U, 101 * U);
    executor.update(&BrokerEvent::Data(bbo));

    // Process a long signal
    let events = executor.on_signal(Some(Signal::Long));
    assert_eq!(events.len(), 1);

    let order_id = match &events[0] {
        ClientEvent::PlaceOrder(Order::Limit(order)) => order.order_id,
        _ => panic!("Expected PlaceOrder event"),
    };

    // Switch to short signal
    let events = executor.on_signal(Some(Signal::Short));
    assert_eq!(events.len(), 2); // Cancel + place new order

    // Check cancel order
    assert!(matches!(events[0], ClientEvent::CancelOrder(_, id) if id == order_id));

    // Check new order
    if let ClientEvent::PlaceOrder(Order::Limit(order)) = &events[1] {
        assert!(!order.side); // Sell side
        assert_eq!(order.price, 101 * U); // Ask price
    } else {
        panic!("Expected PlaceOrder event with limit order");
    }
}

#[test]
fn test_fill_handling() {
    let mut executor = create_test_executor();

    // Update with a BBO
    let bbo = create_test_bbo(1000, 100 * U, 101 * U);
    executor.update(&BrokerEvent::Data(bbo));

    // Process a long signal
    let events = executor.on_signal(Some(Signal::Long));
    assert_eq!(events.len(), 1);

    let order_id = match &events[0] {
        ClientEvent::PlaceOrder(Order::Limit(order)) => order.order_id,
        _ => panic!("Expected PlaceOrder event"),
    };

    // Simulate a fill
    executor.update(
        &BrokerEvent::Fill(fill(order_id, 10 * U, 10 * U, 100 * U, true, FillState::Filled)),
    );

    // Verify that placed_order is now None after full fill
    assert!(executor.placed_order.is_none());

    // Now with a short signal, should place a sell order for full position size
    let events = executor.on_signal(Some(Signal::Short));
    assert_eq!(events.len(), 1);

    if let ClientEvent::PlaceOrder(Order::Limit(order)) = &events[0] {
        assert!(!order.side); // Sell side
        assert_eq!(order.size, 19_900_000); // Position (10.0) + Short signal (9.90)
    } else {
        panic!("Expected PlaceOrder event with limit order");
    }
}

#[test]
fn test_partial_fill() {
    let mut executor = create_test_executor();

    // Update with a BBO
    let bbo = create_test_bbo(1000, 100 * U, 101 * U);
    executor.update(&BrokerEvent::Data(bbo));

    // Process a long signal
    let events = executor.on_signal(Some(Signal::Long));
    assert_eq!(events.len(), 1);

    let order_id = match &events[0] {
        ClientEvent::PlaceOrder(Order::Limit(order)) => order.order_id,
        _ => panic!("Expected PlaceOrder event"),
    };

    // Simulate a partial fill
    executor.update(
        &BrokerEvent::Fill(fill(order_id, 5 * U, 5 * U, 100 * U, true, FillState::Partially)),
    );

    // Should still have a placed order with updated filled_size
    assert!(executor.placed_order.is_some());
    assert_eq!(executor.placed_order.as_ref().unwrap().filled_size, 5 * U);

    // Price change should trigger order modification
    let bbo = create_test_bbo(2000, 102 * U, 103 * U);
    executor.update(&BrokerEvent::Data(bbo));

    let events = executor.on_signal(Some(Signal::Long));
    assert_eq!(events.len(), 1);
    assert!(matches!(events[0], ClientEvent::AmendOrder(_)));
}

#[test]
fn test_position_timeout() {
    let mut executor = create_test_executor();

    // Update with a BBO
    let bbo = create_test_bbo(1000, 100 * U, 101 * U);
    executor.update(&BrokerEvent::Data(bbo));

    // Process a long signal
    let events = executor.on_signal(Some(Signal::Long));
    let order_id = match &events[0] {
        ClientEvent::PlaceOrder(Order::Limit(order)) => order.order_id,
        _ => panic!("Expected PlaceOrder event"),
    };

    // Simulate a fill
    executor.update(
        &BrokerEvent::Fill(fill(order_id, 10 * U, 10 * U, 100 * U, true, FillState::Filled)),
    );

    // Update with a BBO with timestamp still within holding period
    let bbo = create_test_bbo(5000, 102 * U, 103 * U);
    executor.update(&BrokerEvent::Data(bbo));

    // No signal but within holding period, should not close position
    let events = executor.on_signal(None);
    assert_eq!(events.len(), 0);

    // Update with a BBO with timestamp beyond holding period
    let bbo = create_test_bbo(12000, 102 * U, 103 * U); // 1000 + 10000 + 1000
    executor.update(&BrokerEvent::Data(bbo));

    // No signal and beyond holding period, should close position
    let events = executor.on_signal(None);
    assert_eq!(events.len(), 1);

    if let ClientEvent::PlaceOrder(Order::Limit(order)) = &events[0] {
        assert!(!order.side); // Sell side to close position
        assert_eq!(order.size, 10 * U); // Close entire position
        assert_eq!(order.price, 103 * U); // Use ask price for selling
    } else {
        panic!("Expected PlaceOrder event with limit order");
    }
}

#[test]
fn test_complex_scenario() {
    let mut executor = create_test_executor();

    // Initial state: feed a quote
    let bbo = create_test_bbo(1000, 100 * U, 101 * U);
    executor.update(&BrokerEvent::Data(bbo));

    // A long signal produces a buy order
    let events = executor.on_signal(Some(Signal::Long));
    assert_eq!(events.len(), 1);

    let buy_order_id = match &events[0] {
        ClientEvent::PlaceOrder(Order::Limit(order)) => {
            assert!(order.side);
            assert_eq!(order.price, 100 * U);
            assert_eq!(order.size, 10 * U); // 1000/100=10
            order.order_id
        },
        _ => panic!("Expected PlaceOrder event"),
    };

    // Partial fill
    executor.update(
        &BrokerEvent::Fill(fill(buy_order_id, 4 * U, 4 * U, 100 * U, true, FillState::Partially)),
    );

    // The order remains, partially filled
    assert!(executor.placed_order.is_some());
    assert_eq!(executor.placed_order.as_ref().unwrap().filled_size, 4 * U);
    assert_eq!(executor.position.size(), 4 * U);

    // Prices move
    let bbo = create_test_bbo(2000, 99 * U, 100 * U);
    executor.update(&BrokerEvent::Data(bbo));

    // The signal flips short
    let events = executor.on_signal(Some(Signal::Short));
    assert_eq!(events.len(), 2); // cancel the old order, place the new one

    assert!(matches!(events[0], ClientEvent::CancelOrder(_, id) if id == buy_order_id));

    let sell_order_id = match &events[1] {
        ClientEvent::PlaceOrder(Order::Limit(order)) => {
            assert!(!order.side);
            assert_eq!(order.price, 100 * U);
            // held position (4.0) plus the short target (1000/100 = 10.0)
            assert_eq!(order.size, 14 * U);
            order.order_id
        },
        _ => panic!("Expected PlaceOrder event"),
    };

    // Partial fill of the sell order
    executor.update(
        &BrokerEvent::Fill(fill(sell_order_id, 8 * U, 8 * U, 100 * U, false, FillState::Partially)),
    );

    // Position becomes 4.0 - 8.0 = -4.0
    assert_eq!(executor.position.size(), -4 * U);

    // Prices move again
    let bbo = create_test_bbo(3000, 98 * U, 99 * U);
    executor.update(&BrokerEvent::Data(bbo));

    // No signal, holding timer not yet expired: keep the position but cancel
    // the working order
    let events = executor.on_signal(None);
    assert_eq!(events.len(), 1);
    match events[0] {
        ClientEvent::CancelOrder(_, order_id) => {
            assert_eq!(order_id, 1 << 16 | 123)
        },
        _ => panic!("Expected CancelOrder event"),
    }

    // Time passes beyond the holding period
    let bbo = create_test_bbo(15000, 97 * U, 98 * U); // 3000 + 10000 + 2000
    executor.update(&BrokerEvent::Data(bbo));

    // No signal and the holding timer expired: flatten the position
    let events = executor.on_signal(None);
    assert_eq!(events.len(), 1);

    let close_order_id = match &events[0] {
        ClientEvent::PlaceOrder(Order::Limit(order)) => {
            assert!(order.side); // buy back the short
            assert_eq!(order.price, 97 * U);
            assert_eq!(order.size, 4 * U); // flatten the whole -4.0
            order.order_id
        },
        _ => panic!("Expected PlaceOrder event"),
    };

    // The flattening order fills in full
    executor.update(
        &BrokerEvent::Fill(fill(close_order_id, 4 * U, 4 * U, 97 * U, true, FillState::Filled)),
    );

    // Prices move again
    let bbo = create_test_bbo(16000, 96 * U, 97 * U);
    executor.update(&BrokerEvent::Data(bbo));

    // The position is flat
    assert_eq!(executor.position.size(), 0);

    // A long signal places a fresh order
    let events = executor.on_signal(Some(Signal::Long));
    assert_eq!(events.len(), 1);

    if let ClientEvent::PlaceOrder(Order::Limit(order)) = &events[0] {
        assert!(order.side);
        assert_eq!(order.price, 96 * U);
        assert_eq!(order.size, 10_410_000); // 1000/96=10.41666..., two decimals kept
    } else {
        panic!("Expected PlaceOrder event with limit order");
    }
}

#[test]
fn order_ids_carry_instance_tag() {
    let mut executor = create_test_executor();
    let bbo = create_test_bbo(1000, 100 * U, 101 * U);
    executor.update(&BrokerEvent::Data(bbo));
    let events = executor.on_signal(Some(Signal::Long));
    let first = match &events[0] {
        ClientEvent::PlaceOrder(Order::Limit(order)) => order.order_id,
        _ => panic!("Expected PlaceOrder event"),
    };
    let events = executor.on_signal(Some(Signal::Short));
    let second = match &events[1] {
        ClientEvent::PlaceOrder(Order::Limit(order)) => order.order_id,
        _ => panic!("Expected PlaceOrder event"),
    };
    assert_ne!(first, second);
    assert_eq!(first % 0x10000, 123);
    assert_eq!(second % 0x10000, 123);
}

struct AlwaysLong;

impl ac_core::strategy::Signaler for AlwaysLong {
    fn on_data(&mut self, _bbo: &Bbo) -> Option<Signal> {
        Some(Signal::Long)
    }
}

#[test]
fn strategy_pairs_signaler_with_executor() {
    let mut strategy =
        ac_core::strategy::SignalExecuteStrategy::new(AlwaysLong, create_test_executor());

    // Acknowledgements produce nothing.
    let events = strategy.on_event(&BrokerEvent::Canceled(9));
    assert!(events.is_empty());

    // A data event drives the signaler and places the long target.
    let events = strategy.on_event(&BrokerEvent::Data(create_test_bbo(1000, 100 * U, 101 * U)));
    assert_eq!(events.len(), 1);
    match &events[0] {
        ClientEvent::PlaceOrder(Order::Limit(order)) => {
            assert!(order.side);
            assert_eq!(order.price, 100 * U);
            assert_eq!(order.size, 10 * U);
        },
        _ => panic!("Expected PlaceOrder event"),
    }

    // A fill moves the strategy's position.
    let order_id = strategy.executor.placed_order.as_ref().unwrap().order_id;
    let events = strategy.on_event(
        &BrokerEvent::Fill(fill(order_id, 10 * U, 10 * U, 100 * U, true, FillState::Filled)),
    );
    assert!(events.is_empty());
    assert_eq!(strategy.executor.position.size(), 10 * U);
    assert!(strategy.executor.placed_order.is_none());
}

#[test]
fn cooling_updates_signal_state_but_emits_nothing() {
    // An executor with a one-second event interval.
    let mut executor = NaiveLimitExecutor::new(
        InstId::EthUsdtSwap,
        1000 * UU,
        2,
        2,
        0,
        10000,
        1000,
        123,
    );
    executor.update(&BrokerEvent::Data(create_test_bbo(1000, 100 * U, 101 * U)));
    let events = executor.on_signal(Some(Signal::Long));
    assert_eq!(events.len(), 1); // the placement starts the cooling interval
    assert_eq!(executor.last_signal_ts, 1000);

    // A signal arriving during cooling emits nothing, but the signal state
    // still moves: the holding timer runs from this newer signal.
    executor.update(&BrokerEvent::Data(create_test_bbo(1500, 100 * U, 101 * U)));
    let events = executor.on_signal(Some(Signal::Long));
    assert!(events.is_empty());
    assert_eq!(executor.last_signal, Some(Signal::Long));
    assert_eq!(executor.last_signal_ts, 1500);

    // Cooling over: the next tick may act again; the unchanged target needs
    // no new events, and the signal clock keeps moving.
    executor.update(&BrokerEvent::Data(create_test_bbo(2000, 100 * U, 101 * U)));
    let events = executor.on_signal(Some(Signal::Long));
    assert!(events.is_empty());
    assert_eq!(executor.last_signal, Some(Signal::Long));
    assert_eq!(executor.last_signal_ts, 2000);

    // A quiet tick keeps the holding clock at the last non-empty signal.
    executor.update(&BrokerEvent::Data(create_test_bbo(2100, 100 * U, 101 * U)));
    let events = executor.on_signal(None);
    assert_eq!(events.len(), 1); // flat position and no signal: cancel the order
    assert_eq!(executor.last_signal, None);
    assert_eq!(executor.last_signal_ts, 2000); // only non-empty signals move it
}
