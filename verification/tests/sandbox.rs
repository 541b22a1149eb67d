use ac_core::cost::TransactionCostModel;
use ac_core::sandbox::SandboxBroker;
use ac_core::types::{
    Bbo, BrokerEvent, ClientEvent, ExecType, FillState, InstId, LimitOrder, MarketOrder, Order,
    UNIT,
};

const U: i64 = UNIT;
const UU: i128 = (UNIT as i128) * (UNIT as i128);

fn create_mock_bbo(ts: u64, bid_price: i64, ask_price: i64) -> Bbo {
    Bbo {
        ts,
        instrument_id: InstId::EthUsdtSwap,
        bid_price,
        ask_price,
        bid_size: U,
        ask_size: U,
    }
}

fn create_market_order(order_id: u64, size: i64, side: bool) -> Order {
    Order::Market(MarketOrder { order_id, instrument_id: InstId::EthUsdtSwap, size, side })
}

fn create_limit_order(order_id: u64, price: i64, size: i64, side: bool) -> Order {
    Order::Limit(LimitOrder {
        order_id,
        instrument_id: InstId::EthUsdtSwap,
        price,
        size,
        side,
        filled_size: 0,
    })
}

fn create_sandbox_broker(seed: Bbo) -> SandboxBroker {
    let mut broker = SandboxBroker::new(
        vec![InstId::EthUsdtSwap],
        100_000 * UU,
        TransactionCostModel::new(1000, 2000, 100),
        1000,
    );
    assert!(broker.seed_data(seed));
    broker
}

fn has_order(broker: &SandboxBroker, id: u64) -> bool {
    broker.limit_orders.iter().any(|o| o.order_id == id)
}

#[test]
fn test_sandbox_broker_market_order() {
    let mut broker = create_sandbox_broker(create_mock_bbo(1000, 50000 * U, 50001 * U));

    let market_order = create_market_order(1, U, true);

    broker.on_client_event(ClientEvent::PlaceOrder(market_order));

    // Should have a fill event in buffer
    let event = broker.next_event().unwrap();
    match event {
        BrokerEvent::Fill(fill) => {
            assert_eq!(fill.order_id, 1);
            assert_eq!(fill.price, 50001 * U); // Should fill at ask price
            assert_eq!(fill.filled_size, U);
            assert!(fill.side);
            assert_eq!(fill.exec_type, ExecType::Taker);
        },
        _ => panic!("Expected Fill event"),
    }

    // Cash drops by the notional plus the charge: 100000 - 50001 - fees
    let model = TransactionCostModel::new(1000, 2000, 100);
    let charge = model.calculate_cost(&ac_core::types::Fill {
        order_id: 1,
        instrument_id: InstId::EthUsdtSwap,
        filled_size: U,
        acc_filled_size: U,
        price: 50001 * U,
        side: true,
        exec_type: ExecType::Taker,
        state: FillState::Filled,
    });
    assert_eq!(broker.cash, 100_000 * UU - 50_001 * UU - charge);
    assert!(broker.cash < 100_000 * UU);
}

#[test]
fn test_sandbox_broker_limit_order_immediate_fill() {
    let mut broker = create_sandbox_broker(create_mock_bbo(1000, 50000 * U, 50001 * U));

    // Place a limit buy order at ask price (should fill immediately)
    let limit_order = create_limit_order(2, 50001 * U, U / 2, true);

    broker.on_client_event(ClientEvent::PlaceOrder(limit_order));

    // Should have a fill event
    let event = broker.next_event().unwrap();
    match event {
        BrokerEvent::Fill(fill) => {
            assert_eq!(fill.order_id, 2);
            assert_eq!(fill.price, 50001 * U);
            assert_eq!(fill.filled_size, U / 2);
            assert!(fill.side);
            assert_eq!(fill.exec_type, ExecType::Taker);
        },
        _ => panic!("Expected Fill event"),
    }
}

#[test]
fn test_sandbox_broker_limit_order_placed() {
    let mut broker = create_sandbox_broker(create_mock_bbo(1000, 50000 * U, 50001 * U));

    // Place a limit buy order below current bid (should not fill)
    let limit_order = create_limit_order(3, 49999 * U, U, true);

    broker.on_client_event(ClientEvent::PlaceOrder(limit_order));
    let event = broker.next_event().unwrap();
    assert!(matches!(event, BrokerEvent::Placed(_)));

    // Should have the order in the working set
    assert!(has_order(&broker, 3));
    assert_eq!(broker.limit_orders.len(), 1);

    // Should get data event, not fill
    broker.on_data(create_mock_bbo(2000, 50002 * U, 50003 * U));
    let event = broker.next_event().unwrap();
    match event {
        BrokerEvent::Data(_) => {},
        _ => panic!("Expected Data event"),
    }
}

#[test]
fn test_sandbox_broker_limit_order_fill_on_price_movement() {
    let mut broker = create_sandbox_broker(create_mock_bbo(1000, 50000 * U, 50001 * U));

    // Place a limit buy order
    let limit_order = create_limit_order(4, 49999 * U, U, true);

    broker.on_client_event(ClientEvent::PlaceOrder(limit_order));

    // First event should be order placed
    let event = broker.next_event().unwrap();
    match event {
        BrokerEvent::Placed(_) => {},
        _ => panic!("Expected Placed event: {event:#?}"),
    }

    // Next event should be data
    broker.on_data(create_mock_bbo(2000, 50000 * U, 50001 * U));
    let event = broker.next_event().unwrap();
    match event {
        BrokerEvent::Data(_) => {},
        _ => panic!("Expected Data event: {event:#?}"),
    }

    // The price drops; the next event should be a fill
    broker.on_data(create_mock_bbo(3000, 49997 * U, 49998 * U));
    let event = broker.next_event().unwrap();
    match event {
        BrokerEvent::Fill(fill) => {
            assert_eq!(fill.order_id, 4);
            assert_eq!(fill.price, 49999 * U); // Fill at the order's own price
            assert_eq!(fill.exec_type, ExecType::Maker);
        },
        _ => panic!("Expected Fill event: {event:#?}"),
    }

    // Order should be removed from the working set
    assert!(!has_order(&broker, 4));
}

#[test]
fn test_sandbox_broker_amend_order() {
    let mut broker = create_sandbox_broker(create_mock_bbo(1000, 50000 * U, 50001 * U));

    let limit_order = create_limit_order(5, 49999 * U, U, true);

    broker.on_client_event(ClientEvent::PlaceOrder(limit_order));
    let event = broker.next_event().unwrap();
    assert!(matches!(event, BrokerEvent::Placed(_)));

    // Amend the order
    broker.on_client_event(ClientEvent::AmendOrder(ac_core::types::AmendOrder {
        order_id: 5,
        instrument_id: InstId::EthUsdtSwap,
        new_size: 8 * U / 10,
        new_price: 50001 * U,
    }));
    let event = broker.next_event().unwrap();
    assert!(matches!(event, BrokerEvent::Amended(_)));

    // Check that order was amended
    let order = broker.limit_orders.iter().find(|o| o.order_id == 5).unwrap();
    assert_eq!(order.price, 50001 * U);
    assert_eq!(order.size, 8 * U / 10);

    // Get data event
    broker.on_data(create_mock_bbo(1000, 50002 * U, 50003 * U));
    let event = broker.next_event().unwrap();
    assert!(matches!(event, BrokerEvent::Data(_)));
}

#[test]
fn test_sandbox_broker_cancel_order() {
    let mut broker = create_sandbox_broker(create_mock_bbo(1000, 50000 * U, 50001 * U));

    // Place a limit order
    let limit_order = create_limit_order(6, 49999 * U, U, true);

    broker.on_client_event(ClientEvent::PlaceOrder(limit_order));
    assert!(has_order(&broker, 6));

    // Cancel the order
    broker.on_client_event(ClientEvent::CancelOrder(InstId::EthUsdtSwap, 6));

    // Order should be removed
    assert!(!has_order(&broker, 6));
    assert_eq!(broker.limit_orders.len(), 0);
}

#[test]
fn cancel_is_idempotent() {
    let mut broker = create_sandbox_broker(create_mock_bbo(1000, 50000 * U, 50001 * U));
    broker.on_client_event(ClientEvent::PlaceOrder(create_limit_order(7, 49999 * U, U, true)));
    broker.on_client_event(ClientEvent::CancelOrder(InstId::EthUsdtSwap, 7));
    let orders_after_once: Vec<u64> = broker.limit_orders.iter().map(|o| o.order_id).collect();
    broker.on_client_event(ClientEvent::CancelOrder(InstId::EthUsdtSwap, 7));
    let orders_after_twice: Vec<u64> = broker.limit_orders.iter().map(|o| o.order_id).collect();
    assert_eq!(orders_after_once, orders_after_twice);
    // Both cancels are acknowledged
    let placed = broker.next_event().unwrap();
    assert!(matches!(placed, BrokerEvent::Placed(_)));
    let e1 = broker.next_event().unwrap();
    let e2 = broker.next_event().unwrap();
    assert!(matches!(e1, BrokerEvent::Canceled(7)));
    assert!(matches!(e2, BrokerEvent::Canceled(7)));
}

#[test]
fn buy_at_bid_rests_buy_at_ask_takes() {
    let mut broker = create_sandbox_broker(create_mock_bbo(1000, 50000 * U, 50001 * U));
    // A buy at exactly the bid rests
    broker.on_client_event(ClientEvent::PlaceOrder(create_limit_order(8, 50000 * U, U, true)));
    let event = broker.next_event().unwrap();
    assert!(matches!(event, BrokerEvent::Placed(_)));
    // A buy at exactly the ask fills as taker
    broker.on_client_event(ClientEvent::PlaceOrder(create_limit_order(9, 50001 * U, U, true)));
    let event = broker.next_event().unwrap();
    match event {
        BrokerEvent::Fill(fill) => {
            assert_eq!(fill.order_id, 9);
            assert_eq!(fill.exec_type, ExecType::Taker);
            assert_eq!(fill.price, 50001 * U);
        },
        _ => panic!("Expected Fill event"),
    }
}

#[test]
fn test_sandbox_broker_multiple_orders_complex_scenario() {
    let mut broker = create_sandbox_broker(create_mock_bbo(0, 50000 * U, 50001 * U));
    let initial_cash = broker.cash;

    // Place multiple orders
    let orders = vec![
        ClientEvent::PlaceOrder(create_limit_order(10, 49998 * U, U / 2, true)),
        ClientEvent::PlaceOrder(create_limit_order(11, 50002 * U, U, false)),
        ClientEvent::PlaceOrder(create_market_order(12, U / 10, true)),
    ];
    for order in orders {
        broker.on_client_event(order);
    }

    // Should have 2 limit orders resting and 1 market order filled
    assert_eq!(broker.limit_orders.len(), 2);

    let mut fill_count = 0;
    let mut data_count = 0;

    // (order_id, price, filled_size, side, exec_type)
    let expected_fills = vec![
        (12u64, 50001 * U, U / 10, true, ExecType::Taker),
        (10u64, 49998 * U, U / 2, true, ExecType::Maker),
        (11u64, 50002 * U, U, false, ExecType::Maker),
    ];

    // Drive the remaining market data and process all events
    let feed = vec![
        create_mock_bbo(1000, 50000 * U, 50001 * U),
        create_mock_bbo(2000, 49995 * U, 49996 * U), // Price drops significantly
        create_mock_bbo(3000, 50005 * U, 50006 * U), // Price rises
    ];
    for bbo in feed {
        broker.on_data(bbo);
    }
    while let Some(event) = broker.next_event() {
        match event {
            BrokerEvent::Fill(fill) => {
                let (id, price, size, side, exec) = expected_fills[fill_count];
                assert_eq!(fill.order_id, id);
                assert_eq!(fill.price, price);
                assert_eq!(fill.filled_size, size);
                assert_eq!(fill.side, side);
                assert_eq!(fill.exec_type, exec);
                assert_eq!(fill.state, FillState::Filled);
                fill_count += 1;
            },
            BrokerEvent::Data(_) => {
                data_count += 1;
            },
            _ => {},
        }
    }

    assert_eq!(fill_count, 3);
    // 0.5 bought, 1 sold, 0.1 bought: net short
    assert_eq!(broker.portfolio.get_size(InstId::EthUsdtSwap), -4 * U / 10);

    // Should have processed all market data events
    assert_eq!(data_count, 3);

    // Cash should have changed due to trades
    assert_ne!(broker.cash, initial_cash);

    // Portfolio should have positions
    assert!(!broker.portfolio.positions.is_empty());
}

#[test]
fn test_sandbox_broker_reporter() {
    // Market data with clear price changes
    let feed = vec![
        create_mock_bbo(1999, 50999 * U, 51000 * U), // Price up
        create_mock_bbo(2999, 48999 * U, 49000 * U), // Price down
        create_mock_bbo(3999, 51999 * U, 52000 * U), // Price up again
    ];

    // Zero transaction costs, initial cash 10,000
    let initial_cash = 10_000 * UU;
    let mut broker = SandboxBroker::new(
        vec![InstId::EthUsdtSwap],
        initial_cash,
        TransactionCostModel::new(0, 0, 0),
        1000,
    );
    assert!(broker.seed_data(create_mock_bbo(999, 49999 * U, 50000 * U)));

    // 1. Buy 0.1 at 50,000
    broker.on_client_event(ClientEvent::PlaceOrder(create_market_order(1, U / 10, true)));
    assert!(matches!(broker.next_event().unwrap(), BrokerEvent::Fill(_)));

    // 2. Price moves up
    broker.on_data(feed[0]);
    assert!(matches!(broker.next_event().unwrap(), BrokerEvent::Data(_)));

    // 3. Sell 0.05 at 51,000's bid
    broker.on_client_event(ClientEvent::PlaceOrder(create_market_order(2, U / 20, false)));
    assert!(matches!(broker.next_event().unwrap(), BrokerEvent::Fill(_)));

    // 4. Price moves down
    broker.on_data(feed[1]);
    assert!(matches!(broker.next_event().unwrap(), BrokerEvent::Data(_)));

    // 5. Buy 0.1 at 49,000
    broker.on_client_event(ClientEvent::PlaceOrder(create_market_order(3, U / 10, true)));
    assert!(matches!(broker.next_event().unwrap(), BrokerEvent::Fill(_)));

    // 6. Final price move up
    broker.on_data(feed[2]);
    assert!(matches!(broker.next_event().unwrap(), BrokerEvent::Data(_)));

    // No more events; close the run
    assert!(broker.next_event().is_none());
    broker.finish();

    // Check reporter's value history
    assert_eq!(broker.reporter.value_history.len(), 4);

    // Expected marks: the size-weighted quote is the midpoint with equal
    // sizes; values are exact in product units.
    let mid = |bid: i64, ask: i64| -> i128 { ((bid as i128) + (ask as i128)) / 2 };
    let mut cash: i128 = initial_cash;
    let mut holding: i128 = 0;

    cash -= (U as i128 / 10) * (50000 * U as i128);
    holding += U as i128 / 10;
    let v0 = cash + holding * mid(49999 * U, 50000 * U);
    // value in product units: holding (counts) times mark (counts)
    assert_eq!(broker.reporter.value_history[0].value, v0);

    cash += (U as i128 / 20) * (50999 * U as i128);
    holding -= U as i128 / 20;
    let v1 = cash + holding * mid(50999 * U, 51000 * U);
    assert_eq!(broker.reporter.value_history[1].value, v1);

    cash -= (U as i128 / 10) * (49000 * U as i128);
    holding += U as i128 / 10;
    let v2 = cash + holding * mid(48999 * U, 49000 * U);
    assert_eq!(broker.reporter.value_history[2].value, v2);

    let v3 = cash + holding * mid(51999 * U, 52000 * U);
    assert_eq!(broker.reporter.value_history[3].value, v3);

    // Verify timestamps
    assert_eq!(broker.reporter.value_history[0].ts, 1000);
    assert_eq!(broker.reporter.value_history[1].ts, 2000);
    assert_eq!(broker.reporter.value_history[2].ts, 3000);
    assert_eq!(broker.reporter.value_history[3].ts, 4000);

    // Verify final portfolio state
    assert_eq!(broker.cash, cash);
    assert_eq!(broker.portfolio.get_size(InstId::EthUsdtSwap), 15 * U / 100);
}

#[test]
fn zero_fee_run_conserves_value_at_fill_price() {
    // With no fees and no slippage, cash plus position marked at the fill
    // price is unchanged by a fill.
    let mut broker = SandboxBroker::new(
        vec![InstId::EthUsdtSwap],
        10_000 * UU,
        TransactionCostModel::new(0, 0, 0),
        1000,
    );
    assert!(broker.seed_data(create_mock_bbo(999, 49999 * U, 50000 * U)));
    let fill_price: i128 = 50000 * U as i128;
    let before = broker.cash
        + (broker.portfolio.get_size(InstId::EthUsdtSwap) as i128) * fill_price;
    broker.on_client_event(ClientEvent::PlaceOrder(create_market_order(1, U / 10, true)));
    let after = broker.cash
        + (broker.portfolio.get_size(InstId::EthUsdtSwap) as i128) * fill_price;
    assert_eq!(before, after);
}
