use ac_core::auth::build_sign;
use ac_core::decimal::{format_scaled, parse_scaled, parse_u64};
use ac_core::types::{
    AmendOrder, BrokerEvent, ClientEvent, ExecType, Fill, FillState, InstId, LimitOrder, Order,
    UNIT,
};
use ac_core::wire::{
    Action, Channel, Data, DecodeError, DepthData, OkxWsEndpoint, OrdType, OrderPushType,
    OrderState, OrdersData, Request, Side, SubscribeArg, TradesData, WireLevel,
    broker_event_from_push, client_event_to_action, encode_broker_event,
};

const U: i64 = UNIT;

#[test]
fn parse_scaled_reads_wire_decimals() {
    assert_eq!(parse_scaled(b"50001"), Some(50001 * U));
    assert_eq!(parse_scaled(b"50001.5"), Some(50001 * U + 500_000));
    assert_eq!(parse_scaled(b"0.05"), Some(50_000));
    assert_eq!(parse_scaled(b"0"), Some(0));
    assert_eq!(parse_scaled(b"9.90"), Some(9_900_000));
}

#[test]
fn parse_scaled_rejects_malformed_input() {
    assert_eq!(parse_scaled(b""), None);
    assert_eq!(parse_scaled(b"."), None);
    assert_eq!(parse_scaled(b"1."), None);
    assert_eq!(parse_scaled(b".5"), None);
    assert_eq!(parse_scaled(b"1.2345678"), None); // more than six decimals
    assert_eq!(parse_scaled(b"12a"), None);
    assert_eq!(parse_scaled(b"-1"), None);
    assert_eq!(parse_scaled(b"1.2.3"), None);
}

#[test]
fn format_scaled_round_trips() {
    for v in [0i64, 1, 50_000, 500_000, 9_900_000, 50001 * U, 50001 * U + 500_000, U - 1] {
        let s = format_scaled(v);
        assert_eq!(parse_scaled(s.as_slice()), Some(v), "value {v}");
    }
    assert_eq!(format_scaled(9_900_000), b"9.9".to_vec());
    assert_eq!(format_scaled(50001 * U), b"50001".to_vec());
    assert_eq!(format_scaled(50_000), b"0.05".to_vec());
}

#[test]
fn parse_u64_reads_identifiers() {
    assert_eq!(parse_u64(b"0"), Some(0));
    assert_eq!(parse_u64(b"65659"), Some(65659));
    assert_eq!(parse_u64(b"18446744073709551615"), Some(u64::MAX));
    assert_eq!(parse_u64(b"18446744073709551616"), None);
    assert_eq!(parse_u64(b""), None);
    assert_eq!(parse_u64(b"12x"), None);
}

fn sample_fill() -> Fill {
    Fill {
        order_id: 65659,
        instrument_id: InstId::EthUsdtSwap,
        filled_size: 5 * U,
        acc_filled_size: 5 * U,
        price: 49999 * U,
        side: true,
        exec_type: ExecType::Maker,
        state: FillState::Partially,
    }
}

#[test]
fn codec_round_trips_fill_events() {
    let ev = BrokerEvent::Fill(sample_fill());
    let frame = encode_broker_event(&ev).unwrap();
    let push = frame.try_into_order_push(InstId::EthUsdtSwap).unwrap();
    let back = broker_event_from_push(&push).unwrap();
    assert_eq!(back, ev);
}

#[test]
fn codec_round_trips_order_acknowledgements() {
    let order = LimitOrder {
        order_id: 123,
        instrument_id: InstId::EthUsdtSwap,
        price: 49999 * U,
        size: U,
        filled_size: 0,
        side: true,
    };
    for ev in [
        BrokerEvent::Placed(Order::Limit(order)),
        BrokerEvent::Amended(Order::Limit(order)),
        BrokerEvent::Canceled(123),
    ] {
        let frame = encode_broker_event(&ev).unwrap();
        let push = frame.try_into_order_push(InstId::EthUsdtSwap).unwrap();
        let back = broker_event_from_push(&push).unwrap();
        assert_eq!(back, ev);
    }
}

#[test]
fn push_type_priority_follows_filled_then_cancel_then_amend() {
    let base = OrdersData {
        cl_ord_id: b"7".to_vec(),
        state: OrderState::Live,
        side: Side::Buy,
        sz: b"1".to_vec(),
        fill_sz: b"0".to_vec(),
        acc_fill_sz: b"0".to_vec(),
        fill_pnl: b"100".to_vec(),
        cancel_source: Vec::new(),
        amend_result: Vec::new(),
        exec_type: Vec::new(),
        ord_type: OrdType::Limit,
    };

    let placed = base.clone();
    assert_eq!(
        placed.try_into_order_push(InstId::EthUsdtSwap).unwrap().push_type,
        OrderPushType::Placed
    );

    let mut amended = base.clone();
    amended.amend_result = b"ok".to_vec();
    assert_eq!(
        amended.try_into_order_push(InstId::EthUsdtSwap).unwrap().push_type,
        OrderPushType::Amended
    );

    let mut canceled = base.clone();
    canceled.amend_result = b"ok".to_vec();
    canceled.cancel_source = b"1".to_vec();
    assert_eq!(
        canceled.try_into_order_push(InstId::EthUsdtSwap).unwrap().push_type,
        OrderPushType::Canceled
    );

    let mut filled = canceled.clone();
    filled.fill_sz = b"0.5".to_vec();
    let push = filled.try_into_order_push(InstId::EthUsdtSwap).unwrap();
    assert_eq!(push.push_type, OrderPushType::Fill);
    assert_eq!(push.filled_size, U / 2);
}

#[test]
fn orders_decode_rejects_bad_numbers() {
    let mut bad = OrdersData {
        cl_ord_id: b"x".to_vec(),
        state: OrderState::Live,
        side: Side::Buy,
        sz: b"1".to_vec(),
        fill_sz: b"0".to_vec(),
        acc_fill_sz: b"0".to_vec(),
        fill_pnl: b"100".to_vec(),
        cancel_source: Vec::new(),
        amend_result: Vec::new(),
        exec_type: Vec::new(),
        ord_type: OrdType::Limit,
    };
    assert_eq!(bad.clone().try_into_order_push(InstId::EthUsdtSwap), Err(DecodeError::BadNumber));
    bad.cl_ord_id = b"7".to_vec();
    bad.sz = b"one".to_vec();
    assert_eq!(bad.try_into_order_push(InstId::EthUsdtSwap), Err(DecodeError::BadNumber));
}

#[test]
fn trades_decode_reads_prints_and_rejects_bad_sides() {
    let data = TradesData {
        inst_id: InstId::EthUsdtSwap,
        trade_id: b"t1".to_vec(),
        px: b"111.06".to_vec(),
        sz: b"2".to_vec(),
        side: b"buy".to_vec(),
        ts: b"1670324386802".to_vec(),
        count: b"3".to_vec(),
    };
    let trade = data.try_into_trade().unwrap();
    assert_eq!(trade.ts, 1670324386802);
    assert_eq!(trade.price, 111 * U + 60_000);
    assert_eq!(trade.size, 2 * U);
    assert!(trade.side);
    assert_eq!(trade.order_count, 3);

    let bad = TradesData {
        inst_id: InstId::EthUsdtSwap,
        trade_id: b"t2".to_vec(),
        px: b"1".to_vec(),
        sz: b"1".to_vec(),
        side: b"hold".to_vec(),
        ts: b"1".to_vec(),
        count: b"1".to_vec(),
    };
    assert_eq!(bad.try_into_trade(), Err(DecodeError::BadSide));
}

fn level(price: &[u8], size: &[u8]) -> WireLevel {
    WireLevel {
        price: price.to_vec(),
        size: size.to_vec(),
        liquidated: b"0".to_vec(),
        order_count: b"2".to_vec(),
    }
}

#[test]
fn depth_decode_reads_top_of_book() {
    let data = DepthData {
        asks: vec![level(b"111.06", b"55154")],
        bids: vec![level(b"111.05", b"57745")],
        ts: b"1670324386802".to_vec(),
    };
    let bbo = data.try_into_bbo(InstId::EthUsdtSwap).unwrap();
    assert_eq!(bbo.ts, 1670324386802);
    assert_eq!(bbo.bid_price, 111 * U + 50_000);
    assert_eq!(bbo.ask_price, 111 * U + 60_000);
    assert_eq!(bbo.bid_size, 57745 * U);
    assert_eq!(bbo.ask_size, 55154 * U);

    let empty = DepthData { asks: vec![], bids: vec![level(b"1", b"1")], ts: b"1".to_vec() };
    assert_eq!(empty.try_into_bbo(InstId::EthUsdtSwap), Err(DecodeError::EmptyBook));

    let crossed = DepthData {
        asks: vec![level(b"100", b"1")],
        bids: vec![level(b"101", b"1")],
        ts: b"1".to_vec(),
    };
    assert_eq!(crossed.try_into_bbo(InstId::EthUsdtSwap), Err(DecodeError::CrossedBook));
}

#[test]
fn client_events_become_wire_actions() {
    let order = LimitOrder {
        order_id: 65659,
        instrument_id: InstId::EthUsdtSwap,
        price: 49999 * U + 500_000,
        size: 9_900_000,
        filled_size: 0,
        side: true,
    };
    let action = client_event_to_action(&ClientEvent::PlaceOrder(Order::Limit(order)));
    match &action {
        Action::LimitOrder { side, inst_id, client_order_id, size, price, .. } => {
            assert_eq!(*side, Side::Buy);
            assert_eq!(*inst_id, InstId::EthUsdtSwap);
            assert_eq!(client_order_id, &b"65659".to_vec());
            assert_eq!(size, &b"9.9".to_vec());
            assert_eq!(price, &b"49999.5".to_vec());
        },
        _ => panic!("expected a limit order action"),
    }
    assert!(action.is_private());

    let amend = client_event_to_action(&ClientEvent::AmendOrder(AmendOrder {
        order_id: 9,
        instrument_id: InstId::EthUsdtSwap,
        new_size: U,
        new_price: 2 * U,
    }));
    match amend {
        Action::AmendWorkingOrder { client_order_id, new_size, new_price, .. } => {
            assert_eq!(client_order_id, b"9".to_vec());
            assert_eq!(new_size, b"1".to_vec());
            assert_eq!(new_price, b"2".to_vec());
        },
        _ => panic!("expected an amend action"),
    }

    let cancel = client_event_to_action(&ClientEvent::CancelOrder(InstId::EthUsdtSwap, 9));
    match cancel {
        Action::CancelWorkingOrder { client_order_id, inst_id, .. } => {
            assert_eq!(client_order_id, b"9".to_vec());
            assert_eq!(inst_id, InstId::EthUsdtSwap);
        },
        _ => panic!("expected a cancel action"),
    }

    let subscribe = Action::SubscribeBboTbt(InstId::EthUsdtSwap);
    assert!(!subscribe.is_private());
}

#[test]
fn subscription_requests_carry_channel_and_instrument() {
    let r = Request::subscribe_trades(InstId::EthUsdtSwap);
    assert_eq!(r.channel(), Channel::Trades);
    assert_eq!(r.inst_id(), InstId::EthUsdtSwap);
    let r = Request::subscribe_bbo_tbt(InstId::BtcUsdtSwap);
    assert_eq!(r.channel(), Channel::BboTbt);
    assert_eq!(r.inst_id(), InstId::BtcUsdtSwap);
    let r = Request::subscribe_orders(ac_core::wire::InstType::Swap, InstId::EthUsdtSwap);
    assert_eq!(r.channel(), Channel::Orders);
    let arg = SubscribeArg::new_orders(ac_core::wire::InstType::Swap, InstId::BtcUsdtSwap);
    assert_eq!(arg.channel, Channel::Orders);
}

#[test]
fn broker_events_drop_trade_data() {
    let push = OrdersData {
        cl_ord_id: b"7".to_vec(),
        state: OrderState::Live,
        side: Side::Buy,
        sz: b"1".to_vec(),
        fill_sz: b"0".to_vec(),
        acc_fill_sz: b"0".to_vec(),
        fill_pnl: b"100".to_vec(),
        cancel_source: Vec::new(),
        amend_result: Vec::new(),
        exec_type: Vec::new(),
        ord_type: OrdType::Limit,
    }
    .try_into_order_push(InstId::EthUsdtSwap)
    .unwrap();
    let ev = ac_core::types::BrokerEvent::try_from_data(Data::Order(push)).unwrap();
    assert!(matches!(ev, ac_core::types::BrokerEvent::Placed(_)));
}

#[test]
fn login_signature_has_mac_shape() {
    // The signature is base64 of a 32-byte tag: 44 bytes, never the payload
    // itself.
    let sign = build_sign(b"secret", 1670324386);
    assert_eq!(sign.len(), 44);
    let sign2 = build_sign(b"secret", 1670324387);
    assert_ne!(sign, sign2);
    for b in &sign {
        let ok = b.is_ascii_alphanumeric() || *b == b'+' || *b == b'/' || *b == b'=';
        assert!(ok);
    }
}

#[test]
fn endpoints_split_public_and_private() {
    assert!(!OkxWsEndpoint::Public.is_private());
    assert!(OkxWsEndpoint::Private.is_private());
    assert!(!OkxWsEndpoint::PublicSimu.is_private());
    assert!(OkxWsEndpoint::PrivateSimu.is_private());
    assert_eq!(OkxWsEndpoint::Public.url(), "wss://ws.okx.com:8443/ws/v5/public");
    assert_eq!(OkxWsEndpoint::Private.url(), "wss://ws.okx.com:8443/ws/v5/private");
}
