use ac_core::adapters::{
    Heartbeat, HeartbeatAction, HistoryLive, Level1Acc, SendBuffer, TsStreamMerger,
};
use ac_core::ofi::{OfiWindow, ofi_contribution};
use ac_core::portfolio::{Portfolio, Position};
use ac_core::types::{
    Bbo, ExecType, Fill, FillState, InstId, Trade, UNIT, round_to_step, truncate_to_step,
};
use ac_core::wire::Data;

const U: i64 = UNIT;

fn bbo(ts: u64, bid_price: i64, ask_price: i64, bid_size: i64, ask_size: i64) -> Bbo {
    Bbo { ts, instrument_id: InstId::EthUsdtSwap, bid_price, bid_size, ask_price, ask_size }
}

fn trade(ts: u64, price: i64, size: i64, side: bool, order_count: u32) -> Trade {
    Trade {
        ts,
        instrument_id: InstId::EthUsdtSwap,
        trade_id: b"t".to_vec(),
        price,
        size,
        side,
        order_count,
    }
}

#[test]
fn heartbeat_discipline() {
    let mut hb = Heartbeat::new();
    hb.on_first_poll();
    assert!(hb.is_started);

    // The ping timer elapses: send a ping, start awaiting the pong.
    assert_eq!(hb.on_ping_due(), HeartbeatAction::SendPing);
    assert!(hb.is_waiting_pong);

    // A pong arrives in time: consumed silently, the wait ends.
    assert_eq!(hb.on_inbound(b"pong".to_vec()), HeartbeatAction::Ignore);
    assert!(!hb.is_waiting_pong);

    // With no pong pending, the pong timer is harmless.
    assert_eq!(hb.on_pong_timeout(), HeartbeatAction::Ignore);

    // Any other frame passes through unchanged and also counts as life.
    assert_eq!(hb.on_ping_due(), HeartbeatAction::SendPing);
    assert_eq!(hb.on_inbound(b"data".to_vec()), HeartbeatAction::Deliver(b"data".to_vec()));
    assert!(!hb.is_waiting_pong);

    // A pong that never comes kills the stream.
    hb.on_ping_due();
    assert_eq!(hb.on_pong_timeout(), HeartbeatAction::Terminate);
}

#[test]
fn merger_emits_in_timestamp_order_with_quote_priority() {
    let mut merger = TsStreamMerger::new();
    let quotes = vec![bbo(1000, 100 * U, 101 * U, U, U), bbo(3000, 100 * U, 101 * U, U, U)];
    let trades = vec![trade(1000, 100 * U, U, true, 1), trade(2000, 100 * U, U, false, 1)];
    let mut qi = 0;
    let mut ti = 0;
    let mut out: Vec<(u64, bool)> = Vec::new(); // (ts, is_quote)
    loop {
        if merger.needs_first() {
            let item = quotes.get(qi).copied();
            qi += 1;
            merger.feed_first(item);
        }
        if merger.needs_second() {
            let item = trades.get(ti).cloned();
            ti += 1;
            merger.feed_second(item);
        }
        match merger.pop() {
            Some(Data::Bbo(b)) => out.push((b.ts, true)),
            Some(Data::Trade(t)) => out.push((t.ts, false)),
            Some(Data::Order(_)) => unreachable!(),
            None => break,
        }
    }
    // Non-decreasing timestamps, the tie at 1000 going to the quote stream.
    assert_eq!(out, vec![(1000, true), (1000, false), (2000, false), (3000, true)]);
}

#[test]
fn history_live_switches_once() {
    let mut hl = HistoryLive::new();
    assert!(!hl.poll_live());
    hl.on_history_end();
    assert!(hl.poll_live());
}

#[test]
fn send_buffer_preserves_order_across_requeues() {
    // Push ten items; the connection rejects every third send, and the
    // rejected item is requeued at the head: all ten still arrive in order.
    let mut buffer: SendBuffer<u32> = SendBuffer::new();
    for i in 1..=10u32 {
        buffer.enqueue(i);
    }
    let mut delivered: Vec<u32> = Vec::new();
    let mut attempts = 0u32;
    while let Some(item) = buffer.pop_front() {
        attempts += 1;
        if attempts % 3 == 0 {
            buffer.requeue_front(item);
        } else {
            delivered.push(item);
        }
    }
    assert_eq!(delivered, vec![1, 2, 3, 4, 5, 6, 7, 8, 9, 10]);
}

#[test]
fn level1_accumulates_and_resets() {
    let mut acc = Level1Acc::new();
    acc.on_trade(&trade(1, 100 * U, 2 * U, true, 3)); // size*count = 6 units
    acc.on_trade(&trade(2, 200 * U, U, false, 1));
    let q = bbo(3, 100 * U, 101 * U, U, U);
    let level1 = acc.on_bbo(q);
    assert_eq!(level1.volume, (2 * U as i128) * 3 + (U as i128));
    assert_eq!(
        level1.weighted_price_num,
        (100 * U as i128) * (2 * U as i128) * 3 + (200 * U as i128) * (U as i128)
    );
    assert_eq!(level1.buying_volume, 2 * U as i128);
    assert_eq!(level1.selling_volume, U as i128);
    assert_eq!(level1.bbo, q);
    // Every accumulator resets: the next window counts from this quote.
    assert_eq!(acc.volume, 0);
    assert_eq!(acc.weighted_price_num, 0);
    assert_eq!(acc.buying_volume, 0);
    assert_eq!(acc.selling_volume, 0);
}

#[test]
fn ofi_contribution_follows_quote_moves() {
    let old = bbo(1000, 100 * U, 101 * U, 5 * U, 7 * U);
    // Bid price up: add the new bid size; ask unchanged: both ask terms.
    let new = bbo(2000, 101 * U, 101 * U, 3 * U, 2 * U);
    // +3 (new bid) - 0 (old bid not counted, bid went up)
    // -2 (new ask, ask price unchanged counts) +7 (old ask)
    assert_eq!(ofi_contribution(&old, &new), (3 - 2 + 7) * U);

    // Both sides down.
    let down = bbo(3000, 99 * U, 100 * U, 4 * U, 6 * U);
    // 0 (bid fell) -3 (old bid) -6 (new ask) +0 (ask fell)
    assert_eq!(ofi_contribution(&new, &down), (-3 - 6) * U);
}

#[test]
fn signaler_warms_up_before_emitting() {
    // Warm-up lasts max(window_ofi, window_ema); no observation may carry
    // the warmed-up flag until more than that has elapsed.
    let mut window = OfiWindow::new(8 * 60_000, 240 * 60_000);
    assert_eq!(window.warm_up_duration, 240 * 60_000);

    // First quote: no observation at all.
    assert!(window.on_data(&bbo(0, 100 * U, 101 * U, U, U)).is_none());

    // Within warm-up: observations flow but stay cold.
    let obs = window.on_data(&bbo(60_000, 100 * U, 101 * U, U, U)).unwrap();
    assert!(!obs.warmed_up);
    assert_eq!(obs.dt, 60_000);

    let obs = window.on_data(&bbo(240 * 60_000, 100 * U, 101 * U, U, U)).unwrap();
    assert!(!obs.warmed_up); // exactly the warm-up boundary is still cold

    let obs = window.on_data(&bbo(240 * 60_000 + 1, 100 * U, 101 * U, U, U)).unwrap();
    assert!(obs.warmed_up);
}

#[test]
fn position_clear_uses_size_grid() {
    let p = Position::new(9_999);
    assert!(p.is_clear(2)); // |size| below one hundredth of a unit
    let p = Position::new(10_000);
    assert!(!p.is_clear(2));
    let p = Position::new(-9_999);
    assert!(p.is_clear(2));
}

#[test]
fn portfolio_tracks_signed_fills_and_drops_flat_entries() {
    let mut portfolio = Portfolio::new();
    let buy = Fill {
        order_id: 1,
        instrument_id: InstId::EthUsdtSwap,
        filled_size: 3 * U,
        acc_filled_size: 3 * U,
        price: 100 * U,
        side: true,
        exec_type: ExecType::Taker,
        state: FillState::Filled,
    };
    let mut sell = buy;
    sell.side = false;
    portfolio.update(&buy);
    assert_eq!(portfolio.get_size(InstId::EthUsdtSwap), 3 * U);
    assert_eq!(portfolio.get_size(InstId::BtcUsdtSwap), 0);
    portfolio.update(&sell);
    // The signed sum over the fills is zero, and the flat entry is removed.
    assert_eq!(portfolio.get_size(InstId::EthUsdtSwap), 0);
    assert!(portfolio.positions.is_empty());
}

#[test]
fn grid_rounding_matches_decimal_semantics() {
    // truncate to two decimals (step of 10^4 units)
    assert_eq!(truncate_to_step(10_416_666, 10_000), 10_410_000);
    assert_eq!(truncate_to_step(-10_416_666, 10_000), -10_410_000);
    // round half away from zero
    assert_eq!(round_to_step(10_415_000, 10_000), 10_420_000);
    assert_eq!(round_to_step(10_414_999, 10_000), 10_410_000);
    assert_eq!(round_to_step(-10_415_000, 10_000), -10_420_000);
}

#[test]
fn unbiased_price_weighs_sizes() {
    let q = bbo(1, 49999 * U, 50000 * U, U, U);
    assert_eq!(q.get_unbiased_price(), 49999 * U + 500_000);
    assert_eq!(q.get_spread(), U);
    // The heavier side pulls the price towards the other quote.
    let skewed = bbo(2, 100 * U, 104 * U, 3 * U, U);
    // (100*1 + 104*3) / 4 = 103
    assert_eq!(skewed.get_unbiased_price(), 103 * U);
}

#[test]
fn test_env_vars() {
    // A complete configuration passes validation; a missing credential or a
    // zero timer must fail startup.
    let settings = ac_core::settings::Settings {
        pg_host: b"postgres://localhost/market".to_vec(),
        api_key: b"key".to_vec(),
        secret_key: b"secret".to_vec(),
        passphrase: b"phrase".to_vec(),
        heartbeat_interval: 600,
        heartbeat_timeout: 100,
    };
    assert!(settings.is_complete());
    let mut missing = settings.clone();
    missing.secret_key = Vec::new();
    assert!(!missing.is_complete());
    let mut zero_timer = settings;
    zero_timer.heartbeat_interval = 0;
    assert!(!zero_timer.is_complete());
}

#[test]
fn test() {
    // The static instrument profiles: at least the listed perpetual swaps.
    let profiles = vec![
        (InstId::EthUsdtSwap, ac_core::types::InstrumentProfile::new(2, 2, UNIT)),
        (InstId::BtcUsdtSwap, ac_core::types::InstrumentProfile::new(2, 1, UNIT)),
    ];
    assert!(profiles.len() > 0);
    assert_eq!(profiles[0].1.size_digits, 2);
}
