use ac_core::cost::TransactionCostModel;
use ac_core::types::{ExecType, Fill, FillState, InstId, UNIT, make_order_id};

const U: i64 = UNIT;

fn fill(price: i64, size: i64, side: bool, exec_type: ExecType) -> Fill {
    Fill {
        order_id: 1,
        instrument_id: InstId::EthUsdtSwap,
        filled_size: size,
        acc_filled_size: size,
        price,
        side,
        exec_type,
        state: FillState::Filled,
    }
}

#[test]
fn taker_cost_charges_fee_and_slippage() {
    // fee 0.002, slippage 0.0001 on a 50,000 notional buy:
    // (1.0001 * 1.002 - 1) * 50000 = 105.01
    let model = TransactionCostModel::new(1000, 2000, 100);
    let cost = model.calculate_cost(&fill(50_000 * U, U, true, ExecType::Taker));
    assert_eq!(cost, 105_010_000_000_000);
}

#[test]
fn maker_cost_charges_fee_only() {
    // fee 0.001, no slippage for makers: 0.001 * 50000 = 50
    let model = TransactionCostModel::new(1000, 2000, 100);
    let cost = model.calculate_cost(&fill(50_000 * U, U, true, ExecType::Maker));
    assert_eq!(cost, 50_000_000_000_000);
}

#[test]
fn seller_slippage_works_against_the_trade() {
    // (1 - 0.0001) * 1.002 - 1 = 0.0018998 of 50000 = 94.99
    let model = TransactionCostModel::new(1000, 2000, 100);
    let cost = model.calculate_cost(&fill(50_000 * U, U, false, ExecType::Taker));
    assert_eq!(cost, 94_990_000_000_000);
}

#[test]
fn zero_rate_model_is_free() {
    let model = TransactionCostModel::new(0, 0, 0);
    for side in [true, false] {
        for exec_type in [ExecType::Taker, ExecType::Maker] {
            assert_eq!(model.calculate_cost(&fill(50_000 * U, U, side, exec_type)), 0);
        }
    }
}

#[test]
fn venue_schedule_has_standard_rates() {
    let model = TransactionCostModel::new_okx(100);
    assert_eq!(model.maker_fee_ppm, 200);
    assert_eq!(model.taker_fee_ppm, 500);
    assert_eq!(model.slippage_ppm, 100);
}

#[test]
fn order_ids_pack_counter_and_tag() {
    assert_eq!(make_order_id(0, 123), 123);
    assert_eq!(make_order_id(5, 123), 5 * 0x10000 + 123);
    assert_eq!(make_order_id(5, 123) % 0x10000, 123);
    assert_ne!(make_order_id(5, 123), make_order_id(6, 123));
}
