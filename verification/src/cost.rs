//! Transaction costs: fees and slippage, held as exact parts-per-million
//! rates so every charge is computed in integer arithmetic.

use vstd::prelude::*;

use crate::types::{ExecType, Fill, MAX_AMOUNT, mul_i64};

verus! {

/// One million: the denominator of every fee and slippage rate.
pub const PPM: i64 = 1_000_000;

/// Fee and slippage schedule. Rates are parts per million of notional.
#[derive(Clone, Copy, PartialEq, Eq, Structural, Debug)]
pub struct TransactionCostModel {
    pub maker_fee_ppm: i64,
    pub taker_fee_ppm: i64,
    pub slippage_ppm: i64,
}

impl TransactionCostModel {
    pub open spec fn wf(self) -> bool {
        &&& 0 <= self.maker_fee_ppm <= PPM
    &&& 0 <= self.taker_fee_ppm <= PPM
    &&& 0 <= self.slippage_ppm <= PPM
    }

    pub fn new(maker_fee_ppm: i64, taker_fee_ppm: i64, slippage_ppm: i64) -> (r:
        TransactionCostModel)
        requires
            0 <= maker_fee_ppm <= PPM,
            0 <= taker_fee_ppm <= PPM,
            0 <= slippage_ppm <= PPM,
        ensures
            r == (TransactionCostModel { maker_fee_ppm, taker_fee_ppm, slippage_ppm }),
            r.wf(),
    {
        TransactionCostModel { maker_fee_ppm, taker_fee_ppm, slippage_ppm }
    }

    /// The venue's standard schedule: two basis points maker, five taker.
    pub fn new_okx(slippage_ppm: i64) -> (r: TransactionCostModel)
        requires
            0 <= slippage_ppm <= PPM,
        ensures
            r == (TransactionCostModel {
                maker_fee_ppm: 200,
                taker_fee_ppm: 500,
                slippage_ppm,
            }),
            r.wf(),
    {
        TransactionCostModel { maker_fee_ppm: 200, taker_fee_ppm: 500, slippage_ppm }
    }

    /// The charge levied on a fill, in product units: the effective (slipped)
    /// notional plus its fee, less the nominal notional. A maker pays no
    /// slippage; a taker slips against the trade's direction.
    pub open spec fn spec_cost(self, fill: Fill) -> int {
        let fee = if fill.exec_type is Taker {
            self.taker_fee_ppm as int
        } else {
            self.maker_fee_ppm as int
        };
        let slip = if fill.exec_type is Taker {
            self.slippage_ppm as int
        } else {
            0
        };
        let eff = if fill.side {
            PPM + slip
        } else {
            PPM - slip
        };
        let notional = fill.price * fill.filled_size;
        (notional * (eff * (PPM + fee))) / (PPM as int * PPM as int) - notional
    }

    pub fn calculate_cost(&self, fill: &Fill) -> (r: i128)
        requires
            self.wf(),
            fill.wf(),
        ensures
            r == self.spec_cost(*fill),
            -0x1_0000_0000_0000_0000_0000_0000 <= r <= 0x1_0000_0000_0000_0000_0000_0000,
    {
        let (fee, slip) = if matches!(fill.exec_type, ExecType::Taker) {
            (self.taker_fee_ppm, self.slippage_ppm)
        } else {
            (self.maker_fee_ppm, 0)
        };
        let eff: i64 = if fill.side {
            PPM + slip
        } else {
            PPM - slip
        };
        proof {
            vstd::arithmetic::mul::lemma_mul_nonnegative(eff as int, (PPM + fee) as int);
            vstd::arithmetic::mul::lemma_mul_upper_bound(
                eff as int,
                2 * PPM as int,
                (PPM + fee) as int,
                2 * PPM as int,
            );
        }
        let factor: i64 = eff * (PPM + fee);
        let notional: i128 = mul_i64(fill.price, fill.filled_size);
        proof {
            vstd::arithmetic::mul::lemma_mul_nonnegative(
                fill.price as int,
                fill.filled_size as int,
            );
            vstd::arithmetic::mul::lemma_mul_upper_bound(
                fill.price as int,
                MAX_AMOUNT as int,
                fill.filled_size as int,
                MAX_AMOUNT as int,
            );
            vstd::arithmetic::mul::lemma_mul_nonnegative(notional as int, factor as int);
            vstd::arithmetic::mul::lemma_mul_upper_bound(
                notional as int,
                MAX_AMOUNT as int * MAX_AMOUNT as int,
                factor as int,
                4_000_000_000_000,
            );
        }
        let num: i128 = notional * (factor as i128);
        let gross: i128 = num / 1_000_000_000_000;
        proof {
            crate::types::lemma_div_mul_le(num as int, 1_000_000_000_000);
            vstd::arithmetic::div_mod::lemma_div_pos_is_pos(num as int, 1_000_000_000_000);
            vstd::arithmetic::div_mod::lemma_div_is_ordered(
                num as int,
                MAX_AMOUNT as int * MAX_AMOUNT as int * 4_000_000_000_000,
                1_000_000_000_000,
            );
            vstd::arithmetic::div_mod::lemma_div_multiples_vanish(
                MAX_AMOUNT as int * MAX_AMOUNT as int * 4,
                1_000_000_000_000,
            );
            vstd::arithmetic::mul::lemma_mul_is_associative(
                MAX_AMOUNT as int * MAX_AMOUNT as int,
                4,
                1_000_000_000_000,
            );
            vstd::arithmetic::mul::lemma_mul_is_commutative(
                1_000_000_000_000,
                MAX_AMOUNT as int * MAX_AMOUNT as int * 4,
            );
        }
        gross - notional
    }
}

/// With no fee and no slippage, every fill is free of charge.
pub proof fn lemma_zero_cost_model(m: TransactionCostModel, fill: Fill)
    requires
        m.wf(),
        fill.wf(),
        m.maker_fee_ppm == 0,
        m.taker_fee_ppm == 0,
        m.slippage_ppm == 0,
    ensures
        m.spec_cost(fill) == 0,
{
    let notional = fill.price as int * fill.filled_size as int;
    assert((PPM as int) * (PPM as int) == 1_000_000_000_000);
    vstd::arithmetic::div_mod::lemma_div_multiples_vanish(notional, 1_000_000_000_000);
    vstd::arithmetic::mul::lemma_mul_is_commutative(notional, 1_000_000_000_000);
}

} // verus!
