//! The sandbox broker: a deterministic matcher that turns market data into
//! fills against a portfolio, for backtesting and warm-up.

use std::collections::VecDeque;

use vstd::prelude::*;

use crate::cost::TransactionCostModel;
use crate::portfolio::{Portfolio, spec_marked_value};
use crate::reporter::Reporter;
use crate::table::{
    assoc_get, assoc_unique, lemma_assoc_get_at, lemma_assoc_get_push, lemma_assoc_get_push_same,
    lemma_assoc_get_update,
};
use crate::types::{
    Bbo, BrokerEvent, ClientEvent, ExecType, Fill, FillState, InstId, LimitOrder, MAX_AMOUNT,
    MAX_CASH, MAX_POSITION, MAX_TS, MarketOrder, Order, OrderId, Timestamp, add_cash, clamp_spec,
};

verus! {

/// The touch a taker clears at: the ask when buying, the bid when selling.
pub open spec fn spec_taker_price(bbo: Bbo, side: bool) -> i64 {
    if side {
        bbo.ask_price
    } else {
        bbo.bid_price
    }
}

/// A resting buy matches once the ask comes down to its price; a resting
/// sell once the bid comes up to it. This is the conservative queue-tail
/// policy: the bid merely reaching a buy's price does not fill it.
pub open spec fn spec_limit_matches(order: LimitOrder, bbo: Bbo) -> bool {
    (order.side && order.price >= bbo.ask_price) || (!order.side && order.price <= bbo.bid_price)
}

/// The fill a matched limit order produces: a maker clears at its own limit
/// price, a taker at the touch; always for the full size.
pub open spec fn spec_limit_fill(order: LimitOrder, bbo: Bbo, exec_type: ExecType) -> Fill {
    Fill {
        order_id: order.order_id,
        instrument_id: order.instrument_id,
        side: order.side,
        price: if exec_type is Maker {
            order.price
        } else {
            spec_taker_price(bbo, order.side)
        },
        filled_size: order.size,
        acc_filled_size: order.size,
        exec_type,
        state: FillState::Filled,
    }
}

/// The fill a market order produces: full size at the touch.
pub open spec fn spec_market_fill(order: MarketOrder, bbo: Bbo) -> Fill {
    Fill {
        order_id: order.order_id,
        instrument_id: order.instrument_id,
        side: order.side,
        price: spec_taker_price(bbo, order.side),
        filled_size: order.size,
        acc_filled_size: order.size,
        exec_type: ExecType::Taker,
        state: FillState::Filled,
    }
}

/// Execute a market order against the current top of book.
pub fn fill_market_order(bbo: &Bbo, order: &MarketOrder) -> (r: Fill)
    requires
        bbo.wf(),
        order.wf(),
        order.instrument_id == bbo.instrument_id,
    ensures
        r == spec_market_fill(*order, *bbo),
        r.wf(),
{
    let price: i64 = if order.side {
        bbo.ask_price
    } else {
        bbo.bid_price
    };
    Fill {
        order_id: order.order_id,
        instrument_id: order.instrument_id,
        side: order.side,
        price,
        filled_size: order.size,
        acc_filled_size: order.size,
        exec_type: ExecType::Taker,
        state: FillState::Filled,
    }
}

/// Try to execute a limit order against the current top of book, in the
/// given role; `None` when the order does not match and keeps resting.
pub fn try_fill_limit_order(bbo: &Bbo, order: &LimitOrder, exec_type: ExecType) -> (r: Option<
    Fill,
>)
    requires
        bbo.wf(),
        order.wf(),
        order.instrument_id == bbo.instrument_id,
    ensures
        r is Some <==> spec_limit_matches(*order, *bbo),
        r is Some ==> r->0 == spec_limit_fill(*order, *bbo, exec_type) && r->0.wf(),
{
    let price: i64 = if matches!(exec_type, ExecType::Maker) {
        order.price
    } else {
        if order.side {
            bbo.ask_price
        } else {
            bbo.bid_price
        }
    };
    if (order.side && order.price >= bbo.ask_price) || (!order.side && order.price
        <= bbo.bid_price) {
        Some(
            Fill {
                order_id: order.order_id,
                instrument_id: order.instrument_id,
                side: order.side,
                price,
                filled_size: order.size,
                acc_filled_size: order.size,
                exec_type,
                state: FillState::Filled,
            },
        )
    } else {
        None
    }
}

/// A buy resting exactly at the bid does not execute while the book is not
/// crossed: the ask still sits strictly above it.
pub proof fn lemma_buy_at_bid_rests(order: LimitOrder, bbo: Bbo)
    requires
        order.wf(),
        bbo.wf(),
        order.side,
        order.price == bbo.bid_price,
        bbo.bid_price < bbo.ask_price,
    ensures
        !spec_limit_matches(order, bbo),
{
}

/// A buy at exactly the ask executes immediately as a taker.
pub proof fn lemma_buy_at_ask_takes(order: LimitOrder, bbo: Bbo)
    requires
        order.wf(),
        bbo.wf(),
        order.side,
        order.price == bbo.ask_price,
    ensures
        spec_limit_matches(order, bbo),
{
}

/// The working set with every order of the given identifier removed.
pub open spec fn spec_remove_order(orders: Seq<LimitOrder>, id: OrderId) -> Seq<LimitOrder>
    decreases orders.len(),
{
    if orders.len() == 0 {
        orders
    } else if orders.last().order_id == id {
        spec_remove_order(orders.drop_last(), id)
    } else {
        spec_remove_order(orders.drop_last(), id).push(orders.last())
    }
}

/// Cancelling is idempotent on the working set: removing an identifier a
/// second time changes nothing.
pub proof fn lemma_cancel_idempotent(orders: Seq<LimitOrder>, id: OrderId)
    ensures
        spec_remove_order(spec_remove_order(orders, id), id) == spec_remove_order(orders, id),
    decreases orders.len(),
{
    if orders.len() > 0 {
        lemma_cancel_idempotent(orders.drop_last(), id);
        if orders.last().order_id != id {
            let pre = spec_remove_order(orders.drop_last(), id);
            assert(spec_remove_order(orders, id) == pre.push(orders.last()));
            assert(pre.push(orders.last()).drop_last() =~= pre);
        }
    }
}

/// The stored quote for an instrument, if any.
pub open spec fn spec_bbo_get(table: Seq<(InstId, Bbo)>, id: InstId) -> Option<Bbo> {
    assoc_get(table, id)
}

/// Does a working order match the quote of its own instrument?
pub open spec fn spec_matches_in_table(order: LimitOrder, table: Seq<(InstId, Bbo)>) -> bool {
    match spec_bbo_get(table, order.instrument_id) {
        Some(bbo) => spec_limit_matches(order, bbo),
        None => false,
    }
}

/// The orders a data step leaves resting, in their original sequence.
pub open spec fn spec_kept_orders(orders: Seq<LimitOrder>, table: Seq<(InstId, Bbo)>) -> Seq<
    LimitOrder,
>
    decreases orders.len(),
{
    if orders.len() == 0 {
        orders
    } else if spec_matches_in_table(orders.last(), table) {
        spec_kept_orders(orders.drop_last(), table)
    } else {
        spec_kept_orders(orders.drop_last(), table).push(orders.last())
    }
}

/// The maker fills a data step produces, in working-set order.
pub open spec fn spec_maker_fills(orders: Seq<LimitOrder>, table: Seq<(InstId, Bbo)>) -> Seq<Fill>
    decreases orders.len(),
{
    if orders.len() == 0 {
        Seq::empty()
    } else if spec_matches_in_table(orders.last(), table) {
        spec_maker_fills(orders.drop_last(), table).push(
            spec_limit_fill(
                orders.last(),
                spec_bbo_get(table, orders.last().instrument_id)->0,
                ExecType::Maker,
            ),
        )
    } else {
        spec_maker_fills(orders.drop_last(), table)
    }
}

/// What one fill does to the cash account: deduct the charge, then pay for a
/// buy or collect for a sell, exactly at the fill price.
pub open spec fn spec_cash_delta(m: TransactionCostModel, f: Fill) -> int {
    (if f.side {
        -(f.price * f.filled_size)
    } else {
        f.price * f.filled_size
    }) - m.spec_cost(f)
}

/// Folding a sequence of fills into the (capped) cash account.
pub open spec fn spec_fold_cash(cash: int, m: TransactionCostModel, fills: Seq<Fill>) -> int
    decreases fills.len(),
{
    if fills.len() == 0 {
        cash
    } else {
        clamp_spec(
            spec_fold_cash(cash, m, fills.drop_last()) + spec_cash_delta(m, fills.last()),
            MAX_CASH as int,
        )
    }
}

/// Folding a sequence of fills into one instrument's (capped) position.
pub open spec fn spec_fold_size(start: int, fills: Seq<Fill>, id: InstId) -> int
    decreases fills.len(),
{
    if fills.len() == 0 {
        start
    } else if fills.last().instrument_id == id {
        clamp_spec(
            spec_fold_size(start, fills.drop_last(), id) + fills.last().signed_size(),
            MAX_POSITION as int,
        )
    } else {
        spec_fold_size(start, fills.drop_last(), id)
    }
}

/// Within the position cap, folding fills into a position is exactly the
/// signed sum of the executed quantities: the portfolio tracks its fills.
pub proof fn lemma_fold_size_is_signed_sum(start: int, fills: Seq<Fill>, id: InstId)
    requires
        forall|k: int|
            0 <= k <= fills.len() ==> -MAX_POSITION <= start + crate::portfolio::signed_fill_sum(
                #[trigger] fills.take(k),
                id,
            ) <= MAX_POSITION,
    ensures
        spec_fold_size(start, fills, id) == start + crate::portfolio::signed_fill_sum(fills, id),
    decreases fills.len(),
{
    if fills.len() > 0 {
        assert forall|k: int|
            0 <= k <= fills.drop_last().len() implies -MAX_POSITION <= start
            + crate::portfolio::signed_fill_sum(
            #[trigger] fills.drop_last().take(k),
            id,
        ) <= MAX_POSITION by {
            assert(fills.drop_last().take(k) =~= fills.take(k));
        }
        lemma_fold_size_is_signed_sum(start, fills.drop_last(), id);
        assert(fills.take(fills.len() as int) =~= fills);
    }
}

/// Fill events wrapping a sequence of fills, in order.
pub open spec fn spec_fill_events(fills: Seq<Fill>) -> Seq<BrokerEvent>
    decreases fills.len(),
{
    if fills.len() == 0 {
        Seq::empty()
    } else {
        spec_fill_events(fills.drop_last()).push(BrokerEvent::Fill(fills.last()))
    }
}

/// Conservation of value at the fill price: with a zero-fee, zero-slippage
/// cost model, the cash paid or received by a fill is exactly the fill
/// price times the signed quantity, so cash plus the position marked at the
/// fill price is unchanged by the fill.
pub proof fn lemma_value_conserved(
    m: TransactionCostModel,
    f: Fill,
    cash: int,
    position: int,
)
    requires
        m.wf(),
        f.wf(),
        m.maker_fee_ppm == 0,
        m.taker_fee_ppm == 0,
        m.slippage_ppm == 0,
    ensures
        (cash + spec_cash_delta(m, f)) + (position + f.signed_size()) * f.price == cash + position
            * f.price,
{
    crate::cost::lemma_zero_cost_model(m, f);
    vstd::arithmetic::mul::lemma_mul_is_distributive_add_other_way(
        f.price as int,
        position,
        f.signed_size(),
    );
    vstd::arithmetic::mul::lemma_mul_is_commutative(position, f.price as int);
    vstd::arithmetic::mul::lemma_mul_is_commutative(position + f.signed_size(), f.price as int);
    vstd::arithmetic::mul::lemma_mul_is_commutative(f.signed_size(), f.price as int);
    if f.side {
    } else {
        vstd::arithmetic::mul::lemma_mul_unary_negation(f.price as int, f.filled_size as int);
    }
}

/// A well-formed quote table: unique instruments, each quote sane and filed
/// under its own instrument.
pub open spec fn bbo_table_wf(t: Seq<(InstId, Bbo)>) -> bool {
    &&& assoc_unique(t)
&&& forall|i: int|
        0 <= i < t.len() ==> (#[trigger] t[i]).1.wf() && t[i].1.instrument_id == t[i].0
}

/// Find the stored quote for an instrument.
fn lookup_bbo(table: &Vec<(InstId, Bbo)>, id: InstId) -> (r: Option<Bbo>)
    ensures
        r == spec_bbo_get(table@, id),
{
    let mut i: usize = 0;
    proof {
        assert(table@.skip(0) =~= table@);
    }
    while i < table.len()
        invariant
            i <= table@.len(),
            assoc_get(table@, id) == assoc_get(table@.skip(i as int), id),
            forall|j: int| 0 <= j < i ==> (#[trigger] table@[j]).0 != id,
        decreases table@.len() - i,
    {
        if table[i].0 == id {
            proof {
                assert(table@.skip(i as int)[0] == table@[i as int]);
            }
            return Some(table[i].1);
        }
        proof {
            assert(table@.skip(i as int)[0] == table@[i as int]);
            assert(table@.skip(i as int).drop_first() =~= table@.skip(i + 1));
        }
        i = i + 1;
    }
    proof {
        assert(table@.skip(table@.len() as int).len() == 0);
    }
    None
}

/// Replace or add the quote for `data`'s instrument.
fn upsert_bbo(table: &mut Vec<(InstId, Bbo)>, data: Bbo)
    requires
        bbo_table_wf(old(table)@),
        data.wf(),
    ensures
        bbo_table_wf(final (table)@),
        spec_bbo_get(final (table)@, data.instrument_id) == Some(data),
        forall|id: InstId|
            id != data.instrument_id ==> #[trigger] spec_bbo_get(final (table)@, id)
                == spec_bbo_get(old(table)@, id),
{
    let id = data.instrument_id;
    let mut i: usize = 0;
    while i < table.len()
        invariant
            i <= table@.len(),
            table@ == old(table)@,
            bbo_table_wf(table@),
            data.wf(),
            id == data.instrument_id,
            forall|j: int| 0 <= j < i ==> (#[trigger] table@[j]).0 != id,
        decreases table@.len() - i,
    {
        if table[i].0 == id {
            table.set(i, (id, data));
            proof {
                let before = old(table)@;
                assert forall|a: int, b: int|
                    0 <= a < b < table@.len() implies (#[trigger] table@[a]).0 != (
                #[trigger] table@[b]).0 by {
                    assert(before[a].0 == table@[a].0);
                    assert(before[b].0 == table@[b].0);
                }
                lemma_assoc_get_at(table@, i as int);
                assert forall|other: InstId| other != id implies #[trigger] spec_bbo_get(
                    table@,
                    other,
                ) == spec_bbo_get(before, other) by {
                    lemma_assoc_get_update(before, i as int, (id, data), other);
                }
            }
            return ;
        }
        i = i + 1;
    }
    table.push((id, data));
    proof {
        let before = old(table)@;
        assert forall|a: int, b: int|
            0 <= a < b < table@.len() implies (#[trigger] table@[a]).0 != (
        #[trigger] table@[b]).0 by {
            if b < table@.len() - 1 {
                assert(before[a].0 == table@[a].0);
                assert(before[b].0 == table@[b].0);
            } else {
                assert(before[a].0 == table@[a].0);
            }
        }
        lemma_assoc_get_push_same(before, (id, data));
        assert forall|other: InstId| other != id implies #[trigger] spec_bbo_get(table@, other)
            == spec_bbo_get(before, other) by {
            lemma_assoc_get_push(before, (id, data), other);
        }
    }
}

/// The mark price used to value a holding: the size-weighted quote, or zero
/// while the book is empty on both sides.
pub open spec fn spec_market_price(b: Bbo) -> int {
    if b.bid_size + b.ask_size > 0 {
        (b.bid_price * b.ask_size + b.ask_price * b.bid_size) / (b.bid_size + b.ask_size)
    } else {
        0
    }
}

/// Per-instrument mark prices drawn from a quote table.
pub open spec fn spec_price_table(t: Seq<(InstId, Bbo)>) -> Seq<(InstId, i64)> {
    t.map_values(|p: (InstId, Bbo)| (p.0, spec_market_price(p.1) as i64))
}

/// The mark price of one quote.
fn market_price(bbo: &Bbo) -> (r: i64)
    requires
        bbo.wf(),
    ensures
        r == spec_market_price(*bbo),
        0 <= r <= MAX_AMOUNT,
{
    if bbo.bid_size + bbo.ask_size > 0 {
        bbo.get_unbiased_price()
    } else {
        0
    }
}

/// A single cooperative matching engine over recorded or synthetic market
/// data: it absorbs client events, fills orders against the latest top of
/// book, and accounts every fill against cash, portfolio and reporter.
#[derive(Debug)]
pub struct SandboxBroker {
    /// The configured instrument universe; a quote must be seen for each
    /// before the broker serves events.
    pub instruments: Vec<InstId>,
    /// Working limit orders.
    pub limit_orders: Vec<LimitOrder>,
    /// Events awaiting delivery to the strategy, oldest first.
    pub broker_events_buf: VecDeque<BrokerEvent>,
    /// Latest quote per instrument.
    pub inst_bbo: Vec<(InstId, Bbo)>,
    /// The current clock: the timestamp of the latest datum.
    pub ts: Timestamp,
    /// Cash in product units.
    pub cash: i128,
    pub transaction_cost_model: TransactionCostModel,
    pub portfolio: Portfolio,
    pub reporter: Reporter,
    /// Becomes true once every configured instrument has a quote.
    pub is_initialized: bool,
}

impl SandboxBroker {
    pub open spec fn wf(self) -> bool {
        &&& self.transaction_cost_model.wf()
    &&& self.portfolio.wf()
    &&& self.reporter.wf()
    &&& self.ts <= MAX_TS
    &&& -MAX_CASH <= self.cash <= MAX_CASH
    &&& bbo_table_wf(self.inst_bbo@)
    &&& forall|i: int|
            0 <= i < self.limit_orders@.len() ==> (#[trigger] self.limit_orders@[i]).wf()
                && spec_bbo_get(self.inst_bbo@, self.limit_orders@[i].instrument_id) is Some
    &&& (self.is_initialized ==> self.reporter.is_initialized
            && self.reporter.last_ts_bin <= self.ts)
    }

    /// Cash plus every position marked at its instrument's current price,
    /// capped like the cash account.
    pub open spec fn spec_total_value(self) -> int {
        clamp_spec(
            spec_marked_value(self.portfolio.positions@, spec_price_table(self.inst_bbo@))
                + self.cash,
            MAX_CASH as int,
        )
    }

    /// Every configured instrument has a quote.
    pub open spec fn spec_all_seeded(self) -> bool {
        forall|k: int|
            0 <= k < self.instruments@.len() ==> spec_bbo_get(
                self.inst_bbo@,
                #[trigger] self.instruments@[k],
            ) is Some
    }

    pub fn new(
        instruments: Vec<InstId>,
        cash: i128,
        transaction_cost_model: TransactionCostModel,
        report_frequency: u64,
    ) -> (r: SandboxBroker)
        requires
            transaction_cost_model.wf(),
            -MAX_CASH <= cash <= MAX_CASH,
            1 <= report_frequency <= MAX_TS,
        ensures
            r.wf(),
            !r.is_initialized,
            r.instruments == instruments,
            r.cash == cash,
            r.transaction_cost_model == transaction_cost_model,
            r.reporter.frequency == report_frequency,
            !r.reporter.is_initialized,
            !r.reporter.is_end,
            r.reporter.value_history@.len() == 0,
            r.limit_orders@.len() == 0,
            r.broker_events_buf@.len() == 0,
            r.inst_bbo@.len() == 0,
            forall|id: InstId| r.portfolio.spec_size(id) == 0,
    {
        SandboxBroker {
            instruments,
            limit_orders: Vec::new(),
            broker_events_buf: VecDeque::new(),
            inst_bbo: Vec::new(),
            ts: 0,
            cash,
            transaction_cost_model,
            portfolio: Portfolio::new(),
            reporter: Reporter::new(report_frequency),
            is_initialized: false,
        }
    }

    fn all_seeded(&self) -> (r: bool)
        requires
            self.wf(),
        ensures
            r == self.spec_all_seeded(),
    {
        let mut k: usize = 0;
        while k < self.instruments.len()
            invariant
                k <= self.instruments@.len(),
                forall|j: int|
                    0 <= j < k ==> spec_bbo_get(
                        self.inst_bbo@,
                        #[trigger] self.instruments@[j],
                    ) is Some,
            decreases self.instruments@.len() - k,
        {
            if lookup_bbo(&self.inst_bbo, self.instruments[k]).is_none() {
                return false;
            }
            k = k + 1;
        }
        true
    }

    /// Feed one quote during warm-up. Returns true once every configured
    /// instrument has been quoted; at that moment the reporter is seeded
    /// with the starting cash at this quote's timestamp.
    pub fn seed_data(&mut self, data: Bbo) -> (ready: bool)
        requires
            old(self).wf(),
            !old(self).is_initialized,
            !old(self).reporter.is_initialized,
            !old(self).reporter.is_end,
            data.wf(),
        ensures
            final (self).wf(),
            !final (self).reporter.is_end,
            ready == final (self).is_initialized,
            final (self).ts == data.ts,
            spec_bbo_get(final (self).inst_bbo@, data.instrument_id) == Some(data),
            forall|id: InstId|
                id != data.instrument_id ==> #[trigger] spec_bbo_get(final (self).inst_bbo@, id)
                    == spec_bbo_get(old(self).inst_bbo@, id),
            final (self).is_initialized == final (self).spec_all_seeded(),
            ready ==> final (self).reporter.is_initialized && final (self).reporter.value_buf
                == old(self).cash,
            !ready ==> final (self).reporter == old(self).reporter,
            final (self).reporter.frequency == old(self).reporter.frequency,
            final (self).cash == old(self).cash,
            final (self).limit_orders == old(self).limit_orders,
            final (self).broker_events_buf == old(self).broker_events_buf,
            final (self).instruments == old(self).instruments,
            final (self).transaction_cost_model == old(self).transaction_cost_model,
            final (self).portfolio == old(self).portfolio,
    {
        upsert_bbo(&mut self.inst_bbo, data);
        self.ts = data.ts;
        if self.all_seeded() {
            let cash = self.cash;
            self.reporter.insert(self.ts, cash);
            self.is_initialized = true;
            true
        } else {
            false
        }
    }

    /// Mark every holding at the current per-instrument price and add cash.
    pub fn get_total_value(&self) -> (r: i128)
        requires
            self.wf(),
        ensures
            r == self.spec_total_value(),
    {
        let mut prices: Vec<(InstId, i64)> = Vec::new();
        let mut i: usize = 0;
        while i < self.inst_bbo.len()
            invariant
                self.wf(),
                i <= self.inst_bbo@.len(),
                prices@.len() == i,
                forall|j: int|
                    0 <= j < i ==> (#[trigger] prices@[j]) == (
                    self.inst_bbo@[j].0,
                    spec_market_price(self.inst_bbo@[j].1) as i64,
                ),
                forall|j: int| 0 <= j < i ==> 0 <= (#[trigger] prices@[j]).1 <= MAX_AMOUNT,
            decreases self.inst_bbo@.len() - i,
        {
            let (id, bbo) = self.inst_bbo[i];
            let p = market_price(&bbo);
            prices.push((id, p));
            i = i + 1;
        }
        proof {
            assert(prices@ =~= spec_price_table(self.inst_bbo@));
        }
        let value = self.portfolio.get_value(&prices);
        add_cash(value, self.cash)
    }

    /// The broker's clock: the timestamp of the latest datum seen.
    pub fn now(&self) -> (r: Timestamp)
        ensures
            r == self.ts,
    {
        self.ts
    }

    pub fn reporter(&self) -> (r: &Reporter)
        ensures
            r == &self.reporter,
    {
        &self.reporter
    }

    /// Hand over the oldest undelivered event.
    pub fn next_event(&mut self) -> (r: Option<BrokerEvent>)
        ensures
            final (self).broker_events_buf@ == if old(self).broker_events_buf@.len() == 0 {
                old(self).broker_events_buf@
            } else {
                old(self).broker_events_buf@.drop_first()
            },
            r == if old(self).broker_events_buf@.len() == 0 {
                Option::<BrokerEvent>::None
            } else {
                Some(old(self).broker_events_buf@[0])
            },
            final (self).limit_orders == old(self).limit_orders,
            final (self).inst_bbo == old(self).inst_bbo,
            final (self).ts == old(self).ts,
            final (self).cash == old(self).cash,
            final (self).portfolio == old(self).portfolio,
            final (self).reporter == old(self).reporter,
            final (self).instruments == old(self).instruments,
            final (self).transaction_cost_model == old(self).transaction_cost_model,
            final (self).is_initialized == old(self).is_initialized,
    {
        let r = self.broker_events_buf.pop_front();
        proof {
            if old(self).broker_events_buf@.len() > 0 {
                assert(self.broker_events_buf@ =~= old(self).broker_events_buf@.drop_first());
            }
        }
        r
    }
}

/// The index of the first working order with the given identifier, or -1.
pub open spec fn spec_order_idx(orders: Seq<LimitOrder>, id: OrderId) -> int
    decreases orders.len(),
{
    if orders.len() == 0 {
        -1
    } else if orders[0].order_id == id {
        0
    } else {
        let r = spec_order_idx(orders.drop_first(), id);
        if r == -1 {
            -1
        } else {
            r + 1
        }
    }
}

proof fn lemma_order_idx_at(orders: Seq<LimitOrder>, i: int, id: OrderId)
    requires
        0 <= i < orders.len(),
        orders[i].order_id == id,
        forall|j: int| 0 <= j < i ==> (#[trigger] orders[j]).order_id != id,
    ensures
        spec_order_idx(orders, id) == i,
    decreases orders.len(),
{
    if i > 0 {
        assert(orders.drop_first()[i - 1] == orders[i]);
        assert forall|j: int|
            0 <= j < i - 1 implies (#[trigger] orders.drop_first()[j]).order_id != id by {
            assert(orders.drop_first()[j] == orders[j + 1]);
        }
        lemma_order_idx_at(orders.drop_first(), i - 1, id);
    }
}

proof fn lemma_order_idx_absent(orders: Seq<LimitOrder>, id: OrderId)
    requires
        forall|j: int| 0 <= j < orders.len() ==> (#[trigger] orders[j]).order_id != id,
    ensures
        spec_order_idx(orders, id) == -1,
    decreases orders.len(),
{
    if orders.len() > 0 {
        assert forall|j: int|
            0 <= j < orders.drop_first().len() implies (
            #[trigger] orders.drop_first()[j]).order_id != id by {
            assert(orders.drop_first()[j] == orders[j + 1]);
        }
        lemma_order_idx_absent(orders.drop_first(), id);
    }
}

/// A quote found in a well-formed table is sane and filed under the queried
/// instrument.
proof fn lemma_table_entry_wf(t: Seq<(InstId, Bbo)>, id: InstId)
    requires
        bbo_table_wf(t),
        spec_bbo_get(t, id) is Some,
    ensures
        spec_bbo_get(t, id)->0.wf(),
        spec_bbo_get(t, id)->0.instrument_id == id,
{
    crate::table::lemma_assoc_get_some_index(t, id);
}

impl SandboxBroker {
    /// Account one fill: charge the transaction cost, move cash by the fill
    /// price times quantity, update the portfolio, and record the resulting
    /// total value with the reporter under the current timestamp.
    fn on_fill(&mut self, fill: &Fill)
        requires
            old(self).wf(),
            old(self).is_initialized,
            !old(self).reporter.is_end,
            fill.wf(),
        ensures
            final (self).wf(),
            final (self).is_initialized,
            !final (self).reporter.is_end,
            final (self).cash == clamp_spec(
                old(self).cash + spec_cash_delta(old(self).transaction_cost_model, *fill),
                MAX_CASH as int,
            ),
            final (self).portfolio.spec_size(fill.instrument_id) == clamp_spec(
                old(self).portfolio.spec_size(fill.instrument_id) + fill.signed_size(),
                MAX_POSITION as int,
            ),
            forall|id: InstId|
                id != fill.instrument_id ==> final (self).portfolio.spec_size(id) == old(
                    self,
                ).portfolio.spec_size(id),
            final (self).limit_orders == old(self).limit_orders,
            final (self).inst_bbo == old(self).inst_bbo,
            final (self).broker_events_buf == old(self).broker_events_buf,
            final (self).ts == old(self).ts,
            final (self).instruments == old(self).instruments,
            final (self).transaction_cost_model == old(self).transaction_cost_model,
            final (self).reporter.frequency == old(self).reporter.frequency,
            final (self).reporter.value_buf == final (self).spec_total_value(),
    {
        let cost = self.transaction_cost_model.calculate_cost(fill);
        let notional = crate::types::mul_i64(fill.price, fill.filled_size);
        proof {
            vstd::arithmetic::mul::lemma_mul_nonnegative(
                fill.price as int,
                fill.filled_size as int,
            );
            vstd::arithmetic::mul::lemma_mul_upper_bound(
                fill.price as int,
                MAX_AMOUNT as int,
                fill.filled_size as int,
                MAX_AMOUNT as int,
            );
        }
        let delta: i128 = if fill.side {
            -notional - cost
        } else {
            notional - cost
        };
        self.cash = add_cash(self.cash, delta);
        self.portfolio.update(fill);
        let tv = self.get_total_value();
        let ts = self.ts;
        self.reporter.insert(ts, tv);
    }

    /// One matching pass: every working order that matches the latest quote
    /// of its instrument fills as a maker, is accounted, removed from the
    /// working set, and announced with a fill event, in working-set order.
    pub fn try_fill_placed_orders(&mut self)
        requires
            old(self).wf(),
            old(self).is_initialized,
            !old(self).reporter.is_end,
        ensures
            final (self).wf(),
            final (self).is_initialized,
            !final (self).reporter.is_end,
            final (self).inst_bbo == old(self).inst_bbo,
            final (self).ts == old(self).ts,
            final (self).instruments == old(self).instruments,
            final (self).transaction_cost_model == old(self).transaction_cost_model,
            final (self).reporter.frequency == old(self).reporter.frequency,
            final (self).limit_orders@ == spec_kept_orders(
                old(self).limit_orders@,
                old(self).inst_bbo@,
            ),
            final (self).broker_events_buf@ == old(self).broker_events_buf@ + spec_fill_events(
                spec_maker_fills(old(self).limit_orders@, old(self).inst_bbo@),
            ),
            final (self).cash == spec_fold_cash(
                old(self).cash as int,
                old(self).transaction_cost_model,
                spec_maker_fills(old(self).limit_orders@, old(self).inst_bbo@),
            ),
            forall|id: InstId|
                final (self).portfolio.spec_size(id) == spec_fold_size(
                    old(self).portfolio.spec_size(id),
                    spec_maker_fills(old(self).limit_orders@, old(self).inst_bbo@),
                    id,
                ),
    {
        let ghost table = self.inst_bbo@;
        let ghost orders0 = self.limit_orders@;
        let mut kept: Vec<LimitOrder> = Vec::new();
        let mut fills: Vec<Fill> = Vec::new();
        let mut i: usize = 0;
        proof {
            assert(orders0.take(0) =~= Seq::<LimitOrder>::empty());
        }
        while i < self.limit_orders.len()
            invariant
                *self == *old(self),
                self.wf(),
                orders0 == self.limit_orders@,
                table == self.inst_bbo@,
                i <= orders0.len(),
                kept@ == spec_kept_orders(orders0.take(i as int), table),
                fills@ == spec_maker_fills(orders0.take(i as int), table),
                forall|k: int| 0 <= k < fills@.len() ==> (#[trigger] fills@[k]).wf(),
                forall|k: int|
                    0 <= k < kept@.len() ==> (#[trigger] kept@[k]).wf() && spec_bbo_get(
                        table,
                        kept@[k].instrument_id,
                    ) is Some,
            decreases orders0.len() - i,
        {
            let o = self.limit_orders[i];
            let bbo = match lookup_bbo(&self.inst_bbo, o.instrument_id) {
                Some(b) => b,
                None => {
                    proof {
                        assert(false);
                    }
                    vstd::pervasive::unreached()
                },
            };
            proof {
                lemma_table_entry_wf(table, o.instrument_id);
            }
            match try_fill_limit_order(&bbo, &o, ExecType::Maker) {
                Some(f) => {
                    fills.push(f);
                },
                None => {
                    kept.push(o);
                },
            }
            proof {
                assert(orders0.take(i + 1).drop_last() =~= orders0.take(i as int));
                assert(orders0.take(i + 1).last() == orders0[i as int]);
            }
            i = i + 1;
        }
        proof {
            assert(orders0.take(orders0.len() as int) =~= orders0);
        }
        self.limit_orders = kept;
        let ghost fills_all = fills@;
        let mut j: usize = 0;
        proof {
            assert(fills_all.take(0) =~= Seq::<Fill>::empty());
            assert(self.broker_events_buf@ =~= old(self).broker_events_buf@ + spec_fill_events(
                fills_all.take(0),
            ));
        }
        while j < fills.len()
            invariant
                self.wf(),
                self.is_initialized,
                !self.reporter.is_end,
                j <= fills@.len(),
                fills@ == fills_all,
                fills_all == spec_maker_fills(orders0, table),
                forall|k: int| 0 <= k < fills@.len() ==> (#[trigger] fills@[k]).wf(),
                self.inst_bbo == old(self).inst_bbo,
                table == self.inst_bbo@,
                self.ts == old(self).ts,
                self.instruments == old(self).instruments,
                self.transaction_cost_model == old(self).transaction_cost_model,
                self.reporter.frequency == old(self).reporter.frequency,
                self.limit_orders@ == spec_kept_orders(orders0, table),
                self.broker_events_buf@ == old(self).broker_events_buf@ + spec_fill_events(
                    fills_all.take(j as int),
                ),
                self.cash == spec_fold_cash(
                    old(self).cash as int,
                    old(self).transaction_cost_model,
                    fills_all.take(j as int),
                ),
                forall|id: InstId|
                    #[trigger] self.portfolio.spec_size(id) == spec_fold_size(
                        old(self).portfolio.spec_size(id),
                        fills_all.take(j as int),
                        id,
                    ),
            decreases fills@.len() - j,
        {
            let f = fills[j];
            let ghost pre = *self;
            self.on_fill(&f);
            self.broker_events_buf.push_back(BrokerEvent::Fill(f));
            proof {
                assert(fills_all.take(j + 1).drop_last() =~= fills_all.take(j as int));
                assert(fills_all.take(j + 1).last() == fills_all[j as int]);
                assert(self.broker_events_buf@ =~= old(self).broker_events_buf@
                    + spec_fill_events(fills_all.take(j + 1)));
                assert forall|id: InstId| #[trigger]
                    self.portfolio.spec_size(id) == spec_fold_size(
                        old(self).portfolio.spec_size(id),
                        fills_all.take(j + 1),
                        id,
                    ) by {
                    if id == f.instrument_id {
                    } else {
                    }
                }
            }
            j = j + 1;
        }
        proof {
            assert(fills_all.take(fills_all.len() as int) =~= fills_all);
        }
    }

    /// One data step: advance the clock, replace the instrument's quote,
    /// fill what now matches (maker fills first), then deliver the datum.
    /// The clock never runs backwards: a datum older than the last one is an
    /// invariant violation, fatal by design.
    pub fn on_data(&mut self, data: Bbo)
        requires
            old(self).wf(),
            old(self).is_initialized,
            !old(self).reporter.is_end,
            data.wf(),
            data.ts >= old(self).ts,
        ensures
            final (self).wf(),
            final (self).is_initialized,
            !final (self).reporter.is_end,
            final (self).ts == data.ts,
            final (self).instruments == old(self).instruments,
            final (self).transaction_cost_model == old(self).transaction_cost_model,
            final (self).reporter.frequency == old(self).reporter.frequency,
            spec_bbo_get(final (self).inst_bbo@, data.instrument_id) == Some(data),
            forall|id: InstId|
                id != data.instrument_id ==> #[trigger] spec_bbo_get(final (self).inst_bbo@, id)
                    == spec_bbo_get(old(self).inst_bbo@, id),
            final (self).limit_orders@ == spec_kept_orders(
                old(self).limit_orders@,
                final (self).inst_bbo@,
            ),
            final (self).broker_events_buf@ == (old(self).broker_events_buf@ + spec_fill_events(
                spec_maker_fills(old(self).limit_orders@, final (self).inst_bbo@),
            )).push(BrokerEvent::Data(data)),
            final (self).cash == spec_fold_cash(
                old(self).cash as int,
                old(self).transaction_cost_model,
                spec_maker_fills(old(self).limit_orders@, final (self).inst_bbo@),
            ),
            forall|id: InstId|
                final (self).portfolio.spec_size(id) == spec_fold_size(
                    old(self).portfolio.spec_size(id),
                    spec_maker_fills(old(self).limit_orders@, final (self).inst_bbo@),
                    id,
                ),
    {
        self.ts = data.ts;
        upsert_bbo(&mut self.inst_bbo, data);
        proof {
            assert forall|k: int|
                0 <= k < self.limit_orders@.len() implies (#[trigger] self.limit_orders@[k]).wf()
                && spec_bbo_get(self.inst_bbo@, self.limit_orders@[k].instrument_id) is Some by {
                if self.limit_orders@[k].instrument_id != data.instrument_id {
                    assert(spec_bbo_get(self.inst_bbo@, self.limit_orders@[k].instrument_id)
                        == spec_bbo_get(
                        old(self).inst_bbo@,
                        self.limit_orders@[k].instrument_id,
                    ));
                }
            }
        }
        self.try_fill_placed_orders();
        self.broker_events_buf.push_back(BrokerEvent::Data(data));
    }
}

/// A working order with new size and price, same identifier, side and
/// filled quantity.
pub open spec fn spec_amended(o: LimitOrder, new_size: i64, new_price: i64) -> LimitOrder {
    LimitOrder {
        order_id: o.order_id,
        instrument_id: o.instrument_id,
        price: new_price,
        size: new_size,
        filled_size: o.filled_size,
        side: o.side,
    }
}

impl SandboxBroker {
    /// What the broker asks of an incoming client event: orders are sane and
    /// placed on a quoted instrument, and amendments carry usable values.
    pub open spec fn spec_event_ok(self, ev: ClientEvent) -> bool {
        match ev {
            ClientEvent::PlaceOrder(Order::Market(o)) => o.wf() && spec_bbo_get(
                self.inst_bbo@,
                o.instrument_id,
            ) is Some,
            ClientEvent::PlaceOrder(Order::Limit(o)) => o.wf() && spec_bbo_get(
                self.inst_bbo@,
                o.instrument_id,
            ) is Some,
            ClientEvent::AmendOrder(a) => 0 < a.new_size <= MAX_AMOUNT && 0 < a.new_price
                <= MAX_AMOUNT,
            ClientEvent::CancelOrder(_, _) => true,
        }
    }

    /// Serve one client event.
    ///
    /// A market order fills immediately at the touch. A limit order fills as
    /// a taker when marketable, otherwise it joins the working set and is
    /// acknowledged as placed. An amendment re-prices and re-sizes the first
    /// working order with that identifier in place (ignored when no such
    /// order exists or the new size is below the filled quantity). A cancel
    /// removes the order if present and is always acknowledged, so
    /// cancelling twice is as good as once.
    pub fn on_client_event(&mut self, client_event: ClientEvent)
        requires
            old(self).wf(),
            old(self).is_initialized,
            !old(self).reporter.is_end,
            old(self).spec_event_ok(client_event),
        ensures
            final (self).wf(),
            final (self).is_initialized,
            !final (self).reporter.is_end,
            final (self).ts == old(self).ts,
            final (self).inst_bbo == old(self).inst_bbo,
            final (self).instruments == old(self).instruments,
            final (self).transaction_cost_model == old(self).transaction_cost_model,
            final (self).reporter.frequency == old(self).reporter.frequency,
            client_event matches ClientEvent::PlaceOrder(Order::Market(o)) ==> {
                let f = spec_market_fill(o, spec_bbo_get(old(self).inst_bbo@, o.instrument_id)->0);
                &&& final (self).limit_orders == old(self).limit_orders
            &&& final (self).broker_events_buf@ == old(self).broker_events_buf@.push(
                    BrokerEvent::Fill(f),
                )
            &&& final (self).cash == clamp_spec(
                    old(self).cash + spec_cash_delta(old(self).transaction_cost_model, f),
                    MAX_CASH as int,
                )
            &&& final (self).portfolio.spec_size(o.instrument_id) == clamp_spec(
                    old(self).portfolio.spec_size(o.instrument_id) + f.signed_size(),
                    MAX_POSITION as int,
                )
            &&& (forall|id: InstId|
                    id != o.instrument_id ==> final (self).portfolio.spec_size(id) == old(
                        self,
                    ).portfolio.spec_size(id))
            },
            client_event matches ClientEvent::PlaceOrder(Order::Limit(o)) ==> {
                let bbo = spec_bbo_get(old(self).inst_bbo@, o.instrument_id)->0;
                let f = spec_limit_fill(o, bbo, ExecType::Taker);
                if spec_limit_matches(o, bbo) {
                    &&& final (self).limit_orders == old(self).limit_orders
                &&& final (self).broker_events_buf@ == old(self).broker_events_buf@.push(
                        BrokerEvent::Fill(f),
                    )
                &&& final (self).cash == clamp_spec(
                        old(self).cash + spec_cash_delta(old(self).transaction_cost_model, f),
                        MAX_CASH as int,
                    )
                &&& final (self).portfolio.spec_size(o.instrument_id) == clamp_spec(
                        old(self).portfolio.spec_size(o.instrument_id) + f.signed_size(),
                        MAX_POSITION as int,
                    )
                &&& (forall|id: InstId|
                        id != o.instrument_id ==> final (self).portfolio.spec_size(id) == old(
                            self,
                        ).portfolio.spec_size(id))
                } else {
                    &&& final (self).limit_orders@ == old(self).limit_orders@.push(o)
                &&& final (self).broker_events_buf@ == old(self).broker_events_buf@.push(
                        BrokerEvent::Placed(Order::Limit(o)),
                    )
                &&& final (self).cash == old(self).cash
                &&& final (self).portfolio == old(self).portfolio
                &&& final (self).reporter == old(self).reporter
                }
            },
            client_event matches ClientEvent::AmendOrder(a) ==> {
                let i = spec_order_idx(old(self).limit_orders@, a.order_id);
                &&& final (self).cash == old(self).cash
            &&& final (self).portfolio == old(self).portfolio
            &&& final (self).reporter == old(self).reporter
            &&& if i >= 0 && old(self).limit_orders@[i].filled_size <= a.new_size {
                    let m = spec_amended(old(self).limit_orders@[i], a.new_size, a.new_price);
                    &&& final (self).limit_orders@ == old(self).limit_orders@.update(i, m)
                &&& final (self).broker_events_buf@ == old(self).broker_events_buf@.push(
                        BrokerEvent::Amended(Order::Limit(m)),
                    )
                } else {
                    &&& final (self).limit_orders == old(self).limit_orders
                &&& final (self).broker_events_buf == old(self).broker_events_buf
                }
            },
            client_event matches ClientEvent::CancelOrder(inst, oid) ==> {
                &&& final (self).limit_orders@ == spec_remove_order(old(self).limit_orders@, oid)
            &&& final (self).broker_events_buf@ == old(self).broker_events_buf@.push(
                    BrokerEvent::Canceled(oid),
                )
            &&& final (self).cash == old(self).cash
            &&& final (self).portfolio == old(self).portfolio
            &&& final (self).reporter == old(self).reporter
            },
    {
        match client_event {
            ClientEvent::PlaceOrder(order) => {
                match order {
                    Order::Market(o) => {
                        let bbo = match lookup_bbo(&self.inst_bbo, o.instrument_id) {
                            Some(b) => b,
                            None => {
                                proof {
                                    assert(false);
                                }
                                vstd::pervasive::unreached()
                            },
                        };
                        proof {
                            lemma_table_entry_wf(self.inst_bbo@, o.instrument_id);
                        }
                        let fill = fill_market_order(&bbo, &o);
                        self.on_fill(&fill);
                        self.broker_events_buf.push_back(BrokerEvent::Fill(fill));
                    },
                    Order::Limit(o) => {
                        let bbo = match lookup_bbo(&self.inst_bbo, o.instrument_id) {
                            Some(b) => b,
                            None => {
                                proof {
                                    assert(false);
                                }
                                vstd::pervasive::unreached()
                            },
                        };
                        proof {
                            lemma_table_entry_wf(self.inst_bbo@, o.instrument_id);
                        }
                        match try_fill_limit_order(&bbo, &o, ExecType::Taker) {
                            Some(fill) => {
                                self.on_fill(&fill);
                                self.broker_events_buf.push_back(BrokerEvent::Fill(fill));
                            },
                            None => {
                                self.limit_orders.push(o);
                                self.broker_events_buf.push_back(
                                    BrokerEvent::Placed(Order::Limit(o)),
                                );
                            },
                        }
                    },
                }
            },
            ClientEvent::AmendOrder(a) => {
                let mut i: usize = 0;
                while i < self.limit_orders.len()
                    invariant
                        *self == *old(self),
                        self.wf(),
                        self.is_initialized,
                        !self.reporter.is_end,
                        old(self).spec_event_ok(client_event),
                        client_event == ClientEvent::AmendOrder(a),
                        i <= self.limit_orders@.len(),
                        forall|j: int|
                            0 <= j < i ==> (#[trigger] self.limit_orders@[j]).order_id
                                != a.order_id,
                    decreases self.limit_orders@.len() - i,
                {
                    if self.limit_orders[i].order_id == a.order_id {
                        proof {
                            lemma_order_idx_at(self.limit_orders@, i as int, a.order_id);
                        }
                        let existing = self.limit_orders[i];
                        if existing.filled_size <= a.new_size {
                            let m = existing.modified(a.new_size, a.new_price);
                            self.limit_orders.set(i, m);
                            self.broker_events_buf.push_back(
                                BrokerEvent::Amended(Order::Limit(m)),
                            );
                        }
                        return ;
                    }
                    i = i + 1;
                }
                proof {
                    lemma_order_idx_absent(self.limit_orders@, a.order_id);
                }
            },
            ClientEvent::CancelOrder(_inst, oid) => {
                let ghost orders0 = self.limit_orders@;
                let mut kept: Vec<LimitOrder> = Vec::new();
                let mut i: usize = 0;
                proof {
                    assert(orders0.take(0) =~= Seq::<LimitOrder>::empty());
                }
                while i < self.limit_orders.len()
                    invariant
                        *self == *old(self),
                        self.wf(),
                        self.is_initialized,
                        !self.reporter.is_end,
                        orders0 == self.limit_orders@,
                        i <= orders0.len(),
                        kept@ == spec_remove_order(orders0.take(i as int), oid),
                        forall|k: int|
                            0 <= k < kept@.len() ==> (#[trigger] kept@[k]).wf() && spec_bbo_get(
                                self.inst_bbo@,
                                kept@[k].instrument_id,
                            ) is Some,
                    decreases orders0.len() - i,
                {
                    let o = self.limit_orders[i];
                    if o.order_id != oid {
                        kept.push(o);
                    }
                    proof {
                        assert(orders0.take(i + 1).drop_last() =~= orders0.take(i as int));
                        assert(orders0.take(i + 1).last() == orders0[i as int]);
                    }
                    i = i + 1;
                }
                proof {
                    assert(orders0.take(orders0.len() as int) =~= orders0);
                }
                self.limit_orders = kept;
                self.broker_events_buf.push_back(BrokerEvent::Canceled(oid));
            },
        }
    }

    /// Close a run: record the final total value at the current time and
    /// seal the reporter. The last emitted record carries that value.
    pub fn finish(&mut self)
        requires
            old(self).wf(),
            old(self).is_initialized,
            !old(self).reporter.is_end,
        ensures
            final (self).wf(),
            final (self).reporter.is_end,
            final (self).reporter.value_history@.len() > old(
                self,
            ).reporter.value_history@.len(),
            final (self).reporter.value_history@.last().value == old(self).spec_total_value(),
            final (self).limit_orders == old(self).limit_orders,
            final (self).inst_bbo == old(self).inst_bbo,
            final (self).broker_events_buf == old(self).broker_events_buf,
            final (self).ts == old(self).ts,
            final (self).cash == old(self).cash,
            final (self).portfolio == old(self).portfolio,
            final (self).instruments == old(self).instruments,
            final (self).transaction_cost_model == old(self).transaction_cost_model,
    {
        let tv = self.get_total_value();
        let ts = self.ts;
        self.reporter.insert(ts, tv);
        self.reporter.end();
    }
}

} // verus!
