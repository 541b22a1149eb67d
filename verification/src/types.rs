//! The canonical event and order model: instruments, quotes, orders, fills,
//! and the events crossing the broker boundary.
//!
//! All prices and sizes are integers counting `UNIT`ths (fixed point with six
//! decimal places); a cash amount or a notional is a price times a size and is
//! kept as an `i128` in product units (`UNIT * UNIT` per whole unit).

use vstd::prelude::*;

verus! {

/// Milliseconds since the Unix epoch.
pub type Timestamp = u64;

/// 64-bit order identifier; low 16 bits tag the strategy instance.
pub type OrderId = u64;

/// Fixed-point scale: one whole price or size unit equals `UNIT` counts.
pub const UNIT: i64 = 1_000_000;

/// Number of decimal digits covered by `UNIT`.
pub const UNIT_DIGITS: u32 = 6;

/// Tenth powers up to what a 64-bit count can hold.
pub open spec fn pow10_spec(d: nat) -> nat
    decreases d,
{
    if d == 0 {
        1
    } else {
        10 * pow10_spec((d - 1) as nat)
    }
}

pub fn pow10(d: u32) -> (r: i64)
    requires
        d <= 18,
    ensures
        r == pow10_spec(d as nat),
        1 <= r <= 1_000_000_000_000_000_000,
{
    let mut r: i64 = 1;
    let mut i: u32 = 0;
    proof {
        lemma_pow10_18();
        lemma_pow10_monotone(0, 18);
    }
    while i < d
        invariant
            i <= d <= 18,
            r == pow10_spec(i as nat),
            1 <= r <= pow10_spec(18),
        decreases d - i,
    {
        proof {
            lemma_pow10_monotone(i as nat, 18);
            lemma_pow10_monotone((i + 1) as nat, 18);
            lemma_pow10_18();
        }
        r = r * 10;
        i = i + 1;
    }
    proof {
        lemma_pow10_monotone(d as nat, 18);
        lemma_pow10_18();
    }
    r
}

pub proof fn lemma_pow10_18()
    ensures
        pow10_spec(18) == 1_000_000_000_000_000_000nat,
{
    reveal_with_fuel(pow10_spec, 20);
}

pub proof fn lemma_pow10_monotone(a: nat, b: nat)
    requires
        a <= b,
    ensures
        pow10_spec(a) <= pow10_spec(b),
        1 <= pow10_spec(a),
    decreases b,
{
    if a == b {
        if a > 0 {
            lemma_pow10_monotone((a - 1) as nat, (b - 1) as nat);
        }
    } else {
        lemma_pow10_monotone(a, (b - 1) as nat);
    }
}

/// A product of two 64-bit quantities, carried exactly in 128 bits.
pub fn mul_i64(a: i64, b: i64) -> (r: i128)
    ensures
        r == a as int * b as int,
{
    proof {
        lemma_mul_i64_bound(a as int, b as int);
    }
    (a as i128) * (b as i128)
}

pub proof fn lemma_mul_i64_bound(a: int, b: int)
    requires
        -0x8000_0000_0000_0000 <= a < 0x8000_0000_0000_0000,
        -0x8000_0000_0000_0000 <= b < 0x8000_0000_0000_0000,
    ensures
        -0x4000_0000_0000_0000_0000_0000_0000_0000 <= a * b
            <= 0x4000_0000_0000_0000_0000_0000_0000_0000,
{
    let bound = 0x8000_0000_0000_0000;
    if a >= 0 && b >= 0 {
        vstd::arithmetic::mul::lemma_mul_nonnegative(a, b);
        vstd::arithmetic::mul::lemma_mul_upper_bound(a, bound, b, bound);
    } else if a < 0 && b < 0 {
        vstd::arithmetic::mul::lemma_mul_cancels_negatives(a, b);
        vstd::arithmetic::mul::lemma_mul_nonnegative(-a, -b);
        vstd::arithmetic::mul::lemma_mul_upper_bound(-a, bound, -b, bound);
    } else if a < 0 {
        vstd::arithmetic::mul::lemma_mul_unary_negation(a, b);
        vstd::arithmetic::mul::lemma_mul_nonnegative(-a, b);
        vstd::arithmetic::mul::lemma_mul_upper_bound(-a, bound, b, bound);
    } else {
        vstd::arithmetic::mul::lemma_mul_unary_negation(a, b);
        vstd::arithmetic::mul::lemma_mul_nonnegative(a, -b);
        vstd::arithmetic::mul::lemma_mul_upper_bound(a, bound, -b, bound);
    }
}

/// `(m / step) * step` stays within `[0, m]` for non-negative `m`.
pub proof fn lemma_div_mul_le(m: int, step: int)
    requires
        m >= 0,
        step >= 1,
    ensures
        0 <= (m / step) * step <= m,
{
    vstd::arithmetic::div_mod::lemma_fundamental_div_mod(m, step);
    vstd::arithmetic::div_mod::lemma_mod_division_less_than_divisor(m, step);
    vstd::arithmetic::div_mod::lemma_remainder_lower(m, step);
    vstd::arithmetic::div_mod::lemma_div_pos_is_pos(m, step);
    vstd::arithmetic::mul::lemma_mul_is_commutative(m / step, step);
    vstd::arithmetic::mul::lemma_mul_nonnegative(m / step, step);
}

/// Largest single price or size the model admits (counts of `UNIT`ths);
/// leaves ample headroom for exact 128-bit products and sums.
pub const MAX_AMOUNT: i64 = 0x100_0000_0000;

/// Cap on an accumulated position.
pub const MAX_POSITION: i64 = 0x4_0000_0000_0000;

/// Largest timestamp the model admits; real clocks stay far below it.
pub const MAX_TS: u64 = 0x4000_0000_0000_0000;

/// Cap on an accumulated cash amount, in product units.
pub const MAX_CASH: i128 = 0x4000_0000_0000_0000_0000_0000_0000_0000;

pub open spec fn clamp_spec(x: int, bound: int) -> int {
    if x > bound {
        bound
    } else if x < -bound {
        -bound
    } else {
        x
    }
}

/// Saturating position arithmetic: exact while the result stays within
/// `MAX_POSITION`, clamped at the cap beyond it.
pub fn add_position_size(cur: i64, delta: i64) -> (r: i64)
    requires
        -MAX_POSITION <= cur <= MAX_POSITION,
        -0x4000_0000_0000_0000 < delta < 0x4000_0000_0000_0000,
    ensures
        r == clamp_spec(cur + delta, MAX_POSITION as int),
        -MAX_POSITION <= r <= MAX_POSITION,
{
    let s: i128 = cur as i128 + delta as i128;
    if s > MAX_POSITION as i128 {
        MAX_POSITION
    } else if s < -(MAX_POSITION as i128) {
        -MAX_POSITION
    } else {
        s as i64
    }
}

/// Saturating cash arithmetic: exact while the result stays within
/// `MAX_CASH`, clamped at the cap beyond it.
pub fn add_cash(a: i128, b: i128) -> (r: i128)
    ensures
        r == clamp_spec(a + b, MAX_CASH as int),
        -MAX_CASH <= r <= MAX_CASH,
{
    match a.checked_add(b) {
        Some(s) => {
            if s > MAX_CASH {
                MAX_CASH
            } else if s < -MAX_CASH {
                -MAX_CASH
            } else {
                s
            }
        },
        None => {
            if b > 0 {
                MAX_CASH
            } else {
                -MAX_CASH
            }
        },
    }
}

/// Venue instrument identifiers.
#[derive(Clone, Copy, PartialEq, Eq, Structural, Hash, Debug, Default)]
pub enum InstId {
    #[default]
    EthUsdtSwap,
    BtcUsdtSwap,
}

impl InstId {
    pub fn as_str(&self) -> (r: &'static str)
        ensures
            self is EthUsdtSwap ==> r@ == "ETH-USDT-SWAP"@,
            self is BtcUsdtSwap ==> r@ == "BTC-USDT-SWAP"@,
    {
        match self {
            InstId::EthUsdtSwap => "ETH-USDT-SWAP",
            InstId::BtcUsdtSwap => "BTC-USDT-SWAP",
        }
    }
}

/// Static per-instrument profile: decimal places kept for quantities and
/// prices, and the venue's contract multiplier in `UNIT`ths.
#[derive(Clone, Copy, PartialEq, Eq, Structural, Debug)]
pub struct InstrumentProfile {
    pub size_digits: u32,
    pub price_digits: u32,
    pub size_scale: i64,
}

impl InstrumentProfile {
    pub open spec fn wf(self) -> bool {
        self.size_digits <= UNIT_DIGITS && self.price_digits <= UNIT_DIGITS && self.size_scale
            >= 0
    }

    pub fn new(size_digits: u32, price_digits: u32, size_scale: i64) -> (r: InstrumentProfile)
        requires
            size_digits <= UNIT_DIGITS,
            price_digits <= UNIT_DIGITS,
            size_scale >= 0,
        ensures
            r == (InstrumentProfile { size_digits, price_digits, size_scale }),
            r.wf(),
    {
        InstrumentProfile { size_digits, price_digits, size_scale }
    }
}

/// Best bid and offer: the top of the book at one timestamp.
#[derive(Clone, Copy, PartialEq, Eq, Structural, Debug)]
pub struct Bbo {
    pub ts: Timestamp,
    pub instrument_id: InstId,
    pub bid_price: i64,
    pub bid_size: i64,
    pub ask_price: i64,
    pub ask_size: i64,
}

impl Bbo {
    /// The book is sane: non-negative sizes and prices, and the bid does not
    /// cross the ask while both sides are quoted.
    pub open spec fn wf(self) -> bool {
        &&& self.ts <= MAX_TS
    &&& 0 <= self.bid_price <= MAX_AMOUNT
    &&& 0 <= self.ask_price <= MAX_AMOUNT
    &&& 0 <= self.bid_size <= MAX_AMOUNT
    &&& 0 <= self.ask_size <= MAX_AMOUNT
    &&& (self.bid_price > 0 && self.ask_price > 0 ==> self.bid_price <= self.ask_price)
    }

    /// Size-weighted mid price in product units, before the division by the
    /// total touch size.
    pub open spec fn spec_unbiased_price_num(self) -> int {
        self.bid_price * self.ask_size + self.ask_price * self.bid_size
    }

    /// The larger quoted price.
    pub open spec fn spec_max_price(self) -> int {
        if self.bid_price >= self.ask_price {
            self.bid_price as int
        } else {
            self.ask_price as int
        }
    }

    /// The size-weighted ("microprice") quote: bid weighted by ask size and
    /// ask weighted by bid size, rounded towards zero.
    pub fn get_unbiased_price(&self) -> (r: i64)
        requires
            self.wf(),
            self.bid_size + self.ask_size > 0,
        ensures
            r == self.spec_unbiased_price_num() / (self.bid_size + self.ask_size),
            0 <= r <= self.spec_max_price(),
    {
        let p1: i128 = mul_i64(self.bid_price, self.ask_size);
        let p2: i128 = mul_i64(self.ask_price, self.bid_size);
        proof {
            vstd::arithmetic::mul::lemma_mul_nonnegative(
                self.bid_price as int,
                self.ask_size as int,
            );
            vstd::arithmetic::mul::lemma_mul_nonnegative(
                self.ask_price as int,
                self.bid_size as int,
            );
            vstd::arithmetic::mul::lemma_mul_upper_bound(
                self.bid_price as int,
                0x7fff_ffff_ffff_ffff,
                self.ask_size as int,
                0x7fff_ffff_ffff_ffff,
            );
            vstd::arithmetic::mul::lemma_mul_upper_bound(
                self.ask_price as int,
                0x7fff_ffff_ffff_ffff,
                self.bid_size as int,
                0x7fff_ffff_ffff_ffff,
            );
        }
        let num: i128 = p1 + p2;
        let den: i128 = self.bid_size as i128 + self.ask_size as i128;
        proof {
            let n = self.spec_unbiased_price_num();
            let d = (self.bid_size + self.ask_size) as int;
            let mx = self.spec_max_price();
            assert(n <= mx * d) by (nonlinear_arith)
                requires
                    self.bid_price >= 0 && self.ask_price >= 0 && self.bid_size >= 0
                        && self.ask_size >= 0,
                    n == self.bid_price * self.ask_size + self.ask_price * self.bid_size,
                    d == self.bid_size + self.ask_size,
                    mx >= self.bid_price && mx >= self.ask_price,
            ;
            vstd::arithmetic::div_mod::lemma_div_is_ordered(n, mx * d, d);
            vstd::arithmetic::div_mod::lemma_div_multiples_vanish(mx, d);
            vstd::arithmetic::mul::lemma_mul_is_commutative(mx, d);
            vstd::arithmetic::div_mod::lemma_div_pos_is_pos(n, d);
        }
        let q: i128 = num / den;
        q as i64
    }

    /// Quoted spread: ask minus bid.
    pub fn get_spread(&self) -> (r: i64)
        requires
            self.wf(),
        ensures
            r == self.ask_price - self.bid_price,
    {
        self.ask_price - self.bid_price
    }
}

/// One public trade print.
#[derive(Clone, PartialEq, Eq, Debug)]
pub struct Trade {
    pub ts: Timestamp,
    pub instrument_id: InstId,
    /// The venue's trade identifier, as transmitted.
    pub trade_id: Vec<u8>,
    pub price: i64,
    pub size: i64,
    pub side: bool,
    pub order_count: u32,
}

impl Trade {
    pub open spec fn wf(self) -> bool {
        &&& self.ts <= MAX_TS
    &&& 0 <= self.price <= MAX_AMOUNT
    &&& 0 <= self.size <= MAX_AMOUNT
    &&& self.order_count <= 0x10000
    }
}

/// Execution role of a fill.
#[derive(Clone, Copy, PartialEq, Eq, Structural, Debug)]
pub enum ExecType {
    Taker,
    Maker,
}

/// Order lifecycle state carried on a fill.
#[derive(Clone, Copy, PartialEq, Eq, Structural, Debug)]
pub enum FillState {
    Live,
    Partially,
    Filled,
}

/// An order executed for `filled_size` at `price`; `acc_filled_size` is
/// cumulative over the order's life.
#[derive(Clone, Copy, PartialEq, Eq, Structural, Debug)]
pub struct Fill {
    pub order_id: OrderId,
    pub instrument_id: InstId,
    pub filled_size: i64,
    pub acc_filled_size: i64,
    pub price: i64,
    pub side: bool,
    pub exec_type: ExecType,
    pub state: FillState,
}

impl Fill {
    pub open spec fn wf(self) -> bool {
        &&& 0 <= self.filled_size <= MAX_AMOUNT
    &&& self.filled_size <= self.acc_filled_size <= MAX_AMOUNT
    &&& 0 <= self.price <= MAX_AMOUNT
    }

    /// Signed executed quantity: positive for a buy, negative for a sell.
    pub open spec fn signed_size(self) -> int {
        if self.side {
            self.filled_size as int
        } else {
            -(self.filled_size as int)
        }
    }
}

/// A marketable order executed immediately at the touch.
#[derive(Clone, Copy, PartialEq, Eq, Structural, Debug)]
pub struct MarketOrder {
    pub order_id: OrderId,
    pub instrument_id: InstId,
    pub size: i64,
    pub side: bool,
}

impl MarketOrder {
    pub open spec fn wf(self) -> bool {
        0 < self.size <= MAX_AMOUNT
    }
}

/// A resting order: works `size - filled_size` at `price`.
#[derive(Clone, Copy, PartialEq, Eq, Structural, Debug)]
pub struct LimitOrder {
    pub order_id: OrderId,
    pub instrument_id: InstId,
    pub price: i64,
    pub size: i64,
    pub filled_size: i64,
    pub side: bool,
}

impl LimitOrder {
    /// The standing invariant of a limit order; in particular the filled
    /// quantity never exceeds the order's size.
    pub open spec fn wf(self) -> bool {
        &&& 0 < self.price <= MAX_AMOUNT
    &&& 0 < self.size <= MAX_AMOUNT
    &&& 0 <= self.filled_size <= self.size
    }

    pub fn unfilled_size(&self) -> (r: i64)
        requires
            self.wf(),
        ensures
            r == self.size - self.filled_size,
    {
        self.size - self.filled_size
    }

    /// Build an order from a signed target quantity: the sign picks the side.
    pub fn from_raw_size(raw_size: i64, order_id: OrderId, instrument_id: InstId, price: i64) -> (r:
        LimitOrder)
        requires
            raw_size != 0,
            -MAX_AMOUNT <= raw_size <= MAX_AMOUNT,
            0 < price <= MAX_AMOUNT,
        ensures
            r.wf(),
            r.order_id == order_id,
            r.instrument_id == instrument_id,
            r.price == price,
            r.side == (raw_size > 0),
            r.size == abs_i64_spec(raw_size),
            r.filled_size == 0,
    {
        let (side, size) = get_side_size_from_raw_size(raw_size);
        LimitOrder { order_id, instrument_id, price, size, filled_size: 0, side }
    }

    /// The same order with a new size and price; identifier and filled
    /// quantity are preserved.
    pub fn modified(&self, new_size: i64, new_price: i64) -> (r: LimitOrder)
        requires
            self.wf(),
            new_size >= self.filled_size,
            0 < new_size <= MAX_AMOUNT,
            0 < new_price <= MAX_AMOUNT,
        ensures
            r.wf(),
            r.order_id == self.order_id,
            r.instrument_id == self.instrument_id,
            r.side == self.side,
            r.filled_size == self.filled_size,
            r.size == new_size,
            r.price == new_price,
    {
        LimitOrder {
            order_id: self.order_id,
            instrument_id: self.instrument_id,
            price: new_price,
            size: new_size,
            filled_size: self.filled_size,
            side: self.side,
        }
    }

    /// Absorb a fill event: a terminal fill retires the order, a partial one
    /// raises the filled quantity (never beyond the size), and a fill for a
    /// different order leaves this one untouched.
    pub fn fill(&self, fill: &Fill) -> (r: Option<LimitOrder>)
        requires
            self.wf(),
            fill.wf(),
        ensures
            fill.order_id != self.order_id ==> r == Some(*self),
            fill.order_id == self.order_id && fill.state is Filled ==> r is None,
            fill.order_id == self.order_id && !(fill.state is Filled) ==> {
                &&& r is Some
            &&& r->0.wf()
            &&& r->0 == (LimitOrder {
                    filled_size: if fill.acc_filled_size <= self.size {
                        fill.acc_filled_size
                    } else {
                        self.size
                    },
                    ..*self
                })
            },
    {
        if fill.order_id != self.order_id {
            return Some(*self);
        }
        if matches!(fill.state, FillState::Filled) {
            return None;
        }
        let filled = if fill.acc_filled_size <= self.size {
            fill.acc_filled_size
        } else {
            self.size
        };
        Some(
            LimitOrder {
                order_id: self.order_id,
                instrument_id: self.instrument_id,
                price: self.price,
                size: self.size,
                filled_size: filled,
                side: self.side,
            },
        )
    }
}

/// A request to re-price and re-size a working order in place.
#[derive(Clone, Copy, PartialEq, Eq, Structural, Debug)]
pub struct AmendOrder {
    pub order_id: OrderId,
    pub instrument_id: InstId,
    pub new_size: i64,
    pub new_price: i64,
}

/// Either kind of order a client may place.
#[derive(Clone, Copy, PartialEq, Eq, Structural, Debug)]
pub enum Order {
    Market(MarketOrder),
    Limit(LimitOrder),
}

/// What the broker tells the strategy.
#[derive(Clone, Copy, PartialEq, Eq, Structural, Debug)]
pub enum BrokerEvent {
    Data(Bbo),
    Fill(Fill),
    Placed(Order),
    Amended(Order),
    Canceled(OrderId),
}

/// What the strategy asks of the broker.
#[derive(Clone, Copy, PartialEq, Eq, Structural, Debug)]
pub enum ClientEvent {
    PlaceOrder(Order),
    AmendOrder(AmendOrder),
    CancelOrder(InstId, OrderId),
}

impl ClientEvent {
    pub fn place_limit_order(order: LimitOrder) -> (r: ClientEvent)
        ensures
            r == ClientEvent::PlaceOrder(Order::Limit(order)),
    {
        ClientEvent::PlaceOrder(Order::Limit(order))
    }
}

/// Long/short entry signal emitted by a signaler.
#[derive(Clone, Copy, PartialEq, Eq, Structural, Debug)]
pub enum Signal {
    Long,
    Short,
}

impl Signal {
    pub fn is_long(&self) -> (r: bool)
        ensures
            r == (self is Long),
    {
        matches!(self, Signal::Long)
    }

    pub fn is_short(&self) -> (r: bool)
        ensures
            r == (self is Short),
    {
        matches!(self, Signal::Short)
    }
}

pub open spec fn abs_int_spec(x: int) -> int {
    if x >= 0 {
        x
    } else {
        -x
    }
}

pub open spec fn abs_i64_spec(x: i64) -> int {
    if x >= 0 {
        x as int
    } else {
        -(x as int)
    }
}

/// Split a signed quantity into a side flag (true = buy) and a magnitude.
pub fn get_side_size_from_raw_size(raw_size: i64) -> (r: (bool, i64))
    requires
        raw_size > i64::MIN,
    ensures
        r.0 == (raw_size >= 0),
        r.1 == abs_i64_spec(raw_size),
{
    if raw_size >= 0 {
        (true, raw_size)
    } else {
        (false, -raw_size)
    }
}

/// `x` rounded towards zero to a whole multiple of `step`.
pub open spec fn trunc_step_spec(x: int, step: int) -> int {
    if x >= 0 {
        (x / step) * step
    } else {
        -((-x / step) * step)
    }
}

/// Drop the part of `x` finer than `step`, rounding towards zero (the integer
/// counterpart of truncating a decimal to a fixed number of places).
pub fn truncate_to_step(x: i64, step: i64) -> (r: i64)
    requires
        step >= 1,
        x > i64::MIN,
    ensures
        r == trunc_step_spec(x as int, step as int),
        abs_i64_spec(r) <= abs_i64_spec(x),
        x >= 0 ==> 0 <= r <= x,
        x < 0 ==> x <= r <= 0,
{
    if x >= 0 {
        let q: i64 = x / step;
        proof {
            lemma_div_mul_le(x as int, step as int);
        }
        q * step
    } else {
        let m: i64 = -x;
        let q: i64 = m / step;
        proof {
            lemma_div_mul_le(m as int, step as int);
        }
        -(q * step)
    }
}

/// `x` rounded half away from zero to a whole multiple of `step`.
pub open spec fn round_step_spec(x: int, step: int) -> int {
    if x >= 0 {
        ((x + step / 2) / step) * step
    } else {
        -(((-x + step / 2) / step) * step)
    }
}

/// Round `x` to the nearest multiple of `step`, ties going away from zero
/// (the integer counterpart of rounding a decimal to fixed places).
pub fn round_to_step(x: i64, step: i64) -> (r: i64)
    requires
        step >= 1,
        i64::MIN < x,
        abs_i64_spec(x) + step / 2 <= i64::MAX,
    ensures
        r == round_step_spec(x as int, step as int),
        abs_i64_spec(r) <= abs_i64_spec(x) + step / 2,
{
    if x >= 0 {
        let q: i64 = (x + step / 2) / step;
        proof {
            lemma_div_mul_le(x + step / 2, step as int);
        }
        q * step
    } else {
        let m: i64 = -x;
        let q: i64 = (m + step / 2) / step;
        proof {
            lemma_div_mul_le(m + step / 2, step as int);
        }
        -(q * step)
    }
}

/// Pack a monotone counter and a per-instance tag into one order identifier:
/// the low 16 bits are the tag, the high 48 the counter.
pub fn make_order_id(body: u64, tag: u64) -> (r: OrderId)
    requires
        tag < 0x10000,
        body < 0x1_0000_0000_0000,
    ensures
        r == body * 0x10000 + tag,
{
    body * 0x10000 + tag
}

/// Identifiers from one instance are unique across counter values, and the
/// instance tag is recoverable from the low 16 bits.
pub proof fn lemma_order_id_unique(b1: u64, b2: u64, tag: u64)
    requires
        tag < 0x10000,
        b1 < 0x1_0000_0000_0000,
        b2 < 0x1_0000_0000_0000,
    ensures
        (b1 * 0x10000 + tag) % 0x10000 == tag,
        b1 != b2 ==> b1 * 0x10000 + tag != b2 * 0x10000 + tag,
{
    assert((b1 * 0x10000 + tag) % 0x10000 == tag) by (nonlinear_arith)
        requires
            tag < 0x10000,
    ;
    assert(b1 != b2 ==> b1 * 0x10000 != b2 * 0x10000) by (nonlinear_arith);
}

} // verus!
