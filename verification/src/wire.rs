//! The venue protocol model: the canonical shape of outbound requests and
//! inbound pushes, and the translation between them and the internal event
//! vocabulary. Quantities and prices cross this boundary as decimal strings;
//! the JSON skin around these structures is an external concern.

use vstd::prelude::*;

use crate::decimal::{
    format_scaled, format_u64, parse_scaled, parse_u64, spec_all_digits, spec_decimal_val,
    spec_digits, spec_digits_val, spec_is_decimal,
};
use crate::types::{
    AmendOrder, Bbo, BrokerEvent, ClientEvent, Fill, FillState, InstId, LimitOrder, MAX_AMOUNT,
    MAX_TS, Order, OrderId, Timestamp, Trade,
};

verus! {

/// Subscription channels.
#[derive(Clone, Copy, PartialEq, Eq, Structural, Debug)]
pub enum Channel {
    Trades,
    BboTbt,
    Orders,
}

/// Instrument classes the venue distinguishes.
#[derive(Clone, Copy, PartialEq, Eq, Structural, Debug)]
pub enum InstType {
    Swap,
}

/// Order side on the wire.
#[derive(Clone, Copy, PartialEq, Eq, Structural, Debug)]
pub enum Side {
    Buy,
    Sell,
}

/// Trading mode on the wire.
#[derive(Clone, Copy, PartialEq, Eq, Structural, Debug)]
pub enum TdMode {
    Cross,
}

/// Order kinds on the wire.
#[derive(Clone, Copy, PartialEq, Eq, Structural, Debug)]
pub enum OrdType {
    Limit,
    Market,
}

/// Order lifecycle states the venue reports.
#[derive(Clone, Copy, PartialEq, Eq, Structural, Debug)]
pub enum OrderState {
    Canceled,
    Live,
    PartiallyFilled,
    Filled,
}

/// Execution role letter the venue reports.
#[derive(Clone, Copy, PartialEq, Eq, Structural, Debug)]
pub enum ExecType {
    T,
    M,
}

/// Operations a request envelope can carry.
#[derive(Clone, Copy, PartialEq, Eq, Structural, Debug)]
pub enum Op {
    Subscribe,
    Order,
    AmendOrder,
    CancelOrder,
}

/// The channel/instrument pair identifying a push.
#[derive(Clone, Copy, PartialEq, Eq, Structural, Debug)]
pub struct Arg {
    pub channel: Channel,
    pub inst_id: InstId,
}

/// A subscription argument.
#[derive(Clone, Copy, PartialEq, Eq, Structural, Debug)]
pub struct SubscribeArg {
    pub channel: Channel,
    pub inst_type: Option<InstType>,
    pub inst_id: InstId,
}

impl SubscribeArg {
    pub fn new_trades(inst_id: InstId) -> (r: SubscribeArg)
        ensures
            r == (SubscribeArg { channel: Channel::Trades, inst_type: None, inst_id }),
    {
        SubscribeArg { channel: Channel::Trades, inst_type: None, inst_id }
    }

    pub fn new_bbo_tbt(inst_id: InstId) -> (r: SubscribeArg)
        ensures
            r == (SubscribeArg { channel: Channel::BboTbt, inst_type: None, inst_id }),
    {
        SubscribeArg { channel: Channel::BboTbt, inst_type: None, inst_id }
    }

    pub fn new_orders(inst_type: InstType, inst_id: InstId) -> (r: SubscribeArg)
        ensures
            r == (SubscribeArg { channel: Channel::Orders, inst_type: Some(inst_type), inst_id }),
    {
        SubscribeArg { channel: Channel::Orders, inst_type: Some(inst_type), inst_id }
    }
}

/// A request envelope: an optional correlation id, the operation, and one
/// argument (the wire format carries it as a one-element array).
#[derive(Clone, Debug)]
pub struct Request<A> {
    pub id: Option<Vec<u8>>,
    pub op: Op,
    pub arg: A,
}

impl Request<SubscribeArg> {
    pub fn subscribe_trades(inst_id: InstId) -> (r: Request<SubscribeArg>)
        ensures
            r.id is None,
            r.op == Op::Subscribe,
            r.arg == (SubscribeArg { channel: Channel::Trades, inst_type: None, inst_id }),
    {
        Request { id: None, op: Op::Subscribe, arg: SubscribeArg::new_trades(inst_id) }
    }

    pub fn subscribe_bbo_tbt(inst_id: InstId) -> (r: Request<SubscribeArg>)
        ensures
            r.id is None,
            r.op == Op::Subscribe,
            r.arg == (SubscribeArg { channel: Channel::BboTbt, inst_type: None, inst_id }),
    {
        Request { id: None, op: Op::Subscribe, arg: SubscribeArg::new_bbo_tbt(inst_id) }
    }

    pub fn subscribe_orders(inst_type: InstType, inst_id: InstId) -> (r: Request<SubscribeArg>)
        ensures
            r.id is None,
            r.op == Op::Subscribe,
            r.arg == (SubscribeArg {
                channel: Channel::Orders,
                inst_type: Some(inst_type),
                inst_id,
            }),
    {
        Request { id: None, op: Op::Subscribe, arg: SubscribeArg::new_orders(inst_type, inst_id) }
    }

    pub fn inst_id(&self) -> (r: InstId)
        ensures
            r == self.arg.inst_id,
    {
        self.arg.inst_id
    }

    pub fn channel(&self) -> (r: Channel)
        ensures
            r == self.arg.channel,
    {
        self.arg.channel
    }
}

/// An outbound action in canonical form.
#[derive(Clone, Debug)]
pub enum Action {
    SubscribeTrades(InstId),
    SubscribeBboTbt(InstId),
    SubscribeOrders(InstId),
    LimitOrder {
        request_id: Vec<u8>,
        side: Side,
        inst_id: InstId,
        client_order_id: Vec<u8>,
        size: Vec<u8>,
        price: Vec<u8>,
    },
    MarketOrder {
        request_id: Vec<u8>,
        side: Side,
        inst_id: InstId,
        client_order_id: Vec<u8>,
        size: Vec<u8>,
    },
    AmendWorkingOrder {
        request_id: Vec<u8>,
        inst_id: InstId,
        client_order_id: Vec<u8>,
        new_size: Vec<u8>,
        new_price: Vec<u8>,
    },
    CancelWorkingOrder {
        request_id: Vec<u8>,
        inst_id: InstId,
        client_order_id: Vec<u8>,
    },
}

impl Action {
    /// Whether the action belongs on the private (authenticated) session:
    /// everything but public market-data subscriptions.
    pub fn is_private(&self) -> (r: bool)
        ensures
            r == !(self is SubscribeTrades || self is SubscribeBboTbt),
    {
        match self {
            Action::SubscribeTrades(_) | Action::SubscribeBboTbt(_) => false,
            Action::SubscribeOrders(_)
            | Action::LimitOrder { .. }
            | Action::MarketOrder { .. }
            | Action::AmendWorkingOrder { .. }
            | Action::CancelWorkingOrder { .. } => true,
        }
    }
}

/// Translate a client event into the canonical outbound action. Order
/// identifiers become their decimal digits; quantities and prices become
/// wire decimals denoting exactly the original counts.
pub fn client_event_to_action(event: &ClientEvent) -> (r: Action)
    requires
        event matches ClientEvent::PlaceOrder(Order::Market(o)) ==> o.wf(),
        event matches ClientEvent::PlaceOrder(Order::Limit(o)) ==> o.wf(),
        event matches ClientEvent::AmendOrder(a) ==> 0 <= a.new_size <= MAX_AMOUNT && 0
            <= a.new_price <= MAX_AMOUNT,
    ensures
        event matches ClientEvent::PlaceOrder(Order::Market(o)) ==> r matches
            Action::MarketOrder { request_id, side, inst_id, client_order_id, size } && {
            &&& side == if o.side {
                Side::Buy
            } else {
                Side::Sell
            }
        &&& inst_id == o.instrument_id
        &&& client_order_id@ == spec_digits(o.order_id as int)
        &&& spec_is_decimal(size@) && spec_decimal_val(size@) == o.size
        &&& request_id@.len() == 0
        },
        event matches ClientEvent::PlaceOrder(Order::Limit(o)) ==> r matches
            Action::LimitOrder { request_id, side, inst_id, client_order_id, size, price } && {
            &&& side == if o.side {
                Side::Buy
            } else {
                Side::Sell
            }
        &&& inst_id == o.instrument_id
        &&& client_order_id@ == spec_digits(o.order_id as int)
        &&& spec_is_decimal(size@) && spec_decimal_val(size@) == o.size
        &&& spec_is_decimal(price@) && spec_decimal_val(price@) == o.price
        &&& request_id@.len() == 0
        },
        event matches ClientEvent::AmendOrder(a) ==> r matches
            Action::AmendWorkingOrder { request_id, inst_id, client_order_id, new_size, new_price }
            && {
            &&& inst_id == a.instrument_id
        &&& client_order_id@ == spec_digits(a.order_id as int)
        &&& spec_is_decimal(new_size@) && spec_decimal_val(new_size@) == a.new_size
        &&& spec_is_decimal(new_price@) && spec_decimal_val(new_price@) == a.new_price
        &&& request_id@.len() == 0
        },
        event matches ClientEvent::CancelOrder(inst, oid) ==> r matches
            Action::CancelWorkingOrder { request_id, inst_id, client_order_id } && {
            &&& inst_id == inst
        &&& client_order_id@ == spec_digits(oid as int)
        &&& request_id@.len() == 0
        },
{
    match event {
        ClientEvent::PlaceOrder(order) => {
            match order {
                Order::Market(o) => {
                    let side = if o.side {
                        Side::Buy
                    } else {
                        Side::Sell
                    };
                    let mut client_order_id: Vec<u8> = Vec::new();
                    format_u64(o.order_id, &mut client_order_id);
                    proof {
                        assert(client_order_id@ =~= spec_digits(o.order_id as int));
                    }
                    Action::MarketOrder {
                        request_id: Vec::new(),
                        side,
                        inst_id: o.instrument_id,
                        client_order_id,
                        size: format_scaled(o.size),
                    }
                },
                Order::Limit(o) => {
                    let side = if o.side {
                        Side::Buy
                    } else {
                        Side::Sell
                    };
                    let mut client_order_id: Vec<u8> = Vec::new();
                    format_u64(o.order_id, &mut client_order_id);
                    proof {
                        assert(client_order_id@ =~= spec_digits(o.order_id as int));
                    }
                    Action::LimitOrder {
                        request_id: Vec::new(),
                        side,
                        inst_id: o.instrument_id,
                        client_order_id,
                        size: format_scaled(o.size),
                        price: format_scaled(o.price),
                    }
                },
            }
        },
        ClientEvent::AmendOrder(a) => {
            let mut client_order_id: Vec<u8> = Vec::new();
            format_u64(a.order_id, &mut client_order_id);
            proof {
                assert(client_order_id@ =~= spec_digits(a.order_id as int));
            }
            Action::AmendWorkingOrder {
                request_id: Vec::new(),
                inst_id: a.instrument_id,
                client_order_id,
                new_size: format_scaled(a.new_size),
                new_price: format_scaled(a.new_price),
            }
        },
        ClientEvent::CancelOrder(inst, oid) => {
            let mut client_order_id: Vec<u8> = Vec::new();
            format_u64(*oid, &mut client_order_id);
            proof {
                assert(client_order_id@ =~= spec_digits(oid as int));
            }
            Action::CancelWorkingOrder {
                request_id: Vec::new(),
                inst_id: *inst,
                client_order_id,
            }
        },
    }
}

/// Why an inbound frame could not be decoded.
#[derive(Clone, Copy, PartialEq, Eq, Structural, Debug)]
pub enum DecodeError {
    BadNumber,
    BadSide,
    EmptyBook,
    CrossedBook,
    BadTimestamp,
    UnknownOrderKind,
}

/// How an order push is to be interpreted.
#[derive(Clone, Copy, PartialEq, Eq, Structural, Debug)]
pub enum OrderPushType {
    Fill,
    Canceled,
    Amended,
    Placed,
}

/// A decoded private order push.
#[derive(Clone, Copy, PartialEq, Eq, Structural, Debug)]
pub struct OrderPush {
    pub order_id: OrderId,
    pub inst_id: InstId,
    pub state: OrderState,
    pub size: i64,
    pub filled_size: i64,
    pub acc_filled_size: i64,
    pub price: i64,
    pub side: bool,
    pub ord_type: OrdType,
    pub exec_type: Option<ExecType>,
    pub push_type: OrderPushType,
}

/// The raw fields of an `orders`-channel push, before interpretation.
#[derive(Clone, Debug)]
pub struct OrdersData {
    pub cl_ord_id: Vec<u8>,
    pub state: OrderState,
    pub side: Side,
    pub sz: Vec<u8>,
    pub fill_sz: Vec<u8>,
    pub acc_fill_sz: Vec<u8>,
    pub fill_pnl: Vec<u8>,
    pub cancel_source: Vec<u8>,
    pub amend_result: Vec<u8>,
    pub exec_type: Vec<u8>,
    pub ord_type: OrdType,
}

/// The push an `orders` frame denotes, when every number parses. The push
/// kind is derived by priority: a positive filled quantity means a fill,
/// else a non-empty cancel source a cancellation, else a non-empty amend
/// result an amendment, else a placement.
pub open spec fn spec_decode_orders(d: OrdersData, inst: InstId) -> Option<OrderPush> {
    if spec_all_digits(d.cl_ord_id@) && d.cl_ord_id@.len() >= 1 && spec_digits_val(d.cl_ord_id@)
        <= u64::MAX && spec_is_decimal(d.sz@) && 0 <= spec_decimal_val(d.sz@) <= MAX_AMOUNT
        && spec_is_decimal(d.fill_sz@) && 0 <= spec_decimal_val(d.fill_sz@) <= MAX_AMOUNT
        && spec_is_decimal(d.acc_fill_sz@) && 0 <= spec_decimal_val(d.acc_fill_sz@) <= MAX_AMOUNT
        && spec_is_decimal(d.fill_pnl@) && 0 <= spec_decimal_val(d.fill_pnl@) <= MAX_AMOUNT {
        let filled = spec_decimal_val(d.fill_sz@);
        Some(
            OrderPush {
                order_id: spec_digits_val(d.cl_ord_id@) as u64,
                inst_id: inst,
                state: d.state,
                size: spec_decimal_val(d.sz@) as i64,
                filled_size: filled as i64,
                acc_filled_size: spec_decimal_val(d.acc_fill_sz@) as i64,
                price: spec_decimal_val(d.fill_pnl@) as i64,
                side: d.side is Buy,
                ord_type: d.ord_type,
                exec_type: if d.exec_type@ == seq![84u8] {
                    Some(ExecType::T)
                } else if d.exec_type@ == seq![77u8] {
                    Some(ExecType::M)
                } else {
                    None
                },
                push_type: if filled != 0 {
                    OrderPushType::Fill
                } else if d.cancel_source@.len() > 0 {
                    OrderPushType::Canceled
                } else if d.amend_result@.len() > 0 {
                    OrderPushType::Amended
                } else {
                    OrderPushType::Placed
                },
            },
        )
    } else {
        None
    }
}

impl OrdersData {
    /// Decode an `orders` frame into a push.
    pub fn try_into_order_push(&self, inst_id: InstId) -> (r: Result<OrderPush, DecodeError>)
        requires
            self.cl_ord_id@.len() <= 0x1000,
            self.sz@.len() <= 0x1000,
            self.fill_sz@.len() <= 0x1000,
            self.acc_fill_sz@.len() <= 0x1000,
            self.fill_pnl@.len() <= 0x1000,
        ensures
            r matches Ok(p) ==> spec_decode_orders(*self, inst_id) == Some(p),
            r is Err ==> spec_decode_orders(*self, inst_id) is None,
    {
        let order_id = match parse_u64(self.cl_ord_id.as_slice()) {
            Some(v) => v,
            None => {
                return Err(DecodeError::BadNumber);
            },
        };
        let size = match parse_scaled(self.sz.as_slice()) {
            Some(v) => v,
            None => {
                return Err(DecodeError::BadNumber);
            },
        };
        let filled_size = match parse_scaled(self.fill_sz.as_slice()) {
            Some(v) => v,
            None => {
                return Err(DecodeError::BadNumber);
            },
        };
        let acc_filled_size = match parse_scaled(self.acc_fill_sz.as_slice()) {
            Some(v) => v,
            None => {
                return Err(DecodeError::BadNumber);
            },
        };
        let price = match parse_scaled(self.fill_pnl.as_slice()) {
            Some(v) => v,
            None => {
                return Err(DecodeError::BadNumber);
            },
        };
        let exec_type = if self.exec_type.len() == 1 && self.exec_type[0] == 84 {
            proof {
                assert(self.exec_type@ =~= seq![84u8]);
            }
            Some(ExecType::T)
        } else if self.exec_type.len() == 1 && self.exec_type[0] == 77 {
            proof {
                assert(self.exec_type@ =~= seq![77u8]);
                assert(self.exec_type@ != seq![84u8]);
            }
            Some(ExecType::M)
        } else {
            proof {
                if self.exec_type@ == seq![84u8] {
                    assert(self.exec_type@.len() == 1 && self.exec_type@[0] == 84);
                }
                if self.exec_type@ == seq![77u8] {
                    assert(self.exec_type@.len() == 1 && self.exec_type@[0] == 77);
                }
            }
            None
        };
        let push_type = if filled_size != 0 {
            OrderPushType::Fill
        } else if self.cancel_source.len() > 0 {
            OrderPushType::Canceled
        } else if self.amend_result.len() > 0 {
            OrderPushType::Amended
        } else {
            OrderPushType::Placed
        };
        Ok(
            OrderPush {
                order_id,
                inst_id,
                state: self.state,
                size,
                filled_size,
                acc_filled_size,
                price,
                side: matches!(self.side, Side::Buy),
                ord_type: self.ord_type,
                exec_type,
                push_type,
            },
        )
    }
}

/// The broker event an order push denotes: market-order pushes carry no
/// usable order body and decode to nothing.
pub open spec fn spec_event_from_push(p: OrderPush) -> Option<BrokerEvent> {
    if p.ord_type is Market {
        None
    } else {
        let order = Order::Limit(
            LimitOrder {
                order_id: p.order_id,
                instrument_id: p.inst_id,
                price: p.price,
                size: p.size,
                filled_size: p.filled_size,
                side: p.side,
            },
        );
        match p.push_type {
            OrderPushType::Canceled => Some(BrokerEvent::Canceled(p.order_id)),
            OrderPushType::Amended => Some(BrokerEvent::Amended(order)),
            OrderPushType::Placed => Some(BrokerEvent::Placed(order)),
            OrderPushType::Fill => Some(
                BrokerEvent::Fill(
                    Fill {
                        order_id: p.order_id,
                        instrument_id: p.inst_id,
                        filled_size: p.filled_size,
                        acc_filled_size: p.acc_filled_size,
                        price: p.price,
                        side: p.side,
                        exec_type: match p.exec_type {
                            Some(ExecType::M) => crate::types::ExecType::Maker,
                            _ => crate::types::ExecType::Taker,
                        },
                        state: match p.state {
                            OrderState::Filled => FillState::Filled,
                            _ => FillState::Partially,
                        },
                    },
                ),
            ),
        }
    }
}

/// Turn a decoded order push into a broker event.
pub fn broker_event_from_push(p: &OrderPush) -> (r: Option<BrokerEvent>)
    ensures
        r == spec_event_from_push(*p),
{
    if matches!(p.ord_type, OrdType::Market) {
        return None;
    }
    let order = Order::Limit(
        LimitOrder {
            order_id: p.order_id,
            instrument_id: p.inst_id,
            price: p.price,
            size: p.size,
            filled_size: p.filled_size,
            side: p.side,
        },
    );
    match p.push_type {
        OrderPushType::Canceled => Some(BrokerEvent::Canceled(p.order_id)),
        OrderPushType::Amended => Some(BrokerEvent::Amended(order)),
        OrderPushType::Placed => Some(BrokerEvent::Placed(order)),
        OrderPushType::Fill => Some(
            BrokerEvent::Fill(
                Fill {
                    order_id: p.order_id,
                    instrument_id: p.inst_id,
                    filled_size: p.filled_size,
                    acc_filled_size: p.acc_filled_size,
                    price: p.price,
                    side: p.side,
                    exec_type: match p.exec_type {
                        Some(ExecType::M) => crate::types::ExecType::Maker,
                        _ => crate::types::ExecType::Taker,
                    },
                    state: match p.state {
                        OrderState::Filled => FillState::Filled,
                        _ => FillState::Partially,
                    },
                },
            ),
        ),
    }
}

/// The raw fields of a `trades`-channel push.
#[derive(Clone, Debug)]
pub struct TradesData {
    pub inst_id: InstId,
    pub trade_id: Vec<u8>,
    pub px: Vec<u8>,
    pub sz: Vec<u8>,
    pub side: Vec<u8>,
    pub ts: Vec<u8>,
    pub count: Vec<u8>,
}

/// The trade a `trades` frame denotes, when every field parses and fits.
pub open spec fn spec_decode_trade(d: TradesData) -> Option<Trade> {
    if spec_all_digits(d.ts@) && d.ts@.len() >= 1 && spec_digits_val(d.ts@) <= MAX_TS
        && spec_is_decimal(d.px@) && 0 <= spec_decimal_val(d.px@) <= MAX_AMOUNT
        && spec_is_decimal(d.sz@) && 0 <= spec_decimal_val(d.sz@) <= MAX_AMOUNT
        && spec_all_digits(d.count@) && d.count@.len() >= 1 && spec_digits_val(d.count@) <= 0x10000
        && (d.side@ == seq![98u8, 117u8, 121u8] || d.side@ == seq![115u8, 101u8, 108u8, 108u8]) {
        Some(
            Trade {
                ts: spec_digits_val(d.ts@) as u64,
                instrument_id: d.inst_id,
                trade_id: d.trade_id,
                price: spec_decimal_val(d.px@) as i64,
                size: spec_decimal_val(d.sz@) as i64,
                side: d.side@ == seq![98u8, 117u8, 121u8],
                order_count: spec_digits_val(d.count@) as u32,
            },
        )
    } else {
        None
    }
}

/// Do two byte strings hold the same bytes?
fn bytes_eq(a: &[u8], b: &[u8]) -> (r: bool)
    ensures
        r == (a@ == b@),
{
    if a.len() != b.len() {
        proof {
            assert(a@.len() != b@.len());
        }
        return false;
    }
    let mut i: usize = 0;
    while i < a.len()
        invariant
            i <= a@.len(),
            a@.len() == b@.len(),
            forall|j: int| 0 <= j < i ==> a@[j] == b@[j],
        decreases a@.len() - i,
    {
        if a[i] != b[i] {
            return false;
        }
        i = i + 1;
    }
    proof {
        assert(a@ =~= b@);
    }
    true
}

impl TradesData {
    /// Decode a `trades` frame into a trade print.
    pub fn try_into_trade(self) -> (r: Result<Trade, DecodeError>)
        requires
            self.px@.len() <= 0x1000,
            self.sz@.len() <= 0x1000,
        ensures
            r matches Ok(t) ==> spec_decode_trade(self) == Some(t) && t.wf(),
            r is Err ==> spec_decode_trade(self) is None,
    {
        let ts = match parse_u64(self.ts.as_slice()) {
            Some(v) => v,
            None => {
                return Err(DecodeError::BadNumber);
            },
        };
        if ts > MAX_TS {
            return Err(DecodeError::BadTimestamp);
        }
        let price = match parse_scaled(self.px.as_slice()) {
            Some(v) => v,
            None => {
                return Err(DecodeError::BadNumber);
            },
        };
        let size = match parse_scaled(self.sz.as_slice()) {
            Some(v) => v,
            None => {
                return Err(DecodeError::BadNumber);
            },
        };
        let count = match parse_u64(self.count.as_slice()) {
            Some(v) => v,
            None => {
                return Err(DecodeError::BadNumber);
            },
        };
        if count > 0x10000 {
            return Err(DecodeError::BadNumber);
        }
        let buy: [u8; 3] = [98, 117, 121];
        let sell: [u8; 4] = [115, 101, 108, 108];
        let side = if bytes_eq(self.side.as_slice(), buy.as_slice()) {
            proof {
                assert(buy@ =~= seq![98u8, 117u8, 121u8]);
            }
            true
        } else if bytes_eq(self.side.as_slice(), sell.as_slice()) {
            proof {
                assert(buy@ =~= seq![98u8, 117u8, 121u8]);
                assert(sell@ =~= seq![115u8, 101u8, 108u8, 108u8]);
            }
            false
        } else {
            proof {
                assert(buy@ =~= seq![98u8, 117u8, 121u8]);
                assert(sell@ =~= seq![115u8, 101u8, 108u8, 108u8]);
            }
            return Err(DecodeError::BadSide);
        };
        Ok(
            Trade {
                ts,
                instrument_id: self.inst_id,
                trade_id: self.trade_id,
                price,
                size,
                side,
                order_count: count as u32,
            },
        )
    }
}

/// One price level of a depth push, fields as transmitted (the third field
/// is a deprecated placeholder).
#[derive(Clone, Debug)]
pub struct WireLevel {
    pub price: Vec<u8>,
    pub size: Vec<u8>,
    pub liquidated: Vec<u8>,
    pub order_count: Vec<u8>,
}

/// The raw fields of a `bbo-tbt` push.
#[derive(Clone, Debug)]
pub struct DepthData {
    pub asks: Vec<WireLevel>,
    pub bids: Vec<WireLevel>,
    pub ts: Vec<u8>,
}

/// The quote a depth frame denotes from its first bid and ask rows, when
/// both sides are present, every number parses and fits, the timestamp is in
/// range, and the book is not crossed.
pub open spec fn spec_decode_bbo(d: DepthData, instrument_id: InstId) -> Option<Bbo> {
    if spec_all_digits(d.ts@) && d.ts@.len() >= 1 && spec_digits_val(d.ts@) <= MAX_TS
        && d.bids@.len() > 0 && d.asks@.len() > 0 && spec_is_decimal(d.bids@[0].price@) && 0
        <= spec_decimal_val(d.bids@[0].price@) <= MAX_AMOUNT && spec_is_decimal(d.bids@[0].size@)
        && 0 <= spec_decimal_val(d.bids@[0].size@) <= MAX_AMOUNT && spec_is_decimal(
        d.asks@[0].price@,
    ) && 0 <= spec_decimal_val(d.asks@[0].price@) <= MAX_AMOUNT && spec_is_decimal(
        d.asks@[0].size@,
    ) && 0 <= spec_decimal_val(d.asks@[0].size@) <= MAX_AMOUNT && !(spec_decimal_val(
        d.bids@[0].price@,
    ) > 0 && spec_decimal_val(d.asks@[0].price@) > 0 && spec_decimal_val(d.bids@[0].price@)
        > spec_decimal_val(d.asks@[0].price@)) {
        Some(
            Bbo {
                ts: spec_digits_val(d.ts@) as u64,
                instrument_id,
                bid_price: spec_decimal_val(d.bids@[0].price@) as i64,
                bid_size: spec_decimal_val(d.bids@[0].size@) as i64,
                ask_price: spec_decimal_val(d.asks@[0].price@) as i64,
                ask_size: spec_decimal_val(d.asks@[0].size@) as i64,
            },
        )
    } else {
        None
    }
}

impl DepthData {
    /// Decode the top of book from a depth frame: the first bid and ask
    /// rows. Fails on an empty side, an unparsable number, or a book that
    /// would violate the quote invariant.
    pub fn try_into_bbo(&self, instrument_id: InstId) -> (r: Result<Bbo, DecodeError>)
        requires
            self.bids@.len() > 0 ==> self.bids@[0].price@.len() <= 0x1000
                && self.bids@[0].size@.len() <= 0x1000,
            self.asks@.len() > 0 ==> self.asks@[0].price@.len() <= 0x1000
                && self.asks@[0].size@.len() <= 0x1000,
        ensures
            r matches Ok(b) ==> spec_decode_bbo(*self, instrument_id) == Some(b) && b.wf(),
            r is Err ==> spec_decode_bbo(*self, instrument_id) is None,
    {
        let ts = match parse_u64(self.ts.as_slice()) {
            Some(v) => v,
            None => {
                return Err(DecodeError::BadNumber);
            },
        };
        if ts > MAX_TS {
            return Err(DecodeError::BadTimestamp);
        }
        if self.bids.len() == 0 || self.asks.len() == 0 {
            return Err(DecodeError::EmptyBook);
        }
        let bid_price = match parse_scaled(self.bids[0].price.as_slice()) {
            Some(v) => v,
            None => {
                return Err(DecodeError::BadNumber);
            },
        };
        let bid_size = match parse_scaled(self.bids[0].size.as_slice()) {
            Some(v) => v,
            None => {
                return Err(DecodeError::BadNumber);
            },
        };
        let ask_price = match parse_scaled(self.asks[0].price.as_slice()) {
            Some(v) => v,
            None => {
                return Err(DecodeError::BadNumber);
            },
        };
        let ask_size = match parse_scaled(self.asks[0].size.as_slice()) {
            Some(v) => v,
            None => {
                return Err(DecodeError::BadNumber);
            },
        };
        if bid_price > 0 && ask_price > 0 && bid_price > ask_price {
            return Err(DecodeError::CrossedBook);
        }
        Ok(Bbo { ts, instrument_id, bid_price, bid_size, ask_price, ask_size })
    }
}

/// A decoded inbound datum.
#[derive(Clone, Debug)]
pub enum Data {
    Trade(Trade),
    Bbo(Bbo),
    Order(OrderPush),
}

impl BrokerEvent {
    /// The broker event a decoded datum carries to the strategy: quotes pass
    /// through as data, order pushes translate, trade prints carry nothing.
    pub fn try_from_data(data: Data) -> (r: Option<BrokerEvent>)
        ensures
            data matches Data::Bbo(b) ==> r == Some(BrokerEvent::Data(b)),
            data matches Data::Order(p) ==> r == spec_event_from_push(p),
            data matches Data::Trade(_) ==> r is None,
    {
        match data {
            Data::Bbo(b) => Some(BrokerEvent::Data(b)),
            Data::Order(p) => broker_event_from_push(&p),
            Data::Trade(_) => None,
        }
    }
}

/// Broker events the wire codec can carry faithfully: order pushes with a
/// positive executed quantity for fills (anything else would decode as an
/// acknowledgement), fresh working orders for placements and amendments, and
/// any cancellation.
pub open spec fn spec_canonical_event(ev: BrokerEvent) -> bool {
    match ev {
        BrokerEvent::Fill(f) => f.wf() && f.filled_size > 0 && (f.state is Filled
            || f.state is Partially),
        BrokerEvent::Placed(Order::Limit(o)) => o.wf() && o.filled_size == 0,
        BrokerEvent::Amended(Order::Limit(o)) => o.wf() && o.filled_size == 0,
        BrokerEvent::Canceled(_) => true,
        _ => false,
    }
}

/// The instrument an event names, if any.
pub open spec fn spec_event_inst(ev: BrokerEvent, dflt: InstId) -> InstId {
    match ev {
        BrokerEvent::Fill(f) => f.instrument_id,
        BrokerEvent::Placed(Order::Limit(o)) => o.instrument_id,
        BrokerEvent::Amended(Order::Limit(o)) => o.instrument_id,
        _ => dflt,
    }
}

/// Does a raw `orders` frame denote exactly this broker event?
pub open spec fn spec_encodes(d: OrdersData, ev: BrokerEvent) -> bool {
    &&& spec_all_digits(d.cl_ord_id@) && d.cl_ord_id@.len() >= 1
&&& spec_is_decimal(d.sz@) && 0 <= spec_decimal_val(d.sz@) <= MAX_AMOUNT
&&& spec_is_decimal(d.fill_sz@) && 0 <= spec_decimal_val(d.fill_sz@) <= MAX_AMOUNT
&&& spec_is_decimal(d.acc_fill_sz@) && 0 <= spec_decimal_val(d.acc_fill_sz@) <= MAX_AMOUNT
&&& spec_is_decimal(d.fill_pnl@) && 0 <= spec_decimal_val(d.fill_pnl@) <= MAX_AMOUNT
&&& d.ord_type is Limit
&&& match ev {
        BrokerEvent::Fill(f) => {
            &&& spec_digits_val(d.cl_ord_id@) == f.order_id
        &&& spec_decimal_val(d.fill_sz@) == f.filled_size
        &&& spec_decimal_val(d.acc_fill_sz@) == f.acc_filled_size
        &&& spec_decimal_val(d.fill_pnl@) == f.price
        &&& (d.side is Buy) == f.side
        &&& d.state == (if f.state is Filled {
                OrderState::Filled
            } else {
                OrderState::PartiallyFilled
            })
        &&& d.exec_type@ == (if f.exec_type is Taker {
                seq![84u8]
            } else {
                seq![77u8]
            })
        },
        BrokerEvent::Placed(Order::Limit(o)) => {
            &&& spec_digits_val(d.cl_ord_id@) == o.order_id
        &&& spec_decimal_val(d.sz@) == o.size
        &&& spec_decimal_val(d.fill_sz@) == 0
        &&& spec_decimal_val(d.fill_pnl@) == o.price
        &&& (d.side is Buy) == o.side
        &&& d.cancel_source@.len() == 0
        &&& d.amend_result@.len() == 0
        },
        BrokerEvent::Amended(Order::Limit(o)) => {
            &&& spec_digits_val(d.cl_ord_id@) == o.order_id
        &&& spec_decimal_val(d.sz@) == o.size
        &&& spec_decimal_val(d.fill_sz@) == 0
        &&& spec_decimal_val(d.fill_pnl@) == o.price
        &&& (d.side is Buy) == o.side
        &&& d.cancel_source@.len() == 0
        &&& d.amend_result@.len() > 0
        },
        BrokerEvent::Canceled(oid) => {
            &&& spec_digits_val(d.cl_ord_id@) == oid
        &&& spec_decimal_val(d.fill_sz@) == 0
        &&& d.cancel_source@.len() > 0
        },
        _ => false,
    }
}

/// Render a canonical broker event as the `orders` frame a venue would send
/// for it.
pub fn encode_broker_event(ev: &BrokerEvent) -> (r: Option<OrdersData>)
    requires
        *ev matches BrokerEvent::Fill(f) ==> f.wf(),
        *ev matches BrokerEvent::Placed(Order::Limit(o)) ==> o.wf(),
        *ev matches BrokerEvent::Amended(Order::Limit(o)) ==> o.wf(),
    ensures
        r is Some <==> spec_canonical_event(*ev),
        r matches Some(d) ==> spec_encodes(d, *ev) && d.cl_ord_id@.len() <= 0x1000 && d.sz@.len()
            <= 0x1000 && d.fill_sz@.len() <= 0x1000 && d.acc_fill_sz@.len() <= 0x1000
            && d.fill_pnl@.len() <= 0x1000,
{
    let zero: i64 = 0;
    match ev {
        BrokerEvent::Fill(f) => {
            if !(f.filled_size > 0) {
                return None;
            }
            if matches!(f.state, FillState::Live) {
                return None;
            }
            let mut cl_ord_id: Vec<u8> = Vec::new();
            format_u64(f.order_id, &mut cl_ord_id);
            proof {
                assert(cl_ord_id@ =~= spec_digits(f.order_id as int));
            }
            let mut exec_type: Vec<u8> = Vec::new();
            if matches!(f.exec_type, crate::types::ExecType::Taker) {
                exec_type.push(84);
                proof {
                    assert(exec_type@ =~= seq![84u8]);
                }
            } else {
                exec_type.push(77);
                proof {
                    assert(exec_type@ =~= seq![77u8]);
                }
            }
            Some(
                OrdersData {
                    cl_ord_id,
                    state: if matches!(f.state, FillState::Filled) {
                        OrderState::Filled
                    } else {
                        OrderState::PartiallyFilled
                    },
                    side: if f.side {
                        Side::Buy
                    } else {
                        Side::Sell
                    },
                    sz: format_scaled(f.filled_size),
                    fill_sz: format_scaled(f.filled_size),
                    acc_fill_sz: format_scaled(f.acc_filled_size),
                    fill_pnl: format_scaled(f.price),
                    cancel_source: Vec::new(),
                    amend_result: Vec::new(),
                    exec_type,
                    ord_type: OrdType::Limit,
                },
            )
        },
        BrokerEvent::Placed(order) => {
            match order {
                Order::Limit(o) => {
                    if o.filled_size != 0 {
                        return None;
                    }
                    let mut cl_ord_id: Vec<u8> = Vec::new();
                    format_u64(o.order_id, &mut cl_ord_id);
                    proof {
                        assert(cl_ord_id@ =~= spec_digits(o.order_id as int));
                    }
                    Some(
                        OrdersData {
                            cl_ord_id,
                            state: OrderState::Live,
                            side: if o.side {
                                Side::Buy
                            } else {
                                Side::Sell
                            },
                            sz: format_scaled(o.size),
                            fill_sz: format_scaled(zero),
                            acc_fill_sz: format_scaled(zero),
                            fill_pnl: format_scaled(o.price),
                            cancel_source: Vec::new(),
                            amend_result: Vec::new(),
                            exec_type: Vec::new(),
                            ord_type: OrdType::Limit,
                        },
                    )
                },
                Order::Market(_) => None,
            }
        },
        BrokerEvent::Amended(order) => {
            match order {
                Order::Limit(o) => {
                    if o.filled_size != 0 {
                        return None;
                    }
                    let mut cl_ord_id: Vec<u8> = Vec::new();
                    format_u64(o.order_id, &mut cl_ord_id);
                    proof {
                        assert(cl_ord_id@ =~= spec_digits(o.order_id as int));
                    }
                    let mut amend_result: Vec<u8> = Vec::new();
                    amend_result.push(49);
                    Some(
                        OrdersData {
                            cl_ord_id,
                            state: OrderState::Live,
                            side: if o.side {
                                Side::Buy
                            } else {
                                Side::Sell
                            },
                            sz: format_scaled(o.size),
                            fill_sz: format_scaled(zero),
                            acc_fill_sz: format_scaled(zero),
                            fill_pnl: format_scaled(o.price),
                            cancel_source: Vec::new(),
                            amend_result,
                            exec_type: Vec::new(),
                            ord_type: OrdType::Limit,
                        },
                    )
                },
                Order::Market(_) => None,
            }
        },
        BrokerEvent::Canceled(oid) => {
            let mut cl_ord_id: Vec<u8> = Vec::new();
            format_u64(*oid, &mut cl_ord_id);
            proof {
                assert(cl_ord_id@ =~= spec_digits(oid as int));
            }
            let mut cancel_source: Vec<u8> = Vec::new();
            cancel_source.push(49);
            Some(
                OrdersData {
                    cl_ord_id,
                    state: OrderState::Canceled,
                    side: Side::Buy,
                    sz: format_scaled(zero),
                    fill_sz: format_scaled(zero),
                    acc_fill_sz: format_scaled(zero),
                    fill_pnl: format_scaled(zero),
                    cancel_source,
                    amend_result: Vec::new(),
                    exec_type: Vec::new(),
                    ord_type: OrdType::Limit,
                },
            )
        },
        BrokerEvent::Data(_) => None,
    }
}

/// Round trip: a frame that encodes a canonical broker event decodes back to
/// exactly that event.
pub proof fn lemma_codec_round_trip(d: OrdersData, ev: BrokerEvent, inst: InstId)
    requires
        spec_canonical_event(ev),
        spec_encodes(d, ev),
        inst == spec_event_inst(ev, inst),
    ensures
        spec_decode_orders(d, inst) is Some,
        spec_event_from_push(spec_decode_orders(d, inst)->0) == Some(ev),
{
    let p = spec_decode_orders(d, inst)->0;
    assert(seq![77u8] != seq![84u8]) by {
        assert(seq![77u8][0] == 77u8);
        assert(seq![84u8][0] == 84u8);
    }
    match ev {
        BrokerEvent::Fill(f) => {
            assert(p.push_type is Fill);
            assert(p.order_id == f.order_id);
            if f.exec_type is Taker {
                assert(d.exec_type@ == seq![84u8]);
                assert(p.exec_type == Some(ExecType::T));
            } else {
                assert(d.exec_type@ == seq![77u8]);
                assert(p.exec_type == Some(ExecType::M));
            }
        },
        BrokerEvent::Placed(Order::Limit(o)) => {
            assert(p.push_type is Placed);
        },
        BrokerEvent::Amended(Order::Limit(o)) => {
            assert(p.push_type is Amended);
        },
        BrokerEvent::Canceled(oid) => {
            assert(p.push_type is Canceled);
        },
        _ => {
        },
    }
}

/// The four venue WebSocket endpoints: the public and private channels of
/// the production and demo environments.
#[derive(Clone, Copy, PartialEq, Eq, Structural, Debug)]
pub enum OkxWsEndpoint {
    Public,
    Private,
    PublicSimu,
    PrivateSimu,
}

impl OkxWsEndpoint {
    /// Whether the endpoint requires the login handshake.
    pub fn is_private(&self) -> (r: bool)
        ensures
            r == (self is Private || self is PrivateSimu),
    {
        matches!(self, OkxWsEndpoint::Private | OkxWsEndpoint::PrivateSimu)
    }

    /// The endpoint's URL.
    pub fn url(&self) -> (r: &'static str)
        ensures
            self is Public ==> r@ == "wss://ws.okx.com:8443/ws/v5/public"@,
            self is Private ==> r@ == "wss://ws.okx.com:8443/ws/v5/private"@,
            self is PublicSimu ==> r@ == "wss://wspap.okx.com:8443/ws/v5/public"@,
            self is PrivateSimu ==> r@ == "wss://wspap.okx.com:8443/ws/v5/private"@,
    {
        match self {
            OkxWsEndpoint::Public => "wss://ws.okx.com:8443/ws/v5/public",
            OkxWsEndpoint::Private => "wss://ws.okx.com:8443/ws/v5/private",
            OkxWsEndpoint::PublicSimu => "wss://wspap.okx.com:8443/ws/v5/public",
            OkxWsEndpoint::PrivateSimu => "wss://wspap.okx.com:8443/ws/v5/private",
        }
    }
}

/// A query over the persisted history.
#[derive(Clone, Debug)]
pub struct QueryOption {
    pub instruments: Vec<InstId>,
    /// Inclusive lower bound, milliseconds.
    pub start: Option<Timestamp>,
    /// Inclusive upper bound, milliseconds.
    pub end: Option<Timestamp>,
}

impl QueryOption {
    pub fn new() -> (r: QueryOption)
        ensures
            r.instruments@.len() == 0,
            r.start is None,
            r.end is None,
    {
        QueryOption { instruments: Vec::new(), start: None, end: None }
    }

    /// Also select this instrument.
    pub fn with_instrument(self, instrument: InstId) -> (r: QueryOption)
        ensures
            r.instruments@ == self.instruments@.push(instrument),
            r.start == self.start,
            r.end == self.end,
    {
        let mut instruments = self.instruments;
        instruments.push(instrument);
        QueryOption { instruments, start: self.start, end: self.end }
    }

    /// Select the trailing window of the given length, measured back from
    /// `now`.
    pub fn with_duration(self, now: Timestamp, duration: Timestamp) -> (r: QueryOption)
        ensures
            r.start == Some(
                if now >= duration {
                    (now - duration) as u64
                } else {
                    0u64
                },
            ),
            r.end == self.end,
            r.instruments == self.instruments,
    {
        let start = if now >= duration {
            now - duration
        } else {
            0
        };
        QueryOption { instruments: self.instruments, start: Some(start), end: self.end }
    }
}

} // verus!
