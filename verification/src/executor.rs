//! The naive limit executor: tracks a target position derived from signals
//! and maintains at most one working limit order to reach it, with a cooling
//! interval between event batches and a holding timer that flattens the
//! position after signals go quiet.

use vstd::prelude::*;

use crate::portfolio::Position;
use crate::types::{
    AmendOrder, Bbo, BrokerEvent, ClientEvent, InstId, LimitOrder, MAX_AMOUNT, MAX_POSITION,
    MAX_TS, Order, OrderId, Signal, Timestamp, UNIT_DIGITS, abs_i64_spec, abs_int_spec,
    clamp_spec, pow10, pow10_spec, round_step_spec, round_to_step, trunc_step_spec,
};

verus! {

/// Largest notional the executor's model admits, in product units.
pub const MAX_NOTIONAL: i128 = 0x1_0000_0000_0000_0000_0000;

/// Keeps one working limit order per instance. Signals set a target
/// position; the executor places, amends or cancels its order so the working
/// quantity closes the gap between held and target position.
#[derive(Debug)]
pub struct NaiveLimitExecutor {
    pub instrument_id: InstId,
    /// Target gross notional per full position, in product units.
    pub notional: i128,
    pub size_digits: u32,
    /// One quantity step: sizes are multiples of this.
    pub size_step: i64,
    pub price_digits: u32,
    /// One price step: quoted prices are multiples of this.
    pub price_step: i64,
    /// Orders below this notional are not worth placing.
    pub notional_threshold: i128,
    /// How far beyond the touch to quote, towards aggression.
    pub price_offset: i64,
    /// Latest top of book seen.
    pub bbo: Option<Bbo>,
    pub last_signal: Option<Signal>,
    /// When the last non-empty signal arrived.
    pub last_signal_ts: Timestamp,
    /// How long a position is held after signals go quiet.
    pub holding_duration: Timestamp,
    pub last_event_ts: Timestamp,
    /// Minimum spacing between emitted event batches.
    pub event_interval: Timestamp,
    pub position: Position,
    pub placed_order: Option<LimitOrder>,
    /// Monotone counter forming the high bits of each order identifier.
    pub next_order_id_body: u64,
    /// Per-instance tag in the low 16 bits of each order identifier.
    pub order_id_offset: u64,
}

impl NaiveLimitExecutor {
    pub open spec fn wf(self) -> bool {
        &&& self.size_digits <= UNIT_DIGITS
    &&& self.price_digits <= UNIT_DIGITS
    &&& self.size_step == pow10_spec((UNIT_DIGITS - self.size_digits) as nat)
    &&& self.price_step == pow10_spec((UNIT_DIGITS - self.price_digits) as nat)
    &&& 0 <= self.notional <= MAX_NOTIONAL
    &&& self.notional_threshold == self.notional / 20
    &&& 0 <= self.price_offset <= MAX_AMOUNT
    &&& self.order_id_offset < 0x10000
    &&& self.next_order_id_body < 0x1_0000_0000_0000
    &&& self.position.wf()
    &&& (self.bbo matches Some(b) ==> b.wf())
    &&& (self.placed_order matches Some(o) ==> o.wf() && o.instrument_id == self.instrument_id
            && o.order_id % 0x10000 == self.order_id_offset)
    &&& self.holding_duration <= MAX_TS
    &&& self.event_interval <= MAX_TS
    &&& self.last_signal_ts <= MAX_TS
    &&& self.last_event_ts <= MAX_TS
    }

    pub fn new(
        instrument_id: InstId,
        notional: i128,
        size_digits: u32,
        price_digits: u32,
        price_offset: i64,
        holding_duration: Timestamp,
        event_interval: Timestamp,
        order_id_offset: u64,
    ) -> (r: NaiveLimitExecutor)
        requires
            size_digits <= UNIT_DIGITS,
            price_digits <= UNIT_DIGITS,
            0 <= notional <= MAX_NOTIONAL,
            0 <= price_offset <= MAX_AMOUNT,
            holding_duration <= MAX_TS,
            event_interval <= MAX_TS,
            order_id_offset < 0x10000,
        ensures
            r.wf(),
            r.instrument_id == instrument_id,
            r.notional == notional,
            r.size_digits == size_digits,
            r.price_digits == price_digits,
            r.size_step == pow10_spec((UNIT_DIGITS - size_digits) as nat),
            r.notional_threshold == notional / 20,
            r.price_offset == price_offset,
            r.holding_duration == holding_duration,
            r.event_interval == event_interval,
            r.order_id_offset == order_id_offset,
            r.bbo is None,
            r.placed_order is None,
            r.position.size == 0,
            r.next_order_id_body == 0,
            r.last_signal is None,
            r.last_signal_ts == 0,
            r.last_event_ts == 0,
    {
        NaiveLimitExecutor {
            instrument_id,
            notional,
            size_digits,
            size_step: pow10(UNIT_DIGITS - size_digits),
            price_digits,
            price_step: pow10(UNIT_DIGITS - price_digits),
            notional_threshold: notional / 20,
            price_offset,
            bbo: None,
            last_signal: None,
            last_signal_ts: 0,
            holding_duration,
            last_event_ts: 0,
            event_interval,
            position: Position::new(0),
            placed_order: None,
            next_order_id_body: 0,
            order_id_offset,
        }
    }

    /// Milliseconds since the last actionable signal, zero for out-of-order
    /// data.
    pub open spec fn spec_elapsed(self) -> int {
        let ts = self.bbo->0.ts;
        if ts >= self.last_signal_ts {
            ts - self.last_signal_ts
        } else {
            0
        }
    }

    /// The position a signal asks for: the notional's worth at the touch for
    /// a long or short, truncated to the quantity grid; with no signal, the
    /// held position until the holding timer expires, then flat.
    pub open spec fn spec_ideal_position(self, signal: Option<Signal>) -> int {
        match signal {
            Option::None => {
                if abs_i64_spec(self.position.size) < self.size_step {
                    self.position.size as int
                } else if self.spec_elapsed() >= self.holding_duration {
                    0
                } else {
                    self.position.size as int
                }
            },
            Option::Some(Signal::Long) => clamp_spec(
                trunc_step_spec(
                    self.notional as int / self.bbo->0.bid_price as int,
                    self.size_step as int,
                ),
                MAX_POSITION as int,
            ),
            Option::Some(Signal::Short) => -clamp_spec(
                trunc_step_spec(
                    self.notional as int / self.bbo->0.ask_price as int,
                    self.size_step as int,
                ),
                MAX_POSITION as int,
            ),
        }
    }

    fn get_ideal_position(&self, signal: Option<Signal>) -> (r: Position)
        requires
            self.wf(),
            self.bbo is Some,
            signal == Some(Signal::Long) ==> self.bbo->0.bid_price > 0,
            signal == Some(Signal::Short) ==> self.bbo->0.ask_price > 0,
        ensures
            r.size == self.spec_ideal_position(signal),
            r.wf(),
    {
        let bbo = match &self.bbo {
            Some(b) => *b,
            None => {
                proof {
                    assert(false);
                }
                vstd::pervasive::unreached()
            },
        };
        match signal {
            None => {
                if self.position.is_clear(self.size_digits) {
                    self.position
                } else {
                    let elapsed: u64 = if bbo.ts >= self.last_signal_ts {
                        bbo.ts - self.last_signal_ts
                    } else {
                        0
                    };
                    if elapsed >= self.holding_duration {
                        Position::new(0)
                    } else {
                        self.position
                    }
                }
            },
            Some(Signal::Long) => {
                proof {
                    crate::types::lemma_pow10_monotone((UNIT_DIGITS - self.size_digits) as nat, 18);
                }
                let q: i128 = self.notional / (bbo.bid_price as i128);
                proof {
                    vstd::arithmetic::div_mod::lemma_div_pos_is_pos(
                        self.notional as int,
                        bbo.bid_price as int,
                    );
                    crate::types::lemma_div_mul_le(q as int, self.size_step as int);
                }
                let qt: i128 = (q / (self.size_step as i128)) * (self.size_step as i128);
                let size: i64 = if qt > MAX_POSITION as i128 {
                    MAX_POSITION
                } else {
                    qt as i64
                };
                Position::new(size)
            },
            Some(Signal::Short) => {
                proof {
                    crate::types::lemma_pow10_monotone((UNIT_DIGITS - self.size_digits) as nat, 18);
                }
                let q: i128 = self.notional / (bbo.ask_price as i128);
                proof {
                    vstd::arithmetic::div_mod::lemma_div_pos_is_pos(
                        self.notional as int,
                        bbo.ask_price as int,
                    );
                    crate::types::lemma_div_mul_le(q as int, self.size_step as int);
                }
                let qt: i128 = (q / (self.size_step as i128)) * (self.size_step as i128);
                let size: i64 = if qt > MAX_POSITION as i128 {
                    MAX_POSITION
                } else {
                    qt as i64
                };
                Position::new(-size)
            },
        }
    }

    /// Mint the next order identifier: the counter in the high 48 bits, the
    /// instance tag in the low 16.
    fn get_next_order_id(&mut self) -> (r: OrderId)
        requires
            old(self).wf(),
            old(self).next_order_id_body + 1 < 0x1_0000_0000_0000,
        ensures
            final (self).wf(),
            r == old(self).next_order_id_body * 0x10000 + old(self).order_id_offset,
            r % 0x10000 == old(self).order_id_offset,
            final (self).next_order_id_body == old(self).next_order_id_body + 1,
            *final (self) == (NaiveLimitExecutor {
                next_order_id_body: final (self).next_order_id_body,
                ..*old(self)
            }),
    {
        let body = self.next_order_id_body;
        self.next_order_id_body = self.next_order_id_body + 1;
        proof {
            crate::types::lemma_order_id_unique(body, 0, self.order_id_offset);
        }
        crate::types::make_order_id(body, self.order_id_offset)
    }

    /// Is a fresh order at `raw_size`/`price` worth placing: distinguishable
    /// from zero on the quantity grid, within the model's bounds, and worth
    /// at least the notional threshold.
    pub open spec fn spec_wants_order(self, raw_size: int, price: int) -> bool {
        &&& abs_int_spec(raw_size) > self.size_step
    &&& abs_int_spec(raw_size) <= MAX_AMOUNT
    &&& 0 < price <= MAX_AMOUNT
    &&& abs_int_spec(raw_size) * price >= self.notional_threshold
    }

    /// The order a placement mints in the current state.
    pub open spec fn spec_new_order(self, raw_size: int, price: int) -> LimitOrder {
        LimitOrder {
            order_id: (self.next_order_id_body * 0x10000 + self.order_id_offset) as u64,
            instrument_id: self.instrument_id,
            price: price as i64,
            size: abs_int_spec(raw_size) as i64,
            filled_size: 0,
            side: raw_size > 0,
        }
    }

    /// Build a fresh order for a signed target quantity, or nothing when the
    /// quantity is negligible, out of bounds, or below the threshold.
    fn gen_order(&mut self, raw_size: i64, price: i64) -> (r: Option<LimitOrder>)
        requires
            old(self).wf(),
            old(self).next_order_id_body + 1 < 0x1_0000_0000_0000,
            raw_size > i64::MIN,
        ensures
            final (self).wf(),
            r is Some <==> old(self).spec_wants_order(raw_size as int, price as int),
            r is Some ==> r->0 == old(self).spec_new_order(raw_size as int, price as int)
                && r->0.wf() && r->0.order_id % 0x10000 == old(self).order_id_offset,
            r is Some ==> final (self).next_order_id_body == old(self).next_order_id_body + 1,
            r is None ==> *final (self) == *old(self),
            *final (self) == (NaiveLimitExecutor {
                next_order_id_body: final (self).next_order_id_body,
                ..*old(self)
            }),
    {
        let magnitude: i64 = if raw_size >= 0 {
            raw_size
        } else {
            -raw_size
        };
        if magnitude <= self.size_step {
            return None;
        }
        if magnitude > MAX_AMOUNT {
            return None;
        }
        if price <= 0 || price > MAX_AMOUNT {
            return None;
        }
        let worth: i128 = crate::types::mul_i64(magnitude, price);
        if worth < self.notional_threshold {
            return None;
        }
        let id = self.get_next_order_id();
        Some(LimitOrder::from_raw_size(raw_size, id, self.instrument_id, price))
    }

    /// The signed gap from held to target position, and the price to quote:
    /// inside the spread from the touch, shifted by the offset towards
    /// aggression, rounded to the price grid.
    pub open spec fn spec_target_order(self, signal: Option<Signal>) -> (int, int) {
        let raw = self.spec_ideal_position(signal) - self.position.size;
        let price = if raw > 0 {
            round_step_spec(
                self.bbo->0.bid_price + self.price_offset,
                self.price_step as int,
            )
        } else {
            round_step_spec(
                self.bbo->0.ask_price - self.price_offset,
                self.price_step as int,
            )
        };
        (raw, price)
    }

    fn calc_target_order_arg(&self, target_position: Position) -> (r: (i64, i64))
        requires
            self.wf(),
            self.bbo is Some,
            -MAX_POSITION <= target_position.size <= MAX_POSITION,
        ensures
            r.0 == target_position.size - self.position.size,
            r.1 == if r.0 > 0 {
                round_step_spec(
                    self.bbo->0.bid_price + self.price_offset,
                    self.price_step as int,
                )
            } else {
                round_step_spec(
                    self.bbo->0.ask_price - self.price_offset,
                    self.price_step as int,
                )
            },
    {
        let bbo = match &self.bbo {
            Some(b) => *b,
            None => {
                proof {
                    assert(false);
                }
                vstd::pervasive::unreached()
            },
        };
        proof {
            crate::types::lemma_pow10_monotone((UNIT_DIGITS - self.price_digits) as nat, 18);
            crate::types::lemma_pow10_18();
        }
        let target_order_size: i64 = target_position.size - self.position.size;
        let price: i64 = if target_order_size > 0 {
            round_to_step(bbo.bid_price + self.price_offset, self.price_step)
        } else {
            round_to_step(bbo.ask_price - self.price_offset, self.price_step)
        };
        (target_order_size, price)
    }

    /// The events reconciliation emits, the resulting working order, and how
    /// many identifiers it mints, from a signed target gap and a quote price.
    ///
    /// With no working order, place one when it is worth placing. With one
    /// working: a negligible gap cancels it; the same side re-prices or
    /// re-sizes it when the working quantity or price disagree; the opposite
    /// side cancels and, when worth it, places the reverse order.
    pub open spec fn spec_reconcile(self, raw_size: int, price: int) -> (
        Seq<ClientEvent>,
        Option<LimitOrder>,
        int,
    ) {
        match self.placed_order {
            Option::None => {
                if self.spec_wants_order(raw_size, price) {
                    let o = self.spec_new_order(raw_size, price);
                    (
                        seq![ClientEvent::PlaceOrder(Order::Limit(o))],
                        Some(o),
                        1int,
                    )
                } else {
                    (Seq::empty(), Option::<LimitOrder>::None, 0int)
                }
            },
            Option::Some(o) => {
                if abs_int_spec(raw_size) <= self.size_step {
                    (
                        seq![ClientEvent::CancelOrder(self.instrument_id, o.order_id)],
                        Option::<LimitOrder>::None,
                        0int,
                    )
                } else if (raw_size > 0) == o.side {
                    if (0 < price <= MAX_AMOUNT && abs_int_spec(raw_size) <= MAX_AMOUNT) && (
                    abs_int_spec((o.size - o.filled_size) - abs_int_spec(raw_size))
                        > self.size_step || o.price != price) {
                        (
                            seq![
                                ClientEvent::AmendOrder(
                                    AmendOrder {
                                        order_id: o.order_id,
                                        instrument_id: self.instrument_id,
                                        new_size: abs_int_spec(raw_size) as i64,
                                        new_price: price as i64,
                                    },
                                ),
                            ],
                            Some(o),
                            0int,
                        )
                    } else {
                        (Seq::empty(), Some(o), 0int)
                    }
                } else {
                    if self.spec_wants_order(raw_size, price) {
                        let n = self.spec_new_order(raw_size, price);
                        (
                            seq![
                                ClientEvent::CancelOrder(self.instrument_id, o.order_id),
                                ClientEvent::PlaceOrder(Order::Limit(n)),
                            ],
                            Some(n),
                            1int,
                        )
                    } else {
                        (
                            seq![ClientEvent::CancelOrder(self.instrument_id, o.order_id)],
                            Option::<LimitOrder>::None,
                            0int,
                        )
                    }
                }
            },
        }
    }

    fn get_event_from_target_order(&mut self, raw_size: i64, price: i64) -> (r: Vec<ClientEvent>)
        requires
            old(self).wf(),
            old(self).next_order_id_body + 1 < 0x1_0000_0000_0000,
            raw_size > i64::MIN,
        ensures
            final (self).wf(),
            ({
                let (events, order, minted) = old(self).spec_reconcile(
                    raw_size as int,
                    price as int,
                );
                &&& r@ == events
            &&& final (self).placed_order == order
            &&& final (self).next_order_id_body == old(self).next_order_id_body + minted
            &&& *final (self) == (NaiveLimitExecutor {
                    placed_order: final (self).placed_order,
                    next_order_id_body: final (self).next_order_id_body,
                    ..*old(self)
                })
            }),
    {
        let old_order = match &self.placed_order {
            Some(o) => *o,
            None => {
                let order = self.gen_order(raw_size, price);
                self.placed_order = order;
                let mut events: Vec<ClientEvent> = Vec::new();
                if let Some(o) = order {
                    events.push(ClientEvent::place_limit_order(o));
                }
                proof {
                    if old(self).spec_wants_order(raw_size as int, price as int) {
                        assert(events@ =~= old(self).spec_reconcile(
                            raw_size as int,
                            price as int,
                        ).0);
                    } else {
                        assert(events@ =~= old(self).spec_reconcile(
                            raw_size as int,
                            price as int,
                        ).0);
                    }
                }
                return events;
            },
        };
        let magnitude: i64 = if raw_size >= 0 {
            raw_size
        } else {
            -raw_size
        };
        if magnitude <= self.size_step {
            let mut events: Vec<ClientEvent> = Vec::new();
            events.push(ClientEvent::CancelOrder(self.instrument_id, old_order.order_id));
            self.placed_order = None;
            proof {
                assert(events@ =~= old(self).spec_reconcile(raw_size as int, price as int).0);
            }
            return events;
        }
        let new_side = raw_size > 0;
        if new_side == old_order.side {
            let unfilled = old_order.size - old_order.filled_size;
            let diff: i64 = if unfilled >= magnitude {
                unfilled - magnitude
            } else {
                magnitude - unfilled
            };
            let mut events: Vec<ClientEvent> = Vec::new();
            if (0 < price && price <= MAX_AMOUNT && magnitude <= MAX_AMOUNT) && (diff
                > self.size_step || old_order.price != price) {
                events.push(
                    ClientEvent::AmendOrder(
                        AmendOrder {
                            order_id: old_order.order_id,
                            instrument_id: self.instrument_id,
                            new_size: magnitude,
                            new_price: price,
                        },
                    ),
                );
            }
            proof {
                assert(events@ =~= old(self).spec_reconcile(raw_size as int, price as int).0);
            }
            events
        } else {
            let mut events: Vec<ClientEvent> = Vec::new();
            events.push(ClientEvent::CancelOrder(self.instrument_id, old_order.order_id));
            let new_order = self.gen_order(raw_size, price);
            self.placed_order = new_order;
            if let Some(o) = new_order {
                events.push(ClientEvent::place_limit_order(o));
            }
            proof {
                assert(events@ =~= old(self).spec_reconcile(raw_size as int, price as int).0);
            }
            events
        }
    }

    /// Is the executor still cooling down after its last event batch?
    pub open spec fn spec_cooling(self) -> bool {
        let ts = self.bbo->0.ts;
        ts < self.last_event_ts || ts - self.last_event_ts < self.event_interval
    }

    /// Absorb one broker event: data replaces the cached top of book; a fill
    /// moves the position and settles or shrinks the working order; order
    /// acknowledgements carry no new state.
    pub fn update(&mut self, broker_event: &BrokerEvent)
        requires
            old(self).wf(),
            *broker_event matches BrokerEvent::Data(b) ==> b.wf(),
            *broker_event matches BrokerEvent::Fill(f) ==> f.wf(),
        ensures
            final (self).wf(),
            *broker_event matches BrokerEvent::Data(b) ==> *final (self) == (NaiveLimitExecutor {
                bbo: Some(b),
                ..*old(self)
            }),
            *broker_event matches BrokerEvent::Fill(f) ==> {
                &&& final (self).position.size == clamp_spec(
                    old(self).position.size + f.signed_size(),
                    MAX_POSITION as int,
                )
            &&& final (self).placed_order == (match old(self).placed_order {
                    Option::None => Option::<LimitOrder>::None,
                    Option::Some(o) => {
                        if f.order_id != o.order_id {
                            Some(o)
                        } else if f.state is Filled {
                            Option::<LimitOrder>::None
                        } else {
                            Some(
                                LimitOrder {
                                    filled_size: if f.acc_filled_size <= o.size {
                                        f.acc_filled_size
                                    } else {
                                        o.size
                                    },
                                    ..o
                                },
                            )
                        }
                    },
                })
            &&& *final (self) == (NaiveLimitExecutor {
                    position: final (self).position,
                    placed_order: final (self).placed_order,
                    ..*old(self)
                })
            },
            !(*broker_event matches BrokerEvent::Data(_)) && !(*broker_event
                matches BrokerEvent::Fill(_)) ==> *final (self) == *old(self),
    {
        match broker_event {
            BrokerEvent::Data(b) => {
                self.bbo = Some(*b);
            },
            BrokerEvent::Fill(f) => {
                let next = match &self.placed_order {
                    Some(o) => o.fill(f),
                    None => None,
                };
                self.placed_order = next;
                self.position.update(f);
            },
            _ => {
            },
        }
    }

    /// Act on one signal tick. While cooling, the signal still updates the
    /// signal state (so the holding timer runs from the newest actionable
    /// signal) but no events are emitted; otherwise derive the target
    /// position, reconcile the working order against it, note the signal
    /// time, and start a new cooling interval if anything was emitted.
    pub fn on_signal(&mut self, signal: Option<Signal>) -> (r: Vec<ClientEvent>)
        requires
            old(self).wf(),
            old(self).next_order_id_body + 1 < 0x1_0000_0000_0000,
            old(self).bbo matches Some(b) ==> b.bid_price > 0 && b.ask_price > 0,
        ensures
            final (self).wf(),
            old(self).bbo is None ==> r@ == Seq::<ClientEvent>::empty() && *final (self) == *old(
                self,
            ),
            old(self).bbo is Some && old(self).spec_cooling() ==> ({
                &&& r@ == Seq::<ClientEvent>::empty()
            &&& final (self).last_signal == signal
            &&& final (self).last_signal_ts == if signal is Some {
                    old(self).bbo->0.ts as int
                } else {
                    old(self).last_signal_ts as int
                }
            &&& *final (self) == (NaiveLimitExecutor {
                    last_signal: signal,
                    last_signal_ts: final (self).last_signal_ts,
                    ..*old(self)
                })
            }),
            old(self).bbo is Some && !old(self).spec_cooling() ==> ({
                let (raw, price) = old(self).spec_target_order(signal);
                let (events, order, minted) = old(self).spec_reconcile(raw, price);
                &&& r@ == events
            &&& final (self).placed_order == order
            &&& final (self).next_order_id_body == old(self).next_order_id_body + minted
            &&& final (self).last_signal == signal
            &&& final (self).last_signal_ts == if signal is Some {
                    old(self).bbo->0.ts as int
                } else {
                    old(self).last_signal_ts as int
                }
            &&& final (self).last_event_ts == if events.len() > 0 {
                    old(self).bbo->0.ts as int
                } else {
                    old(self).last_event_ts as int
                }
            &&& final (self).position == old(self).position
            &&& final (self).bbo == old(self).bbo
            &&& final (self).instrument_id == old(self).instrument_id
            }),
    {
        let bbo = match &self.bbo {
            Some(b) => *b,
            None => {
                return Vec::new();
            },
        };
        if bbo.ts < self.last_event_ts || bbo.ts - self.last_event_ts < self.event_interval {
            // Cooling: the signal is still folded into the state, only the
            // output is suppressed.
            self.last_signal = signal;
            if signal.is_some() {
                self.last_signal_ts = bbo.ts;
            }
            return Vec::new();
        }
        let ideal_position = self.get_ideal_position(signal);
        let (ideal_order_size, price) = self.calc_target_order_arg(ideal_position);
        let events = self.get_event_from_target_order(ideal_order_size, price);
        self.last_signal = signal;
        if signal.is_some() {
            self.last_signal_ts = bbo.ts;
        }
        if events.len() > 0 {
            self.last_event_ts = bbo.ts;
        }
        events
    }
}

/// Order identifiers minted by one executor instance are unique (the counter
/// differs) and always carry the instance's tag in their low 16 bits.
pub proof fn lemma_executor_ids_unique(b1: u64, b2: u64, tag: u64)
    requires
        tag < 0x10000,
        b1 < 0x1_0000_0000_0000,
        b2 < 0x1_0000_0000_0000,
        b1 != b2,
    ensures
        b1 * 0x10000 + tag != b2 * 0x10000 + tag,
        (b1 * 0x10000 + tag) % 0x10000 == tag,
{
    crate::types::lemma_order_id_unique(b1, b2, tag);
}

} // verus!
