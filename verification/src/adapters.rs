//! Decision cores of the duplex stream adapters: the heartbeat discipline,
//! the timestamp-ordered merge, the history-then-live concatenation, the
//! reconnect send buffer, and the level-1 aggregation. The adapters' timers,
//! sockets and waking live with the host runtime; every decision they take
//! is a function here.

use std::collections::VecDeque;

use vstd::prelude::*;

use crate::types::{Bbo, MAX_AMOUNT, MAX_CASH, Timestamp, Trade, add_cash, clamp_spec, mul_i64};
use crate::wire::Data;

verus! {

/// What the heartbeat wrapper does in response to one happening.
#[derive(Clone, PartialEq, Eq, Debug)]
pub enum HeartbeatAction {
    /// Send the ping frame and start awaiting the pong.
    SendPing,
    /// The peer is dead: terminate the stream.
    Terminate,
    /// Hand the frame through to the consumer.
    Deliver(Vec<u8>),
    /// Nothing to do (a pong was consumed, or no pong was pending).
    Ignore,
}

/// The heartbeat discipline over a duplex connection: after `interval` of
/// silence send a ping and await a pong within `timeout`; any inbound frame
/// counts as life.
#[derive(Clone, Copy, PartialEq, Eq, Structural, Debug)]
pub struct Heartbeat {
    pub is_started: bool,
    pub is_waiting_pong: bool,
}

impl Heartbeat {
    pub fn new() -> (r: Heartbeat)
        ensures
            !r.is_started,
            !r.is_waiting_pong,
    {
        Heartbeat { is_started: false, is_waiting_pong: false }
    }

    /// First pull: arm the ping timer.
    pub fn on_first_poll(&mut self)
        ensures
            final (self).is_started,
            final (self).is_waiting_pong == old(self).is_waiting_pong,
    {
        self.is_started = true;
    }

    /// The ping timer elapsed: send a ping and start awaiting the pong.
    pub fn on_ping_due(&mut self) -> (r: HeartbeatAction)
        ensures
            r == HeartbeatAction::SendPing,
            final (self).is_waiting_pong,
            final (self).is_started == old(self).is_started,
    {
        self.is_waiting_pong = true;
        HeartbeatAction::SendPing
    }

    /// The pong timer elapsed: if a pong is still pending the peer is dead.
    pub fn on_pong_timeout(&self) -> (r: HeartbeatAction)
        ensures
            r == if self.is_waiting_pong {
                HeartbeatAction::Terminate
            } else {
                HeartbeatAction::Ignore
            },
    {
        if self.is_waiting_pong {
            HeartbeatAction::Terminate
        } else {
            HeartbeatAction::Ignore
        }
    }

    /// An inbound frame arrived: it proves the peer alive (clearing any
    /// pending pong); a pong frame is consumed silently, anything else is
    /// handed through unchanged.
    pub fn on_inbound(&mut self, frame: Vec<u8>) -> (r: HeartbeatAction)
        ensures
            !final (self).is_waiting_pong,
            final (self).is_started == old(self).is_started,
            frame@ == spec_pong_frame() ==> r == HeartbeatAction::Ignore,
            frame@ != spec_pong_frame() ==> r == HeartbeatAction::Deliver(frame),
    {
        self.is_waiting_pong = false;
        if frame.len() == 4 && frame[0] == 112 && frame[1] == 111 && frame[2] == 110 && frame[3]
            == 103 {
            proof {
                assert(frame@ =~= spec_pong_frame());
            }
            HeartbeatAction::Ignore
        } else {
            proof {
                if frame@ == spec_pong_frame() {
                    assert(frame@.len() == 4 && frame@[0] == 112 && frame@[1] == 111 && frame@[2]
                        == 110 && frame@[3] == 103);
                }
            }
            HeartbeatAction::Deliver(frame)
        }
    }
}

/// The pong frame's bytes.
pub open spec fn spec_pong_frame() -> Seq<u8> {
    seq![112u8, 111u8, 110u8, 103u8]
}

/// The timestamp a merged item carries.
pub open spec fn spec_data_ts(d: Data) -> int {
    match d {
        Data::Trade(t) => t.ts as int,
        Data::Bbo(b) => b.ts as int,
        Data::Order(_) => 0,
    }
}

/// Merges a quote stream and a trade stream into one stream ordered by
/// timestamp, ties going to the quote side; one item of lookahead per side.
#[derive(Clone, Debug)]
pub struct TsStreamMerger {
    pub buffer1: Option<Bbo>,
    pub buffer2: Option<Trade>,
    pub stream1_ended: bool,
    pub stream2_ended: bool,
}

impl TsStreamMerger {
    pub fn new() -> (r: TsStreamMerger)
        ensures
            r.buffer1 is None,
            r.buffer2 is None,
            !r.stream1_ended,
            !r.stream2_ended,
    {
        TsStreamMerger { buffer1: None, buffer2: None, stream1_ended: false, stream2_ended: false }
    }

    /// Must the quote side be polled before an item can be emitted?
    pub fn needs_first(&self) -> (r: bool)
        ensures
            r == (self.buffer1 is None && !self.stream1_ended),
    {
        self.buffer1.is_none() && !self.stream1_ended
    }

    /// Must the trade side be polled before an item can be emitted?
    pub fn needs_second(&self) -> (r: bool)
        ensures
            r == (self.buffer2 is None && !self.stream2_ended),
    {
        self.buffer2.is_none() && !self.stream2_ended
    }

    /// Hand in the quote side's poll result: an item fills the lookahead
    /// slot, the end of the stream is remembered.
    pub fn feed_first(&mut self, item: Option<Bbo>)
        requires
            old(self).buffer1 is None,
        ensures
            final (self).buffer1 == item,
            final (self).stream1_ended == (old(self).stream1_ended || item is None),
            final (self).buffer2 == old(self).buffer2,
            final (self).stream2_ended == old(self).stream2_ended,
    {
        match item {
            Some(b) => {
                self.buffer1 = Some(b);
            },
            None => {
                self.stream1_ended = true;
            },
        }
    }

    /// Hand in the trade side's poll result.
    pub fn feed_second(&mut self, item: Option<Trade>)
        requires
            old(self).buffer2 is None,
        ensures
            final (self).buffer2 == item,
            final (self).stream2_ended == (old(self).stream2_ended || item is None),
            final (self).buffer1 == old(self).buffer1,
            final (self).stream1_ended == old(self).stream1_ended,
    {
        match item {
            Some(t) => {
                self.buffer2 = Some(t);
            },
            None => {
                self.stream2_ended = true;
            },
        }
    }

    /// Emit the earlier of the two buffered items, the quote side winning
    /// ties; nothing once both streams have ended and drained.
    pub fn pop(&mut self) -> (r: Option<Data>)
        requires
            old(self).buffer1 is None ==> old(self).stream1_ended,
            old(self).buffer2 is None ==> old(self).stream2_ended,
        ensures
            final (self).stream1_ended == old(self).stream1_ended,
            final (self).stream2_ended == old(self).stream2_ended,
            old(self).buffer1 matches Some(b) ==> (old(self).buffer2 matches Some(t) ==> if b.ts
                <= t.ts {
                r == Some(Data::Bbo(b)) && final (self).buffer1 is None && final (self).buffer2
                    == old(self).buffer2
            } else {
                r == Some(Data::Trade(t)) && final (self).buffer2 is None && final (self).buffer1
                    == old(self).buffer1
            }),
            old(self).buffer2 is None ==> (old(self).buffer1 matches Some(b) ==> r == Some(
                Data::Bbo(b),
            ) && final (self).buffer1 is None),
            old(self).buffer1 is None ==> (old(self).buffer2 matches Some(t) ==> r == Some(
                Data::Trade(t),
            ) && final (self).buffer2 is None),
            old(self).buffer1 is None && old(self).buffer2 is None ==> r is None && *final (self)
                == *old(self),
    {
        let first_wins: bool = match (&self.buffer1, &self.buffer2) {
            (Some(b), Some(t)) => b.ts <= t.ts,
            (Some(_), None) => true,
            (None, _) => false,
        };
        if first_wins {
            match self.buffer1.take() {
                Some(b) => Some(Data::Bbo(b)),
                None => {
                    proof {
                        assert(false);
                    }
                    vstd::pervasive::unreached()
                },
            }
        } else {
            match self.buffer2.take() {
                Some(t) => Some(Data::Trade(t)),
                None => None,
            }
        }
    }
}

/// History-then-live concatenation: every item of the finite historical
/// stream is emitted, then the live stream takes over; nothing is reordered
/// across the seam.
#[derive(Clone, Copy, PartialEq, Eq, Structural, Debug)]
pub struct HistoryLive {
    pub is_history_ended: bool,
}

impl HistoryLive {
    pub fn new() -> (r: HistoryLive)
        ensures
            !r.is_history_ended,
    {
        HistoryLive { is_history_ended: false }
    }

    /// Which source to poll next: history until it ends, live afterwards.
    pub fn poll_live(&self) -> (r: bool)
        ensures
            r == self.is_history_ended,
    {
        self.is_history_ended
    }

    /// The historical stream has ended; from now on only live data flows.
    pub fn on_history_end(&mut self)
        ensures
            final (self).is_history_ended,
    {
        self.is_history_ended = true;
    }
}

/// The reconnect wrapper's outbound buffer: sends are queued here and
/// drained through the live connection; an item the connection rejects goes
/// back to the head, so no queued item is lost and the order is preserved.
#[derive(Debug)]
pub struct SendBuffer<T> {
    pub items: VecDeque<T>,
}

impl<T> SendBuffer<T> {
    pub fn new() -> (r: SendBuffer<T>)
        ensures
            r.items@.len() == 0,
    {
        SendBuffer { items: VecDeque::new() }
    }

    /// Accept one outbound item at the tail.
    pub fn enqueue(&mut self, item: T)
        ensures
            final (self).items@ == old(self).items@.push(item),
    {
        self.items.push_back(item);
    }

    /// Take the oldest item for sending.
    pub fn pop_front(&mut self) -> (r: Option<T>)
        ensures
            old(self).items@.len() == 0 ==> r is None && final (self).items@ == old(self).items@,
            old(self).items@.len() > 0 ==> r == Some(old(self).items@[0]) && final (self).items@
                == old(self).items@.drop_first(),
    {
        let r = self.items.pop_front();
        proof {
            if old(self).items@.len() > 0 {
                assert(self.items@ =~= old(self).items@.drop_first());
            }
        }
        r
    }

    /// Put a rejected item back at the head, to be retried after reconnect.
    pub fn requeue_front(&mut self, item: T)
        ensures
            final (self).items@ == seq![item] + old(self).items@,
    {
        self.items.push_front(item);
        proof {
            assert(self.items@ =~= seq![item] + old(self).items@);
        }
    }

    pub fn len(&self) -> (r: usize)
        ensures
            r == self.items@.len(),
    {
        self.items.len()
    }
}

/// Accumulates trade prints between quotes into level-1 data: exact volume
/// sums and the size-weighted price kept as an exact numerator.
#[derive(Clone, Copy, PartialEq, Eq, Structural, Debug)]
pub struct Level1Acc {
    /// Sum of `price * size * order_count` over the window, product units.
    pub weighted_price_num: i128,
    /// Sum of `size * order_count` over the window.
    pub volume: i128,
    pub buying_volume: i128,
    pub selling_volume: i128,
}

/// A quote together with the trading activity since the previous quote.
#[derive(Clone, Copy, PartialEq, Eq, Structural, Debug)]
pub struct Level1 {
    pub bbo: Bbo,
    pub weighted_price_num: i128,
    pub volume: i128,
    pub buying_volume: i128,
    pub selling_volume: i128,
}

impl Level1Acc {
    pub open spec fn wf(self) -> bool {
        &&& 0 <= self.weighted_price_num <= MAX_CASH
    &&& 0 <= self.volume <= MAX_CASH
    &&& 0 <= self.buying_volume <= MAX_CASH
    &&& 0 <= self.selling_volume <= MAX_CASH
    }

    pub fn new() -> (r: Level1Acc)
        ensures
            r.wf(),
            r.weighted_price_num == 0,
            r.volume == 0,
            r.buying_volume == 0,
            r.selling_volume == 0,
    {
        Level1Acc { weighted_price_num: 0, volume: 0, buying_volume: 0, selling_volume: 0 }
    }

    /// Fold one trade print into the window: its size counts once per
    /// participating order for volume and weighting, once flat for the
    /// signed flow sums.
    pub fn on_trade(&mut self, trade: &Trade)
        requires
            old(self).wf(),
            trade.wf(),
        ensures
            final (self).wf(),
            ({
                let sized = trade.size * trade.order_count;
                &&& final (self).volume == clamp_spec(
                    old(self).volume + sized,
                    MAX_CASH as int,
                )
            &&& final (self).weighted_price_num == clamp_spec(
                    old(self).weighted_price_num + trade.price * sized,
                    MAX_CASH as int,
                )
            &&& final (self).buying_volume == if trade.side {
                    clamp_spec(old(self).buying_volume + trade.size, MAX_CASH as int)
                } else {
                    old(self).buying_volume as int
                }
            &&& final (self).selling_volume == if !trade.side {
                    clamp_spec(old(self).selling_volume + trade.size, MAX_CASH as int)
                } else {
                    old(self).selling_volume as int
                }
            }),
    {
        let sized: i128 = mul_i64(trade.size, trade.order_count as i64);
        proof {
            vstd::arithmetic::mul::lemma_mul_nonnegative(
                trade.size as int,
                trade.order_count as int,
            );
            vstd::arithmetic::mul::lemma_mul_upper_bound(
                trade.size as int,
                MAX_AMOUNT as int,
                trade.order_count as int,
                0x10000,
            );
            vstd::arithmetic::mul::lemma_mul_nonnegative(trade.price as int, sized as int);
            vstd::arithmetic::mul::lemma_mul_upper_bound(
                trade.price as int,
                MAX_AMOUNT as int,
                sized as int,
                MAX_AMOUNT as int * 0x10000,
            );
            vstd::arithmetic::mul::lemma_mul_is_associative(
                trade.price as int,
                trade.size as int,
                trade.order_count as int,
            );
        }
        self.volume = add_cash(self.volume, sized);
        let weighted: i128 = (trade.price as i128) * sized;
        self.weighted_price_num = add_cash(self.weighted_price_num, weighted);
        if trade.side {
            self.buying_volume = add_cash(self.buying_volume, trade.size as i128);
        } else {
            self.selling_volume = add_cash(self.selling_volume, trade.size as i128);
        }
    }

    /// A quote arrived: snapshot the window into a level-1 record and reset
    /// every accumulator, so the next record counts only the activity since
    /// this quote.
    pub fn on_bbo(&mut self, bbo: Bbo) -> (r: Level1)
        requires
            old(self).wf(),
        ensures
            final (self).wf(),
            r == (Level1 {
                bbo,
                weighted_price_num: old(self).weighted_price_num,
                volume: old(self).volume,
                buying_volume: old(self).buying_volume,
                selling_volume: old(self).selling_volume,
            }),
            final (self).weighted_price_num == 0,
            final (self).volume == 0,
            final (self).buying_volume == 0,
            final (self).selling_volume == 0,
    {
        let r = Level1 {
            bbo,
            weighted_price_num: self.weighted_price_num,
            volume: self.volume,
            buying_volume: self.buying_volume,
            selling_volume: self.selling_volume,
        };
        self.weighted_price_num = 0;
        self.volume = 0;
        self.buying_volume = 0;
        self.selling_volume = 0;
        r
    }
}

} // verus!
