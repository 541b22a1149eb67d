//! The strategy engine's pairing: a signaler reads market data and emits
//! long/short/none, an executor turns signals into order management. Every
//! broker event first updates the executor's state; a data event then asks
//! the signaler for a signal and acts on it.

use vstd::prelude::*;

use crate::executor::NaiveLimitExecutor;
use crate::types::{Bbo, BrokerEvent, ClientEvent, Signal};

verus! {

/// A signal source: reads one datum at a time and may emit an entry signal.
/// Implementations carry their own state; nothing is promised about which
/// signal comes back, so everything downstream holds for every answer.
pub trait Signaler {
    fn on_data(&mut self, bbo: &Bbo) -> Option<Signal>;
}

/// What one usable data event makes the executor emit, for a given signal:
/// the cached quote is replaced first, then the working order is reconciled
/// against the signal's target unless the executor is cooling.
pub open spec fn spec_strategy_events(
    executor: NaiveLimitExecutor,
    bbo: Bbo,
    signal: Option<Signal>,
) -> Seq<ClientEvent> {
    let mid = NaiveLimitExecutor { bbo: Some(bbo), ..executor };
    if mid.spec_cooling() {
        Seq::empty()
    } else {
        let (raw, price) = mid.spec_target_order(signal);
        mid.spec_reconcile(raw, price).0
    }
}

/// A signaler wired to an executor: the cooperative strategy the engine
/// drives one broker event at a time.
pub struct SignalExecuteStrategy<Sg> {
    pub signaler: Sg,
    pub executor: NaiveLimitExecutor,
}

impl<Sg: Signaler> SignalExecuteStrategy<Sg> {
    pub open spec fn wf(self) -> bool {
        self.executor.wf()
    }

    pub fn new(signaler: Sg, executor: NaiveLimitExecutor) -> (r: SignalExecuteStrategy<Sg>)
        requires
            executor.wf(),
        ensures
            r.executor == executor,
            r.wf(),
    {
        SignalExecuteStrategy { signaler, executor }
    }

    /// Serve one broker event: the executor absorbs it, and every data event
    /// is handed to the signaler, whose signal (none is promised about
    /// which) drives the order reconciliation. Fills and acknowledgements
    /// emit nothing; so does a data event whose quote is one-sided or that
    /// arrives with the identifier counter exhausted — the signaler still
    /// sees the datum, only the executor's action is suppressed.
    pub fn on_event(&mut self, broker_event: &BrokerEvent) -> (r: Vec<ClientEvent>)
        requires
            old(self).wf(),
            *broker_event matches BrokerEvent::Data(b) ==> b.wf(),
            *broker_event matches BrokerEvent::Fill(f) ==> f.wf(),
        ensures
            final (self).wf(),
            !(*broker_event matches BrokerEvent::Data(_)) ==> r@ == Seq::<ClientEvent>::empty(),
            *broker_event matches BrokerEvent::Data(b) ==> final (self).executor.bbo == Some(b),
            *broker_event matches BrokerEvent::Data(b) ==> ((b.bid_price > 0 && b.ask_price > 0
                && old(self).executor.next_order_id_body + 1 < 0x1_0000_0000_0000) ==> exists|
                sig: Option<Signal>,
            | r@ == #[trigger] spec_strategy_events(old(self).executor, b, sig)),
            *broker_event matches BrokerEvent::Data(b) ==> (!(b.bid_price > 0 && b.ask_price > 0
                && old(self).executor.next_order_id_body + 1 < 0x1_0000_0000_0000) ==> r@
                == Seq::<ClientEvent>::empty()),
            *broker_event matches BrokerEvent::Fill(f) ==> {
                &&& final (self).executor.position.size == crate::types::clamp_spec(
                    old(self).executor.position.size + f.signed_size(),
                    crate::types::MAX_POSITION as int,
                )
            &&& final (self).executor.bbo == old(self).executor.bbo
            },
    {
        self.executor.update(broker_event);
        if let BrokerEvent::Data(bbo) = broker_event {
            let signal = self.signaler.on_data(bbo);
            if bbo.bid_price <= 0 || bbo.ask_price <= 0 {
                return Vec::new();
            }
            if self.executor.next_order_id_body + 1 >= 0x1_0000_0000_0000 {
                return Vec::new();
            }
            let events = self.executor.on_signal(signal);
            proof {
                assert(events@ == spec_strategy_events(old(self).executor, *bbo, signal));
            }
            events
        } else {
            Vec::new()
        }
    }
}

} // verus!
