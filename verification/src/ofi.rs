//! Order-flow imbalance from top-of-book changes: the integer observation
//! pipeline of the momentum signaler. Each quote yields a signed imbalance
//! contribution, the time step since the previous quote, and whether the
//! warm-up period has passed; the smoothing of those observations is the
//! caller's concern.

use vstd::prelude::*;

use crate::types::{Bbo, MAX_AMOUNT, MAX_TS, Timestamp};

verus! {

/// The order-flow imbalance a quote change contributes: size added at or
/// above the old bid counts as buying pressure, size added at or below the
/// old ask as selling pressure.
pub open spec fn spec_ofi_contribution(old_bbo: Bbo, new_bbo: Bbo) -> int {
    (if new_bbo.bid_price >= old_bbo.bid_price {
        new_bbo.bid_size as int
    } else {
        0
    }) - (if new_bbo.bid_price <= old_bbo.bid_price {
        old_bbo.bid_size as int
    } else {
        0
    }) - (if new_bbo.ask_price <= old_bbo.ask_price {
        new_bbo.ask_size as int
    } else {
        0
    }) + (if new_bbo.ask_price >= old_bbo.ask_price {
        old_bbo.ask_size as int
    } else {
        0
    })
}

/// Compute the imbalance contribution of a quote change.
pub fn ofi_contribution(old_bbo: &Bbo, new_bbo: &Bbo) -> (r: i64)
    requires
        old_bbo.wf(),
        new_bbo.wf(),
    ensures
        r == spec_ofi_contribution(*old_bbo, *new_bbo),
        -2 * MAX_AMOUNT <= r <= 2 * MAX_AMOUNT,
{
    let mut ofi: i64 = 0;
    if new_bbo.bid_price >= old_bbo.bid_price {
        ofi = ofi + new_bbo.bid_size;
    }
    if new_bbo.bid_price <= old_bbo.bid_price {
        ofi = ofi - old_bbo.bid_size;
    }
    if new_bbo.ask_price <= old_bbo.ask_price {
        ofi = ofi - new_bbo.ask_size;
    }
    if new_bbo.ask_price >= old_bbo.ask_price {
        ofi = ofi + old_bbo.ask_size;
    }
    ofi
}

/// One observation handed to the smoothing stage.
#[derive(Clone, Copy, PartialEq, Eq, Structural, Debug)]
pub struct OfiObservation {
    /// Signed imbalance contribution of this quote change.
    pub ofi: i64,
    /// Milliseconds since the previous quote (zero for out-of-order data).
    pub dt: Timestamp,
    /// Whether enough history has passed to act on a signal.
    pub warmed_up: bool,
}

/// Tracks the previous quote and the warm-up clock of the imbalance
/// signaler. The warm-up lasts the longer of the two smoothing windows; no
/// signal may be emitted until it has elapsed.
#[derive(Debug)]
pub struct OfiWindow {
    pub window_ofi: Timestamp,
    pub window_ema: Timestamp,
    pub warm_up_duration: Timestamp,
    pub first_ts: Option<Timestamp>,
    pub last_bbo: Option<Bbo>,
}

impl OfiWindow {
    pub open spec fn wf(self) -> bool {
        &&& self.warm_up_duration == if self.window_ofi >= self.window_ema {
            self.window_ofi
        } else {
            self.window_ema
        }
    &&& (self.last_bbo matches Some(b) ==> b.wf())
    &&& (self.first_ts matches Some(t) ==> t <= MAX_TS)
    &&& (self.last_bbo is Some ==> self.first_ts is Some)
    }

    pub fn new(window_ofi: Timestamp, window_ema: Timestamp) -> (r: OfiWindow)
        requires
            window_ofi <= MAX_TS,
            window_ema <= MAX_TS,
        ensures
            r.wf(),
            r.window_ofi == window_ofi,
            r.window_ema == window_ema,
            r.warm_up_duration == if window_ofi >= window_ema {
                window_ofi
            } else {
                window_ema
            },
            r.first_ts is None,
            r.last_bbo is None,
    {
        let warm_up_duration = if window_ofi >= window_ema {
            window_ofi
        } else {
            window_ema
        };
        OfiWindow { window_ofi, window_ema, warm_up_duration, first_ts: None, last_bbo: None }
    }

    /// Milliseconds since the first quote ever seen, zero before any quote
    /// or for out-of-order data.
    pub open spec fn spec_elapsed(self, ts: Timestamp) -> int {
        match self.first_ts {
            Option::Some(t) => if ts >= t {
                ts - t
            } else {
                0
            },
            Option::None => 0,
        }
    }

    /// Absorb one quote. The very first yields no observation; every later
    /// quote yields the imbalance against the previous one, the time step,
    /// and the warm-up flag, which stays false until more than the warm-up
    /// duration has elapsed since the first quote. A signaler must emit no
    /// signal while the flag is false.
    pub fn on_data(&mut self, bbo: &Bbo) -> (r: Option<OfiObservation>)
        requires
            old(self).wf(),
            bbo.wf(),
        ensures
            final (self).wf(),
            final (self).last_bbo == Some(*bbo),
            final (self).window_ofi == old(self).window_ofi,
            final (self).window_ema == old(self).window_ema,
            final (self).warm_up_duration == old(self).warm_up_duration,
            final (self).first_ts == if old(self).first_ts is Some {
                old(self).first_ts
            } else {
                Some(bbo.ts)
            },
            old(self).last_bbo is None ==> r is None,
            old(self).last_bbo matches Some(prev) ==> r == Some(
                OfiObservation {
                    ofi: spec_ofi_contribution(prev, *bbo) as i64,
                    dt: if bbo.ts >= prev.ts {
                        (bbo.ts - prev.ts) as u64
                    } else {
                        0
                    },
                    warmed_up: old(self).spec_elapsed(bbo.ts) > old(self).warm_up_duration,
                },
            ),
    {
        if self.first_ts.is_none() {
            self.first_ts = Some(bbo.ts);
        }
        let prev = match &self.last_bbo {
            Some(p) => *p,
            None => {
                self.last_bbo = Some(*bbo);
                return None;
            },
        };
        let ofi = ofi_contribution(&prev, bbo);
        let dt: Timestamp = if bbo.ts >= prev.ts {
            bbo.ts - prev.ts
        } else {
            0
        };
        let first = match &self.first_ts {
            Some(t) => *t,
            None => {
                proof {
                    assert(false);
                }
                vstd::pervasive::unreached()
            },
        };
        let elapsed: Timestamp = if bbo.ts >= first {
            bbo.ts - first
        } else {
            0
        };
        let warmed_up = elapsed > self.warm_up_duration;
        self.last_bbo = Some(*bbo);
        Some(OfiObservation { ofi, dt, warmed_up })
    }
}

} // verus!
