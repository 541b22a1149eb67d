//! The equity-curve reporter: samples a running portfolio value into
//! fixed-width time bins, holding the last value over bins in which nothing
//! happened.

use vstd::prelude::*;

use crate::types::{MAX_TS, Timestamp};

verus! {

/// One sampled point of the equity curve, in product units of value.
#[derive(Clone, Copy, PartialEq, Eq, Structural, Debug)]
pub struct Record {
    pub ts: Timestamp,
    pub value: i128,
}

impl Record {
    pub fn new(ts: Timestamp, value: i128) -> (r: Record)
        ensures
            r == (Record { ts, value }),
    {
        Record { ts, value }
    }
}

/// Bins portfolio values to a fixed frequency. Between the first `insert`
/// and `end`, one value is buffered; a bin whose boundary is passed emits the
/// value last seen before it.
#[derive(Debug)]
pub struct Reporter {
    pub value_history: Vec<Record>,
    pub frequency: u64,
    /// Boundary of the most recently completed bin.
    pub last_ts_bin: Timestamp,
    pub value_buf: i128,
    pub is_initialized: bool,
    pub is_end: bool,
}

impl Reporter {
    /// The reporter's standing invariant. In particular the emitted history
    /// is strictly increasing in time, with consecutive records exactly one
    /// `frequency` apart.
    pub open spec fn wf(self) -> bool {
        &&& 1 <= self.frequency <= MAX_TS
    &&& (!self.is_end ==> self.last_ts_bin <= MAX_TS)
    &&& (!self.is_initialized && !self.is_end ==> self.value_history@.len() == 0)
    &&& forall|i: int|
            0 <= i && i + 1 < self.value_history@.len() ==> (#[trigger] self.value_history@[i
                + 1]).ts == self.value_history@[i].ts + self.frequency
    &&& (self.is_initialized && !self.is_end && self.value_history@.len() > 0
            ==> self.value_history@.last().ts == self.last_ts_bin)
    }

    pub fn new(frequency: u64) -> (r: Reporter)
        requires
            1 <= frequency <= MAX_TS,
        ensures
            r.wf(),
            r.frequency == frequency,
            !r.is_initialized,
            !r.is_end,
            r.value_history@.len() == 0,
    {
        Reporter {
            value_history: Vec::new(),
            frequency,
            last_ts_bin: 0,
            value_buf: 0,
            is_initialized: false,
            is_end: false,
        }
    }

    /// Emit the buffered value at the next bin boundary and advance the bin.
    fn pub_buf_record(&mut self)
        requires
            old(self).wf(),
            old(self).is_initialized,
            !old(self).is_end,
            old(self).last_ts_bin + old(self).frequency <= MAX_TS,
        ensures
            final (self).wf(),
            final (self).value_history@ == old(self).value_history@.push(
                Record {
                    ts: (old(self).last_ts_bin + old(self).frequency) as u64,
                    value: old(self).value_buf,
                },
            ),
            final (self).last_ts_bin == old(self).last_ts_bin + old(self).frequency,
            final (self).frequency == old(self).frequency,
            final (self).value_buf == old(self).value_buf,
            final (self).is_initialized,
            !final (self).is_end,
    {
        let new_ts_bin: u64 = self.last_ts_bin + self.frequency;
        let new_record = Record::new(new_ts_bin, self.value_buf);
        self.value_history.push(new_record);
        self.last_ts_bin = new_ts_bin;
        proof {
            let h = self.value_history@;
            let prev = old(self).value_history@;
            assert forall|i: int| 0 <= i && i + 1 < h.len() implies (#[trigger] h[i + 1]).ts == h[i].ts
                + self.frequency by {
                if i + 1 < h.len() - 1 {
                    assert(h[i + 1] == prev[i + 1]);
                    assert(h[i] == prev[i]);
                } else {
                    assert(h[i] == prev[i]);
                    assert(prev[prev.len() - 1] == prev.last());
                }
            }
        }
    }

    /// Record `value` at time `ts`.
    ///
    /// The first call fixes the bin grid to `ts` rounded down to a boundary
    /// and buffers the value. A later call inside the current bin only
    /// replaces the buffer (two values in one bin keep the latest). A call
    /// past the current bin first emits one record per completed bin, each
    /// carrying the previously buffered value. A timestamp below the current
    /// bin boundary is an invariant violation, fatal by design: callers must
    /// rule it out.
    pub fn insert(&mut self, ts: Timestamp, value: i128)
        requires
            old(self).wf(),
            !old(self).is_end,
            ts <= MAX_TS,
            old(self).is_initialized ==> ts >= old(self).last_ts_bin,
        ensures
            final (self).wf(),
            final (self).last_ts_bin <= ts,
            final (self).is_initialized,
            !final (self).is_end,
            final (self).value_buf == value,
            final (self).frequency == old(self).frequency,
            !old(self).is_initialized ==> {
                &&& final (self).value_history@ == old(self).value_history@
            &&& final (self).last_ts_bin == (ts as int / old(self).frequency as int) * old(
                    self,
                ).frequency as int
            },
            old(self).is_initialized && ts <= old(self).last_ts_bin + old(self).frequency ==> {
                &&& final (self).value_history@ == old(self).value_history@
            &&& final (self).last_ts_bin == old(self).last_ts_bin
            },
            old(self).is_initialized && ts > old(self).last_ts_bin + old(self).frequency ==> {
                let n = old(self).value_history@.len() as int;
                &&& final (self).value_history@.len() > n
            &&& final (self).last_ts_bin < ts <= final (self).last_ts_bin + old(self).frequency
            &&& final (self).last_ts_bin == final (self).value_history@.last().ts
            &&& final (self).value_history@[n].ts == old(self).last_ts_bin + old(self).frequency
            &&& (forall|i: int|
                    0 <= i < n ==> (#[trigger] final (self).value_history@[i]) == old(
                        self,
                    ).value_history@[i])
            &&& (forall|i: int|
                    n <= i < final (self).value_history@.len() ==> (#[trigger] final (
                    self).value_history@[i]).value == old(self).value_buf)
            },
    {
        if !self.is_initialized {
            proof {
                crate::types::lemma_div_mul_le(ts as int, self.frequency as int);
            }
            self.last_ts_bin = (ts / self.frequency) * self.frequency;
            self.value_buf = value;
            self.is_initialized = true;
            return ;
        }
        if ts > self.last_ts_bin + self.frequency {
            let ghost old_hist = self.value_history@;
            let ghost old_bin = self.last_ts_bin;
            let ghost old_buf = self.value_buf;
            let ghost f = self.frequency;
            while self.last_ts_bin + self.frequency < ts
                invariant
                    self.wf(),
                    self.is_initialized,
                    !self.is_end,
                    ts <= MAX_TS,
                    self.frequency == f,
                    self.value_buf == old_buf,
                    self.last_ts_bin < ts,
                    old_bin <= self.last_ts_bin,
                    self.value_history@.len() >= old_hist.len(),
                    self.value_history@.len() > old_hist.len() ==> self.last_ts_bin
                        == self.value_history@.last().ts,
                    self.value_history@.len() == old_hist.len() ==> self.last_ts_bin == old_bin,
                    self.value_history@.len() > old_hist.len()
                        ==> self.value_history@[old_hist.len() as int].ts == old_bin + f,
                    forall|i: int|
                        0 <= i < old_hist.len() ==> (#[trigger] self.value_history@[i])
                            == old_hist[i],
                    forall|i: int|
                        old_hist.len() <= i < self.value_history@.len() ==> (
                        #[trigger] self.value_history@[i]).value == old_buf,
                decreases ts - self.last_ts_bin,
            {
                self.pub_buf_record();
            }
        }
        self.value_buf = value;
    }

    /// Emit the buffered value at the bin after the last boundary, exactly
    /// once: a second call is a no-op.
    pub fn end(&mut self)
        requires
            old(self).wf(),
        ensures
            final (self).wf(),
            final (self).is_end,
            old(self).is_end ==> *final (self) == *old(self),
            !old(self).is_end ==> final (self).value_history@ == old(self).value_history@.push(
                Record {
                    ts: (old(self).last_ts_bin + old(self).frequency) as u64,
                    value: old(self).value_buf,
                },
            ),
            final (self).is_initialized == old(self).is_initialized,
            final (self).frequency == old(self).frequency,
            final (self).value_buf == old(self).value_buf,
            final (self).last_ts_bin == old(self).last_ts_bin,
    {
        if self.is_end {
            return ;
        }
        self.is_end = true;
        let new_ts_bin: u64 = self.last_ts_bin + self.frequency;
        let record = Record::new(new_ts_bin, self.value_buf);
        self.value_history.push(record);
        proof {
            let h = self.value_history@;
            let prev = old(self).value_history@;
            assert forall|i: int| 0 <= i && i + 1 < h.len() implies (#[trigger] h[i + 1]).ts == h[i].ts
                + self.frequency by {
                if i + 1 < h.len() - 1 {
                    assert(h[i + 1] == prev[i + 1]);
                    assert(h[i] == prev[i]);
                } else {
                    assert(h[i] == prev[i]);
                    if prev.len() > 0 {
                        assert(prev[prev.len() - 1] == prev.last());
                    }
                }
            }
        }
    }

    /// The most recently emitted value, if any record exists yet.
    pub fn last_value(&self) -> (r: Option<i128>)
        ensures
            match r {
                Some(v) => self.value_history@.len() > 0 && v == self.value_history@.last().value,
                None => self.value_history@.len() == 0,
            },
    {
        if self.value_history.len() > 0 {
            Some(self.value_history[self.value_history.len() - 1].value)
        } else {
            None
        }
    }
}

/// The emitted history is strictly monotone in time: any later record has a
/// strictly larger timestamp, exactly `frequency` per step.
pub proof fn lemma_history_strictly_monotone(r: Reporter, i: int, j: int)
    requires
        r.wf(),
        0 <= i < j < r.value_history@.len(),
    ensures
        r.value_history@[j].ts == r.value_history@[i].ts + (j - i) * r.frequency,
        r.value_history@[i].ts < r.value_history@[j].ts,
    decreases j - i,
{
    if j == i + 1 {
        assert(r.value_history@[i + 1].ts == r.value_history@[i].ts + r.frequency);
        vstd::arithmetic::mul::lemma_mul_basics(r.frequency as int);
        vstd::arithmetic::mul::lemma_mul_is_commutative(r.frequency as int, 1);
    } else {
        lemma_history_strictly_monotone(r, i, j - 1);
        assert(r.value_history@[(j - 1) + 1].ts == r.value_history@[j - 1].ts + r.frequency);
        vstd::arithmetic::mul::lemma_mul_is_distributive_add_other_way(
            r.frequency as int,
            j - 1 - i,
            1,
        );
        vstd::arithmetic::mul::lemma_mul_basics(r.frequency as int);
        vstd::arithmetic::mul::lemma_mul_is_commutative(r.frequency as int, 1);
        vstd::arithmetic::mul::lemma_mul_strictly_positive(j - i, r.frequency as int);
    }
}

} // verus!
