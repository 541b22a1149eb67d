//! Positions and the portfolio: the signed inventory per instrument, updated
//! exclusively by fills.

use vstd::prelude::*;

use crate::types::{
    Fill, InstId, MAX_AMOUNT, MAX_POSITION, UNIT_DIGITS, add_position_size, clamp_spec, mul_i64,
    pow10, pow10_spec,
};

verus! {

/// A signed holding in one instrument: positive is long, negative short.
#[derive(Clone, Copy, PartialEq, Eq, Structural, Debug)]
pub struct Position {
    pub size: i64,
}

impl Position {
    pub open spec fn wf(self) -> bool {
        -MAX_POSITION <= self.size <= MAX_POSITION
    }

    pub fn new(size: i64) -> (r: Position)
        requires
            -MAX_POSITION <= size <= MAX_POSITION,
        ensures
            r.size == size,
            r.wf(),
    {
        Position { size }
    }

    pub fn size(&self) -> (r: i64)
        ensures
            r == self.size,
    {
        self.size
    }

    /// A position finer than one size step counts as flat.
    pub fn is_clear(&self, size_digits: u32) -> (r: bool)
        requires
            self.wf(),
            size_digits <= UNIT_DIGITS,
        ensures
            r == (crate::types::abs_i64_spec(self.size) < pow10_spec(
                (UNIT_DIGITS - size_digits) as nat,
            )),
    {
        let step: i64 = pow10(UNIT_DIGITS - size_digits);
        if self.size >= 0 {
            self.size < step
        } else {
            -self.size < step
        }
    }

    /// Fold one fill into the holding: buys add, sells subtract.
    pub fn update(&mut self, fill: &Fill)
        requires
            old(self).wf(),
            fill.wf(),
        ensures
            final (self).size == clamp_spec(
                old(self).size + fill.signed_size(),
                MAX_POSITION as int,
            ),
            final (self).wf(),
    {
        let delta: i64 = if fill.side {
            fill.filled_size
        } else {
            -fill.filled_size
        };
        self.size = add_position_size(self.size, delta);
    }
}

/// What one fill does to a per-instrument size ledger, before any cap.
pub open spec fn apply_fill_spec(sizes: Map<InstId, int>, fill: Fill) -> Map<InstId, int> {
    sizes.insert(
        fill.instrument_id,
        (if sizes.dom().contains(fill.instrument_id) {
            sizes[fill.instrument_id]
        } else {
            0
        }) + fill.signed_size(),
    )
}

/// The signed sum of the executed quantities of `fills` for `id`.
pub open spec fn signed_fill_sum(fills: Seq<Fill>, id: InstId) -> int
    decreases fills.len(),
{
    if fills.len() == 0 {
        0
    } else {
        signed_fill_sum(fills.drop_last(), id) + if fills.last().instrument_id == id {
            fills.last().signed_size()
        } else {
            0
        }
    }
}

/// Folding a sequence of fills into a ledger.
pub open spec fn apply_fills_spec(sizes: Map<InstId, int>, fills: Seq<Fill>) -> Map<InstId, int>
    decreases fills.len(),
{
    if fills.len() == 0 {
        sizes
    } else {
        apply_fill_spec(apply_fills_spec(sizes, fills.drop_last()), fills.last())
    }
}

pub open spec fn ledger_get(sizes: Map<InstId, int>, id: InstId) -> int {
    if sizes.dom().contains(id) {
        sizes[id]
    } else {
        0
    }
}

/// After any sequence of fills, the ledger's size for an instrument equals
/// the signed sum of the executed fills for that instrument.
pub proof fn lemma_portfolio_tracks_fills(sizes: Map<InstId, int>, fills: Seq<Fill>, id: InstId)
    ensures
        ledger_get(apply_fills_spec(sizes, fills), id) == ledger_get(sizes, id) + signed_fill_sum(
            fills,
            id,
        ),
    decreases fills.len(),
{
    if fills.len() > 0 {
        lemma_portfolio_tracks_fills(sizes, fills.drop_last(), id);
    }
}

/// The per-instrument inventory. No flat (zero) entry is retained, and each
/// instrument appears at most once.
#[derive(Clone, Debug)]
pub struct Portfolio {
    pub positions: Vec<(InstId, i64)>,
}

impl Portfolio {
    pub open spec fn wf(self) -> bool {
        &&& forall|i: int, j: int|
            0 <= i < j < self.positions@.len() ==> (#[trigger] self.positions@[i]).0 != (
            #[trigger] self.positions@[j]).0
    &&& forall|i: int|
            0 <= i < self.positions@.len() ==> (#[trigger] self.positions@[i]).1 != 0
                && -MAX_POSITION <= self.positions@[i].1 <= MAX_POSITION
    &&& self.positions@.len() <= 2
    }

    /// The size held in `id`, zero when no entry exists.
    pub open spec fn spec_size(self, id: InstId) -> int {
        if exists|i: int| 0 <= i < self.positions@.len() && (#[trigger] self.positions@[i]).0 == id {
            self.positions@[choose|i: int|
                0 <= i < self.positions@.len() && (#[trigger] self.positions@[i]).0 == id].1 as int
        } else {
            0
        }
    }

    pub fn new() -> (r: Portfolio)
        ensures
            r.wf(),
            r.positions@.len() == 0,
            forall|id: InstId| r.spec_size(id) == 0,
    {
        Portfolio { positions: Vec::new() }
    }

    fn find(&self, id: InstId) -> (r: Option<usize>)
        requires
            self.wf(),
        ensures
            match r {
                Some(i) => 0 <= i < self.positions@.len() && self.positions@[i as int].0 == id
                    && self.spec_size(id) == self.positions@[i as int].1,
                None => self.spec_size(id) == 0 && forall|i: int|
                    0 <= i < self.positions@.len() ==> (#[trigger] self.positions@[i]).0 != id,
            },
    {
        let mut i: usize = 0;
        while i < self.positions.len()
            invariant
                self.wf(),
                i <= self.positions@.len(),
                forall|j: int| 0 <= j < i ==> (#[trigger] self.positions@[j]).0 != id,
            decreases self.positions@.len() - i,
        {
            if self.positions[i].0 == id {
                proof {
                    lemma_size_at_index(*self, i as int, id);
                }
                return Some(i);
            }
            i = i + 1;
        }
        None
    }

    /// The signed size currently held in `id`.
    pub fn get_size(&self, id: InstId) -> (r: i64)
        requires
            self.wf(),
        ensures
            r == self.spec_size(id),
    {
        match self.find(id) {
            Some(i) => self.positions[i].1,
            None => 0,
        }
    }

    /// Fold one fill into the inventory; a holding driven to zero is removed.
    pub fn update(&mut self, fill: &Fill)
        requires
            old(self).wf(),
            fill.wf(),
        ensures
            final (self).wf(),
            final (self).spec_size(fill.instrument_id) == clamp_spec(
                old(self).spec_size(fill.instrument_id) + fill.signed_size(),
                MAX_POSITION as int,
            ),
            forall|id: InstId|
                id != fill.instrument_id ==> final (self).spec_size(id) == old(self).spec_size(id),
    {
        let delta: i64 = if fill.side {
            fill.filled_size
        } else {
            -fill.filled_size
        };
        let ghost old_self = *self;
        match self.find(fill.instrument_id) {
            Some(i) => {
                let cur: i64 = self.positions[i].1;
                let next: i64 = add_position_size(cur, delta);
                if next == 0 {
                    self.positions.remove(i);
                    proof {
                        lemma_removed_entry(old_self, *self, i as int, fill.instrument_id);
                    }
                } else {
                    self.positions.set(i, (fill.instrument_id, next));
                    proof {
                        lemma_replaced_entry(old_self, *self, i as int, fill.instrument_id);
                    }
                }
            },
            None => {
                let next: i64 = add_position_size(0, delta);
                if next != 0 {
                    proof {
                        if self.positions@.len() >= 2 {
                            lemma_inst_id_cases(self.positions@[0].0);
                            lemma_inst_id_cases(self.positions@[1].0);
                            lemma_inst_id_cases(fill.instrument_id);
                        }
                    }
                    self.positions.push((fill.instrument_id, next));
                    proof {
                        lemma_pushed_entry(old_self, *self, fill.instrument_id);
                    }
                }
            },
        }
    }

    /// The marked value of every holding at the given per-instrument prices,
    /// in exact product units.
    pub fn get_value(&self, prices: &Vec<(InstId, i64)>) -> (r: i128)
        requires
            self.wf(),
            forall|i: int|
                0 <= i < prices@.len() ==> 0 <= (#[trigger] prices@[i]).1 <= MAX_AMOUNT,
            self.positions@.len() <= 0x400,
        ensures
            r == spec_marked_value(self.positions@, prices@),
    {
        let mut acc: i128 = 0;
        let mut i: usize = 0;
        while i < self.positions.len()
            invariant
                self.wf(),
                forall|k: int|
                    0 <= k < prices@.len() ==> 0 <= (#[trigger] prices@[k]).1 <= MAX_AMOUNT,
                self.positions@.len() <= 0x400,
                i <= self.positions@.len(),
                acc == spec_marked_value(self.positions@.take(i as int), prices@),
                -0x400_0000_0000_0000_0000_0000 * (i as int) <= acc
                    <= 0x400_0000_0000_0000_0000_0000 * (i as int),
            decreases self.positions@.len() - i,
        {
            let (id, size) = self.positions[i];
            let price: i64 = lookup_price(prices, id);
            proof {
                lemma_price_get_bound(prices@, id);
            }
            let prod: i128 = mul_i64(size, price);
            proof {
                vstd::arithmetic::mul::lemma_mul_upper_bound(
                    crate::types::abs_i64_spec(size),
                    MAX_POSITION as int,
                    price as int,
                    MAX_AMOUNT as int,
                );
                lemma_abs_mul_bound(size as int, price as int);
                assert(self.positions@.take(i + 1).drop_last() =~= self.positions@.take(i as int));
                assert(self.positions@.take(i + 1).last() == self.positions@[i as int]);
                vstd::arithmetic::mul::lemma_mul_is_distributive_add(
                    0x400_0000_0000_0000_0000_0000,
                    i as int,
                    1,
                );
            }
            acc = acc + prod;
            i = i + 1;
        }
        proof {
            assert(self.positions@.take(self.positions@.len() as int) =~= self.positions@);
        }
        acc
    }
}

/// A price table never holds a price beyond `MAX_AMOUNT` under the callers'
/// preconditions; bounds the looked-up value even for an absent entry.
proof fn lemma_price_get_bound(prices: Seq<(InstId, i64)>, id: InstId)
    requires
        forall|k: int| 0 <= k < prices.len() ==> 0 <= (#[trigger] prices[k]).1 <= MAX_AMOUNT,
    ensures
        0 <= spec_price_get(prices, id) <= MAX_AMOUNT,
    decreases prices.len(),
{
    if prices.len() > 0 && prices[0].0 != id {
        lemma_price_get_bound(prices.drop_first(), id);
    }
}

/// `a * b` lies within `|a| * b` on both sides for non-negative `b`.
proof fn lemma_abs_mul_bound(a: int, b: int)
    requires
        b >= 0,
    ensures
        a * b <= crate::types::abs_int_spec(a) * b,
        -(crate::types::abs_int_spec(a) * b) <= a * b,
{
    if a >= 0 {
    } else {
        vstd::arithmetic::mul::lemma_mul_unary_negation(a, b);
        vstd::arithmetic::mul::lemma_mul_nonnegative(-a, b);
    }
}

/// Price for `id` in a price table, zero when absent.
pub open spec fn spec_price_get(prices: Seq<(InstId, i64)>, id: InstId) -> int
    decreases prices.len(),
{
    if prices.len() == 0 {
        0
    } else if prices[0].0 == id {
        prices[0].1 as int
    } else {
        spec_price_get(prices.drop_first(), id)
    }
}

/// Sum of `size * price` over the holdings.
pub open spec fn spec_marked_value(positions: Seq<(InstId, i64)>, prices: Seq<(InstId, i64)>) -> int
    decreases positions.len(),
{
    if positions.len() == 0 {
        0
    } else {
        spec_marked_value(positions.drop_last(), prices) + positions.last().1 * spec_price_get(
            prices,
            positions.last().0,
        )
    }
}

fn lookup_price(prices: &Vec<(InstId, i64)>, id: InstId) -> (r: i64)
    ensures
        r == spec_price_get(prices@, id),
{
    let mut i: usize = 0;
    proof {
        assert(prices@.skip(0) =~= prices@);
    }
    while i < prices.len()
        invariant
            i <= prices@.len(),
            spec_price_get(prices@, id) == spec_price_get(prices@.skip(i as int), id),
            forall|j: int| 0 <= j < i ==> (#[trigger] prices@[j]).0 != id,
        decreases prices@.len() - i,
    {
        if prices[i].0 == id {
            proof {
                assert(prices@.skip(i as int)[0] == prices@[i as int]);
            }
            return prices[i].1;
        }
        proof {
            assert(prices@.skip(i as int).drop_first() =~= prices@.skip(i + 1));
        }
        i = i + 1;
    }
    proof {
        assert(prices@.skip(prices@.len() as int).len() == 0);
    }
    0
}

proof fn lemma_removed_entry(before: Portfolio, after: Portfolio, i: int, id: InstId)
    requires
        before.wf(),
        0 <= i < before.positions@.len(),
        before.positions@[i].0 == id,
        after.positions@ == before.positions@.remove(i),
    ensures
        after.wf(),
        after.spec_size(id) == 0,
        forall|other: InstId| other != id ==> after.spec_size(other) == before.spec_size(other),
{
    assert forall|other: InstId| other != id implies after.spec_size(other) == before.spec_size(
        other,
    ) by {
        lemma_size_unaffected_remove(before, after, i, other);
    }
    assert forall|k: int|
        0 <= k < after.positions@.len() implies (#[trigger] after.positions@[k]).0
        != id by {
        if k < i {
            assert(after.positions@[k] == before.positions@[k]);
        } else {
            assert(after.positions@[k] == before.positions@[k + 1]);
        }
    }
    if exists|k: int| 0 <= k < after.positions@.len() && (#[trigger] after.positions@[k]).0 == id {
        let k = choose|k: int|
            0 <= k < after.positions@.len() && (#[trigger] after.positions@[k]).0 == id;
        assert(false);
    }
}

proof fn lemma_size_unaffected_remove(before: Portfolio, after: Portfolio, i: int, other: InstId)
    requires
        before.wf(),
        0 <= i < before.positions@.len(),
        after.positions@ == before.positions@.remove(i),
        before.positions@[i].0 != other,
    ensures
        after.spec_size(other) == before.spec_size(other),
{
    if exists|k: int|
        0 <= k < before.positions@.len() && (#[trigger] before.positions@[k]).0 == other {
        let k = choose|k: int|
            0 <= k < before.positions@.len() && (#[trigger] before.positions@[k]).0 == other;
        let k2 = if k < i {
            k
        } else {
            k - 1
        };
        assert(after.positions@[k2] == before.positions@[k]);
        lemma_size_at_index(after, k2, other);
        lemma_size_at_index(before, k, other);
    } else {
        assert forall|k: int|
            0 <= k < after.positions@.len() implies (#[trigger] after.positions@[k]).0
            != other by {
            if k < i {
                assert(after.positions@[k] == before.positions@[k]);
            } else {
                assert(after.positions@[k] == before.positions@[k + 1]);
            }
        }
    }
}

/// Every instrument identifier is one of the two listed variants.
proof fn lemma_inst_id_cases(x: InstId)
    ensures
        x is EthUsdtSwap || x is BtcUsdtSwap,
{
    match x {
        InstId::EthUsdtSwap => {
        },
        InstId::BtcUsdtSwap => {
        },
    }
}

proof fn lemma_size_at_index(p: Portfolio, i: int, id: InstId)
    requires
        p.wf(),
        0 <= i < p.positions@.len(),
        p.positions@[i].0 == id,
    ensures
        p.spec_size(id) == p.positions@[i].1,
{
    let k = choose|k: int| 0 <= k < p.positions@.len() && (#[trigger] p.positions@[k]).0 == id;
    if k != i {
        assert(false);
    }
}

proof fn lemma_replaced_entry(before: Portfolio, after: Portfolio, i: int, id: InstId)
    requires
        before.wf(),
        0 <= i < before.positions@.len(),
        before.positions@[i].0 == id,
        after.positions@ == before.positions@.update(i, (id, after.positions@[i].1)),
        after.positions@[i].1 != 0,
        -MAX_POSITION <= after.positions@[i].1 <= MAX_POSITION,
    ensures
        after.wf(),
        after.spec_size(id) == after.positions@[i].1,
        forall|other: InstId| other != id ==> after.spec_size(other) == before.spec_size(other),
{
    lemma_size_at_index(after, i, id);
    assert forall|other: InstId| other != id implies after.spec_size(other) == before.spec_size(
        other,
    ) by {
        if exists|k: int|
            0 <= k < before.positions@.len() && (#[trigger] before.positions@[k]).0 == other {
            let k = choose|k: int|
                0 <= k < before.positions@.len() && (#[trigger] before.positions@[k]).0 == other;
            lemma_size_at_index(before, k, other);
            lemma_size_at_index(after, k, other);
        }
    }
}

proof fn lemma_pushed_entry(before: Portfolio, after: Portfolio, id: InstId)
    requires
        before.wf(),
        before.positions@.len() < 2,
        forall|k: int| 0 <= k < before.positions@.len() ==> (#[trigger] before.positions@[k]).0 != id,
        after.positions@ == before.positions@.push((id, after.positions@.last().1)),
        after.positions@.last().0 == id,
        after.positions@.last().1 != 0,
        -MAX_POSITION <= after.positions@.last().1 <= MAX_POSITION,
    ensures
        after.wf(),
        after.spec_size(id) == after.positions@.last().1,
        forall|other: InstId| other != id ==> after.spec_size(other) == before.spec_size(other),
{
    let n = before.positions@.len() as int;
    lemma_size_at_index(after, n, id);
    assert forall|other: InstId| other != id implies after.spec_size(other) == before.spec_size(
        other,
    ) by {
        if exists|k: int|
            0 <= k < before.positions@.len() && (#[trigger] before.positions@[k]).0 == other {
            let k = choose|k: int|
                0 <= k < before.positions@.len() && (#[trigger] before.positions@[k]).0 == other;
            assert(after.positions@[k] == before.positions@[k]);
            lemma_size_at_index(before, k, other);
            lemma_size_at_index(after, k, other);
        }
    }
}

} // verus!
