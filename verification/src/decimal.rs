//! Decimal strings on the wire: quantities and prices cross the venue
//! boundary as ASCII decimals. This module renders a fixed-point count as
//! such a string and parses one back, and proves that parsing what was
//! rendered returns the original count.

use vstd::prelude::*;

use crate::types::{MAX_AMOUNT, UNIT, UNIT_DIGITS, pow10, pow10_spec};

verus! {

pub open spec fn spec_is_digit(c: u8) -> bool {
    48 <= c <= 57
}

/// The number written by a string of digit characters, most significant
/// first.
pub open spec fn spec_digits_val(s: Seq<u8>) -> int
    decreases s.len(),
{
    if s.len() == 0 {
        0
    } else {
        spec_digits_val(s.drop_last()) * 10 + (s.last() - 48)
    }
}

pub open spec fn spec_all_digits(s: Seq<u8>) -> bool {
    forall|i: int| 0 <= i < s.len() ==> spec_is_digit(#[trigger] s[i])
}

/// Index of the first dot, or -1.
pub open spec fn spec_dot_idx(s: Seq<u8>) -> int
    decreases s.len(),
{
    if s.len() == 0 {
        -1
    } else if s[0] == 46 {
        0
    } else {
        let r = spec_dot_idx(s.drop_first());
        if r == -1 {
            -1
        } else {
            r + 1
        }
    }
}

/// A wire decimal: one or more integer digits, then optionally a dot and
/// one to six fractional digits.
pub open spec fn spec_is_decimal(s: Seq<u8>) -> bool {
    let d = spec_dot_idx(s);
    if d == -1 {
        s.len() >= 1 && spec_all_digits(s)
    } else {
        &&& d >= 1
    &&& spec_all_digits(s.take(d))
    &&& 1 <= s.len() - d - 1 <= UNIT_DIGITS
    &&& spec_all_digits(s.skip(d + 1))
    }
}

/// The count of `UNIT`ths a wire decimal denotes.
pub open spec fn spec_decimal_val(s: Seq<u8>) -> int {
    let d = spec_dot_idx(s);
    if d == -1 {
        spec_digits_val(s) * UNIT
    } else {
        let frac = s.skip(d + 1);
        spec_digits_val(s.take(d)) * UNIT + spec_digits_val(frac) * pow10_spec(
            (UNIT_DIGITS - frac.len()) as nat,
        )
    }
}

/// A digit string's value only grows as more digits are read.
proof fn lemma_digits_val_monotone(s: Seq<u8>, i: int)
    requires
        0 <= i <= s.len(),
        spec_all_digits(s),
    ensures
        spec_digits_val(s.take(i)) <= spec_digits_val(s),
        spec_digits_val(s) >= 0,
    decreases s.len() - i,
{
    if i == s.len() {
        assert(s.take(i) =~= s);
        lemma_digits_val_nonneg(s);
    } else {
        lemma_digits_val_monotone(s, i + 1);
        lemma_digits_val_nonneg(s.take(i));
        assert(s.take(i + 1).drop_last() =~= s.take(i));
        assert(s.take(i + 1).last() == s[i]);
        assert(spec_digits_val(s.take(i + 1)) == spec_digits_val(s.take(i)) * 10 + (s[i] - 48));
        assert(spec_digits_val(s.take(i)) * 10 >= spec_digits_val(s.take(i))) by (nonlinear_arith)
            requires
                spec_digits_val(s.take(i)) >= 0,
        ;
    }
}

proof fn lemma_digits_val_nonneg(s: Seq<u8>)
    requires
        spec_all_digits(s),
    ensures
        spec_digits_val(s) >= 0,
    decreases s.len(),
{
    if s.len() > 0 {
        assert forall|i: int| 0 <= i < s.drop_last().len() implies spec_is_digit(
            #[trigger] s.drop_last()[i],
        ) by {
            assert(s.drop_last()[i] == s[i]);
        }
        lemma_digits_val_nonneg(s.drop_last());
    }
}

/// Every maximal digit run starting at `from` denotes a number beyond the
/// model's bound.
pub open spec fn spec_run_overflows(s: Seq<u8>, from: int) -> bool {
    forall|end: int|
        from < end <= s.len() && spec_all_digits(#[trigger] s.subrange(from, end)) && (end < s.len()
            ==> !spec_is_digit(s[end])) ==> spec_digits_val(s.subrange(from, end)) > MAX_AMOUNT
}

/// Parse an unsigned digit run starting at `from`, stopping at the first
/// non-digit; fails on an empty run or a value beyond `MAX_AMOUNT`.
fn parse_digits(s: &[u8], from: usize) -> (r: Option<(i64, usize)>)
    requires
        from <= s@.len(),
    ensures
        r matches Some((v, end)) ==> {
            &&& from < end <= s@.len()
        &&& spec_all_digits(s@.subrange(from as int, end as int))
        &&& (end < s@.len() ==> !spec_is_digit(s@[end as int]))
        &&& v == spec_digits_val(s@.subrange(from as int, end as int))
        &&& 0 <= v <= MAX_AMOUNT
        },
        r is None ==> spec_run_overflows(s@, from as int) || (from == s@.len() || !spec_is_digit(
            s@[from as int],
        )),
{
    let mut i: usize = from;
    let mut acc: i64 = 0;
    if i >= s.len() || s[i] < 48 || s[i] > 57 {
        return None;
    }
    while i < s.len() && s[i] >= 48 && s[i] <= 57
        invariant
            from <= i <= s@.len(),
            spec_all_digits(s@.subrange(from as int, i as int)),
            acc == spec_digits_val(s@.subrange(from as int, i as int)),
            0 <= acc <= MAX_AMOUNT,
        decreases s@.len() - i,
    {
        let d: i64 = (s[i] - 48) as i64;
        proof {
            assert(s@.subrange(from as int, i + 1).drop_last() =~= s@.subrange(
                from as int,
                i as int,
            ));
            assert(s@.subrange(from as int, i + 1).last() == s@[i as int]);
        }
        let next: i128 = (acc as i128) * 10 + (d as i128);
        if next > MAX_AMOUNT as i128 {
            proof {
                let full = s@.subrange(from as int, i + 1);
                assert forall|end: int|
                    from < end <= s@.len() && spec_all_digits(
                        #[trigger] s@.subrange(from as int, end),
                    ) && (end < s@.len() ==> !spec_is_digit(s@[end])) implies spec_digits_val(
                    s@.subrange(from as int, end),
                ) > MAX_AMOUNT by {
                    if end <= i as int {
                        if end < i as int {
                            assert(s@.subrange(from as int, i as int)[end - from] == s@[end]);
                        }
                        assert(spec_is_digit(s@[end]));
                        assert(false);
                    } else {
                        let run = s@.subrange(from as int, end);
                        assert(full =~= run.take(i + 1 - from));
                        lemma_digits_val_monotone(run, i + 1 - from);
                    }
                }
            }
            return None;
        }
        acc = next as i64;
        i = i + 1;
    }
    Some((acc, i))
}

/// Parse a wire decimal into a count of `UNIT`ths.
///
/// Returns the denoted count exactly when the string has the decimal shape
/// and the count is within the model's bound, and nothing otherwise.
pub fn parse_scaled(s: &[u8]) -> (r: Option<i64>)
    requires
        s@.len() <= 0x1000,
    ensures
        r matches Some(v) ==> spec_is_decimal(s@) && v == spec_decimal_val(s@) && 0 <= v
            <= MAX_AMOUNT,
        r is None ==> !(spec_is_decimal(s@) && 0 <= spec_decimal_val(s@) <= MAX_AMOUNT),
{
    let intpart = parse_digits(s, 0);
    let (int_val, dot) = match intpart {
        Some(p) => p,
        None => {
            proof {
                lemma_parse_none_front(s@);
            }
            return None;
        },
    };
    proof {
        assert(s@.subrange(0, dot as int) =~= s@.take(dot as int));
    }
    if dot == s.len() {
        proof {
            assert(s@.take(dot as int) =~= s@);
            lemma_dot_absent(s@);
        }
        if int_val > MAX_AMOUNT / UNIT {
            proof {
                lemma_mul_ge_unit(int_val as int);
            }
            return None;
        }
        return Some(int_val * UNIT);
    }
    if s[dot] != 46 {
        proof {
            lemma_dot_is_nondigit(s@, dot as int);
        }
        return None;
    }
    proof {
        lemma_dot_at(s@, dot as int);
    }
    let fracpart = parse_digits(s, dot + 1);
    let (frac_val, end) = match fracpart {
        Some(p) => p,
        None => {
            proof {
                lemma_frac_bad(s@, dot as int);
            }
            return None;
        },
    };
    if end != s.len() {
        proof {
            lemma_frac_short(s@, dot as int, end as int);
        }
        return None;
    }
    let frac_len: usize = end - (dot + 1);
    if frac_len > 6 {
        return None;
    }
    proof {
        assert(s@.subrange(dot + 1, end as int) =~= s@.skip(dot + 1));
        crate::types::lemma_pow10_monotone((UNIT_DIGITS - frac_len) as nat, 18);
        crate::types::lemma_pow10_18();
    }
    let scale = pow10(UNIT_DIGITS - frac_len as u32);
    proof {
        crate::types::lemma_mul_i64_bound(int_val as int, UNIT as int);
        crate::types::lemma_mul_i64_bound(frac_val as int, scale as int);
        vstd::arithmetic::mul::lemma_mul_nonnegative(int_val as int, UNIT as int);
        vstd::arithmetic::mul::lemma_mul_nonnegative(frac_val as int, scale as int);
    }
    let total: i128 = (int_val as i128) * (UNIT as i128) + (frac_val as i128) * (scale as i128);
    if total > MAX_AMOUNT as i128 {
        return None;
    }
    Some(total as i64)
}

/// `v * UNIT > MAX_AMOUNT` once `v` exceeds `MAX_AMOUNT / UNIT`.
proof fn lemma_mul_ge_unit(v: int)
    requires
        v > MAX_AMOUNT / UNIT,
    ensures
        v * UNIT > MAX_AMOUNT,
{
    vstd::arithmetic::div_mod::lemma_fundamental_div_mod(MAX_AMOUNT as int, UNIT as int);
    vstd::arithmetic::div_mod::lemma_mod_division_less_than_divisor(MAX_AMOUNT as int, UNIT as int);
    vstd::arithmetic::mul::lemma_mul_inequality(MAX_AMOUNT / UNIT + 1, v, UNIT as int);
    vstd::arithmetic::mul::lemma_mul_is_distributive_add_other_way(
        UNIT as int,
        MAX_AMOUNT / UNIT,
        1,
    );
    vstd::arithmetic::mul::lemma_mul_is_commutative(MAX_AMOUNT / UNIT + 1, UNIT as int);
    vstd::arithmetic::mul::lemma_mul_is_commutative(MAX_AMOUNT / UNIT, UNIT as int);
}

/// A string whose head is no digit is no decimal, and one whose every
/// leading digit run overflows denotes a count beyond the bound.
proof fn lemma_parse_none_front(s: Seq<u8>)
    requires
        spec_run_overflows(s, 0) || (s.len() == 0 || !spec_is_digit(s[0])),
    ensures
        !(spec_is_decimal(s) && 0 <= spec_decimal_val(s) <= MAX_AMOUNT),
{
    if spec_is_decimal(s) {
        let d = spec_dot_idx(s);
        if s.len() == 0 {
        } else if !spec_is_digit(s[0]) {
            if d == -1 {
                assert(spec_is_digit(s[0]));
            } else {
                lemma_dot_idx_range(s);
                assert(s.take(d)[0] == s[0]);
                assert(spec_is_digit(s[0]));
            }
        } else {
            if d == -1 {
                lemma_dot_idx_none(s);
                assert(s.subrange(0, s.len() as int) =~= s);
                lemma_digits_val_nonneg(s);
                assert(spec_digits_val(s.subrange(0, s.len() as int)) > MAX_AMOUNT);
                lemma_mul_unit_large(spec_digits_val(s));
            } else {
                lemma_dot_idx_range(s);
                lemma_dot_idx_found(s);
                assert(s.subrange(0, d) =~= s.take(d));
                assert(!spec_is_digit(s[d]));
                assert(spec_digits_val(s.subrange(0, d)) > MAX_AMOUNT);
                lemma_digits_val_nonneg(s.take(d));
                lemma_digits_val_nonneg(s.skip(d + 1));
                vstd::arithmetic::mul::lemma_mul_nonnegative(
                    spec_digits_val(s.skip(d + 1)),
                    pow10_spec((UNIT_DIGITS - s.skip(d + 1).len()) as nat) as int,
                );
                crate::types::lemma_pow10_monotone(
                    (UNIT_DIGITS - s.skip(d + 1).len()) as nat,
                    18,
                );
                lemma_mul_unit_large(spec_digits_val(s.take(d)));
                assert(spec_digits_val(s.skip(d + 1)) * pow10_spec(
                    (UNIT_DIGITS - s.skip(d + 1).len()) as nat,
                ) >= 0);
            }
        }
    }
}

/// `v * UNIT > MAX_AMOUNT` for any `v > MAX_AMOUNT`.
proof fn lemma_mul_unit_large(v: int)
    requires
        v > MAX_AMOUNT,
    ensures
        v * UNIT > MAX_AMOUNT,
{
    vstd::arithmetic::mul::lemma_mul_increases(UNIT as int, v);
    vstd::arithmetic::mul::lemma_mul_is_commutative(v, UNIT as int);
}

/// The dot index lies within the string when non-negative, and marks a dot.
proof fn lemma_dot_idx_range(s: Seq<u8>)
    ensures
        spec_dot_idx(s) == -1 || (0 <= spec_dot_idx(s) < s.len() && s[spec_dot_idx(s)] == 46),
    decreases s.len(),
{
    if s.len() > 0 && s[0] != 46 {
        lemma_dot_idx_range(s.drop_first());
        if spec_dot_idx(s.drop_first()) != -1 {
            assert(s[spec_dot_idx(s)] == s.drop_first()[spec_dot_idx(s.drop_first())]);
        }
    }
}

/// With no dot anywhere, the dot index is -1.
proof fn lemma_dot_idx_none(s: Seq<u8>)
    requires
        forall|i: int| 0 <= i < s.len() ==> s[i] != 46,
    ensures
        spec_dot_idx(s) == -1,
    decreases s.len(),
{
    if s.len() > 0 {
        assert forall|i: int| 0 <= i < s.drop_first().len() implies s.drop_first()[i] != 46 by {
            assert(s.drop_first()[i] == s[i + 1]);
        }
        lemma_dot_idx_none(s.drop_first());
    }
}

/// The first dot is found: no earlier position holds a dot.
proof fn lemma_dot_idx_found(s: Seq<u8>)
    ensures
        spec_dot_idx(s) >= 0 ==> forall|i: int| 0 <= i < spec_dot_idx(s) ==> s[i] != 46,
    decreases s.len(),
{
    if s.len() > 0 && s[0] != 46 {
        lemma_dot_idx_found(s.drop_first());
        lemma_dot_idx_range(s.drop_first());
        let d = spec_dot_idx(s);
        if d >= 0 {
            assert forall|i: int| 0 <= i < d implies s[i] != 46 by {
                if i > 0 {
                    assert(s.drop_first()[i - 1] == s[i]);
                }
            }
        }
    }
}

/// A dot at a known position with digits before it pins the dot index.
proof fn lemma_dot_idx_at(s: Seq<u8>, d: int)
    requires
        0 <= d < s.len(),
        s[d] == 46,
        forall|i: int| 0 <= i < d ==> s[i] != 46,
    ensures
        spec_dot_idx(s) == d,
    decreases s.len(),
{
    if d > 0 {
        assert forall|i: int| 0 <= i < d - 1 implies s.drop_first()[i] != 46 by {
            assert(s.drop_first()[i] == s[i + 1]);
        }
        assert(s.drop_first()[d - 1] == s[d]);
        lemma_dot_idx_at(s.drop_first(), d - 1);
    }
}

/// When the whole string is one digit run, there is no dot.
proof fn lemma_dot_absent(s: Seq<u8>)
    requires
        spec_all_digits(s),
    ensures
        spec_dot_idx(s) == -1,
{
    assert forall|i: int| 0 <= i < s.len() implies s[i] != 46 by {
        assert(spec_is_digit(s[i]));
    }
    lemma_dot_idx_none(s);
}

/// A digit run ending at a non-dot, non-digit byte rules the shape out.
proof fn lemma_dot_is_nondigit(s: Seq<u8>, dot: int)
    requires
        0 < dot < s.len(),
        spec_all_digits(s.take(dot)),
        !spec_is_digit(s[dot]),
        s[dot] != 46,
    ensures
        !spec_is_decimal(s),
{
    if spec_is_decimal(s) {
        let d = spec_dot_idx(s);
        lemma_dot_idx_range(s);
        if d == -1 {
            assert(spec_is_digit(s[dot]));
        } else {
            if d < dot {
                assert(spec_is_digit(s.take(dot)[d]));
                assert(s.take(dot)[d] == s[d]);
            } else if d > dot {
                assert(spec_is_digit(s.skip(d + 1)[0]) || true);
                lemma_dot_idx_found(s);
                assert(spec_is_digit(s.take(d)[dot]));
                assert(s.take(d)[dot] == s[dot]);
            }
        }
    }
}

/// The found dot with digits before it is the decimal's dot.
proof fn lemma_dot_at(s: Seq<u8>, dot: int)
    requires
        0 < dot < s.len(),
        spec_all_digits(s.take(dot)),
        s[dot] == 46,
    ensures
        spec_dot_idx(s) == dot,
{
    assert forall|i: int| 0 <= i < dot implies s[i] != 46 by {
        assert(spec_is_digit(s.take(dot)[i]));
        assert(s.take(dot)[i] == s[i]);
    }
    lemma_dot_idx_at(s, dot);
}

/// A fractional part that fails to parse rules the shape or the bound out.
proof fn lemma_frac_bad(s: Seq<u8>, dot: int)
    requires
        0 < dot < s.len(),
        spec_dot_idx(s) == dot,
        spec_run_overflows(s, dot + 1) || (dot + 1 == s.len() || !spec_is_digit(s[dot + 1])),
    ensures
        !(spec_is_decimal(s) && 0 <= spec_decimal_val(s) <= MAX_AMOUNT),
{
    if spec_is_decimal(s) {
        let frac = s.skip(dot + 1);
        assert(frac.len() >= 1);
        assert(spec_is_digit(frac[0]));
        assert(frac[0] == s[dot + 1]);
        assert(s.subrange(dot + 1, s.len() as int) =~= frac);
        if 0 <= spec_decimal_val(s) <= MAX_AMOUNT {
            assert(spec_digits_val(s.subrange(dot + 1, s.len() as int)) > MAX_AMOUNT);
            lemma_digits_val_nonneg(s.take(dot));
            lemma_digits_val_nonneg(frac);
            vstd::arithmetic::mul::lemma_mul_nonnegative(
                spec_digits_val(s.take(dot)),
                UNIT as int,
            );
            crate::types::lemma_pow10_monotone((UNIT_DIGITS - frac.len()) as nat, 18);
            assert(spec_digits_val(frac) * pow10_spec((UNIT_DIGITS - frac.len()) as nat)
                >= spec_digits_val(frac)) by (nonlinear_arith)
                requires
                    spec_digits_val(frac) >= 0,
                    pow10_spec((UNIT_DIGITS - frac.len()) as nat) >= 1,
            ;
        }
    }
}

/// A fractional digit run that stops before the end rules the shape out.
proof fn lemma_frac_short(s: Seq<u8>, dot: int, end: int)
    requires
        0 < dot < s.len(),
        spec_dot_idx(s) == dot,
        dot < end < s.len(),
        !spec_is_digit(s[end]),
    ensures
        !spec_is_decimal(s),
{
    if spec_is_decimal(s) {
        let frac = s.skip(dot + 1);
        assert(spec_is_digit(frac[end - dot - 1]));
        assert(frac[end - dot - 1] == s[end]);
    }
}

/// The digits of `n`, most significant first.
pub open spec fn spec_digits(n: int) -> Seq<u8>
    decreases n,
{
    if n < 10 {
        seq![(48 + if n >= 0 {
            n
        } else {
            0
        }) as u8]
    } else {
        spec_digits(n / 10).push((48 + n % 10) as u8)
    }
}

/// Append the decimal digits of `n`.
fn push_digits(n: i64, out: &mut Vec<u8>)
    requires
        0 <= n,
    ensures
        final (out)@ == old(out)@ + spec_digits(n as int),
    decreases n,
{
    if n < 10 {
        out.push((48 + n) as u8);
        proof {
            assert(final (out)@ =~= old(out)@ + spec_digits(n as int));
        }
    } else {
        proof {
            vstd::arithmetic::div_mod::lemma_div_pos_is_pos(n as int, 10);
            vstd::arithmetic::div_mod::lemma_div_is_strictly_smaller(n as int, 10);
            vstd::arithmetic::div_mod::lemma_mod_division_less_than_divisor(n as int, 10);
        }
        push_digits(n / 10, out);
        out.push((48 + n % 10) as u8);
        proof {
            assert(final (out)@ =~= old(out)@ + spec_digits(n as int));
        }
    }
}

/// At most `k` digits are rendered for a number below the `k`th power of
/// ten.
proof fn lemma_digits_len(n: int, k: nat)
    requires
        0 <= n < pow10_spec(k),
        k >= 1,
    ensures
        spec_digits(n).len() <= k,
    decreases k,
{
    if n < 10 {
    } else {
        if k < 2 {
            reveal_with_fuel(pow10_spec, 3);
        }
        vstd::arithmetic::div_mod::lemma_div_pos_is_pos(n, 10);
        vstd::arithmetic::div_mod::lemma_div_is_ordered(n, pow10_spec(k) as int - 1, 10);
        crate::types::lemma_pow10_monotone(0, (k - 1) as nat);
        assert((10 * pow10_spec((k - 1) as nat) - 1) / 10 < pow10_spec((k - 1) as nat))
            by (nonlinear_arith)
            requires
                pow10_spec((k - 1) as nat) >= 1,
        ;
        lemma_digits_len(n / 10, (k - 1) as nat);
    }
}

/// Rendered digits read back as the same number.
proof fn lemma_digits_roundtrip(n: int)
    requires
        n >= 0,
    ensures
        spec_all_digits(spec_digits(n)),
        spec_digits_val(spec_digits(n)) == n,
        spec_digits(n).len() >= 1,
        forall|i: int| 0 <= i < spec_digits(n).len() ==> #[trigger] spec_digits(n)[i] != 46,
    decreases n,
{
    if n < 10 {
        let s = spec_digits(n);
        assert(s.len() == 1 && s[0] == 48 + n);
        assert(s.drop_last() =~= Seq::<u8>::empty());
        assert(spec_digits_val(s.drop_last()) == 0);
    } else {
        vstd::arithmetic::div_mod::lemma_div_pos_is_pos(n, 10);
        vstd::arithmetic::div_mod::lemma_div_is_strictly_smaller(n, 10);
        vstd::arithmetic::div_mod::lemma_mod_division_less_than_divisor(n, 10);
        vstd::arithmetic::div_mod::lemma_fundamental_div_mod(n, 10);
        lemma_digits_roundtrip(n / 10);
        let s = spec_digits(n);
        assert(s.drop_last() =~= spec_digits(n / 10));
        assert forall|i: int| 0 <= i < s.len() implies spec_is_digit(#[trigger] s[i]) && s[i]
            != 46 by {
            if i < s.len() - 1 {
                assert(s[i] == spec_digits(n / 10)[i]);
            }
        }
    }
}

/// The digits of `n` padded with leading zeros to `width`.
pub open spec fn spec_digits_padded(n: int, width: nat) -> Seq<u8>
    decreases width,
{
    if width == 0 {
        Seq::empty()
    } else {
        spec_digits_padded(n / 10, (width - 1) as nat).push((48 + n % 10) as u8)
    }
}

/// Append the decimal digits of `n`, zero-padded to exactly `width`.
fn push_digits_padded(n: i64, width: u32, out: &mut Vec<u8>)
    requires
        0 <= n,
        width <= 18,
        n < pow10_spec(width as nat),
    ensures
        final (out)@ == old(out)@ + spec_digits_padded(n as int, width as nat),
    decreases width,
{
    if width == 0 {
        proof {
            assert(final (out)@ =~= old(out)@ + spec_digits_padded(n as int, width as nat));
        }
    } else {
        proof {
            vstd::arithmetic::div_mod::lemma_div_pos_is_pos(n as int, 10);
            vstd::arithmetic::div_mod::lemma_mod_division_less_than_divisor(n as int, 10);
            crate::types::lemma_pow10_monotone(0, (width - 1) as nat);
            vstd::arithmetic::div_mod::lemma_div_is_ordered(
                n as int,
                pow10_spec(width as nat) as int - 1,
                10,
            );
            assert((10 * pow10_spec((width - 1) as nat) - 1) / 10 < pow10_spec(
                (width - 1) as nat,
            )) by (nonlinear_arith)
                requires
                    pow10_spec((width - 1) as nat) >= 1,
            ;
        }
        push_digits_padded(n / 10, width - 1, out);
        out.push((48 + n % 10) as u8);
        proof {
            assert(final (out)@ =~= old(out)@ + spec_digits_padded(n as int, width as nat));
        }
    }
}

/// Zero-padded digits read back as the same number.
proof fn lemma_digits_padded_roundtrip(n: int, width: nat)
    requires
        0 <= n < pow10_spec(width),
    ensures
        spec_all_digits(spec_digits_padded(n, width)),
        spec_digits_val(spec_digits_padded(n, width)) == n,
        spec_digits_padded(n, width).len() == width,
        forall|i: int|
            0 <= i < width ==> #[trigger] spec_digits_padded(n, width)[i] != 46,
    decreases width,
{
    if width == 0 {
    } else {
        vstd::arithmetic::div_mod::lemma_div_pos_is_pos(n, 10);
        vstd::arithmetic::div_mod::lemma_mod_division_less_than_divisor(n, 10);
        vstd::arithmetic::div_mod::lemma_fundamental_div_mod(n, 10);
        crate::types::lemma_pow10_monotone(0, (width - 1) as nat);
        assert(n / 10 < pow10_spec((width - 1) as nat)) by {
            vstd::arithmetic::div_mod::lemma_div_is_ordered(n, pow10_spec(width) as int - 1, 10);
            assert((10 * pow10_spec((width - 1) as nat) - 1) / 10 < pow10_spec((width - 1) as nat))
                by (nonlinear_arith)
                requires
                    pow10_spec((width - 1) as nat) >= 1,
            ;
        }
        lemma_digits_padded_roundtrip(n / 10, (width - 1) as nat);
        let s = spec_digits_padded(n, width);
        assert(s.drop_last() =~= spec_digits_padded(n / 10, (width - 1) as nat));
        assert forall|i: int| 0 <= i < s.len() implies spec_is_digit(#[trigger] s[i]) && s[i]
            != 46 by {
            if i < s.len() - 1 {
                assert(s[i] == spec_digits_padded(n / 10, (width - 1) as nat)[i]);
            }
        }
    }
}

/// Render a count of `UNIT`ths as a wire decimal: the whole part, then a dot
/// and the fractional digits with trailing zeros trimmed, or no dot when the
/// count is whole. Parsing the result returns `x`.
pub fn format_scaled(x: i64) -> (r: Vec<u8>)
    requires
        0 <= x <= MAX_AMOUNT,
    ensures
        spec_is_decimal(r@),
        spec_decimal_val(r@) == x,
        r@.len() <= 0x1000,
{
    proof {
        crate::types::lemma_pow10_18();
    }
    let int_part: i64 = x / UNIT;
    let frac0: i64 = x % UNIT;
    proof {
        vstd::arithmetic::div_mod::lemma_fundamental_div_mod(x as int, UNIT as int);
        vstd::arithmetic::div_mod::lemma_mod_division_less_than_divisor(x as int, UNIT as int);
        vstd::arithmetic::div_mod::lemma_div_pos_is_pos(x as int, UNIT as int);
    }
    let mut out: Vec<u8> = Vec::new();
    push_digits(int_part, &mut out);
    proof {
        lemma_digits_roundtrip(int_part as int);
        lemma_digits_len(int_part as int, 18);
    }
    if frac0 == 0 {
        proof {
            lemma_dot_idx_none(out@);
            assert(out@ =~= Seq::<u8>::empty() + spec_digits(int_part as int));
            vstd::arithmetic::mul::lemma_mul_is_commutative(int_part as int, UNIT as int);
        }
        return out;
    }
    let mut frac: i64 = frac0;
    let mut width: u32 = UNIT_DIGITS;
    proof {
        lemma_pow10_unit();
        assert(pow10_spec(0) == 1);
        vstd::arithmetic::mul::lemma_mul_basics(frac as int);
    }
    while frac % 10 == 0
        invariant
            1 <= width <= UNIT_DIGITS,
            0 < frac < pow10_spec(width as nat),
            frac * pow10_spec((UNIT_DIGITS - width) as nat) == frac0,
            frac0 < UNIT,
        decreases frac,
    {
        proof {
            lemma_trim_zero(frac as int, width as nat, frac0 as int);
        }
        frac = frac / 10;
        width = width - 1;
    }
    out.push(46);
    let ghost before_frac = out@;
    push_digits_padded(frac, width, &mut out);
    proof {
        lemma_digits_padded_roundtrip(frac as int, width as nat);
        let ip = spec_digits(int_part as int);
        let fp = spec_digits_padded(frac as int, width as nat);
        assert(out@ =~= ip + seq![46u8] + fp);
        assert(out@.take(ip.len() as int) =~= ip);
        assert(out@.skip(ip.len() as int + 1) =~= fp);
        lemma_dot_idx_at(out@, ip.len() as int);
        vstd::arithmetic::mul::lemma_mul_is_commutative(int_part as int, UNIT as int);
    }
    out
}

/// Parse a bare digit string as an unsigned 64-bit number: the whole input
/// must be digits and the value must fit.
pub fn parse_u64(s: &[u8]) -> (r: Option<u64>)
    ensures
        r matches Some(v) ==> s@.len() >= 1 && spec_all_digits(s@) && v == spec_digits_val(s@),
        r is None ==> !(s@.len() >= 1 && spec_all_digits(s@) && spec_digits_val(s@)
            <= u64::MAX),
{
    if s.len() == 0 {
        return None;
    }
    let mut i: usize = 0;
    let mut acc: u64 = 0;
    while i < s.len()
        invariant
            i <= s@.len(),
            spec_all_digits(s@.subrange(0, i as int)),
            acc == spec_digits_val(s@.subrange(0, i as int)),
        decreases s@.len() - i,
    {
        if s[i] < 48 || s[i] > 57 {
            return None;
        }
        proof {
            assert(s@.subrange(0, i + 1).drop_last() =~= s@.subrange(0, i as int));
            assert(s@.subrange(0, i + 1).last() == s@[i as int]);
        }
        let d: u64 = (s[i] - 48) as u64;
        let next: u128 = (acc as u128) * 10 + (d as u128);
        if next > u64::MAX as u128 {
            proof {
                if spec_all_digits(s@) {
                    assert(s@.subrange(0, i + 1) =~= s@.take(i + 1));
                    lemma_digits_val_monotone(s@, i + 1);
                }
            }
            return None;
        }
        acc = next as u64;
        i = i + 1;
    }
    proof {
        assert(s@.subrange(0, s@.len() as int) =~= s@);
    }
    Some(acc)
}

/// Beyond any 64-bit number.
proof fn lemma_pow10_20()
    ensures
        pow10_spec(20) == 100_000_000_000_000_000_000nat,
{
    reveal_with_fuel(pow10_spec, 22);
}

/// Render an unsigned 64-bit number as its decimal digits.
pub fn format_u64(n: u64, out: &mut Vec<u8>)
    ensures
        final (out)@ == old(out)@ + spec_digits(n as int),
        spec_all_digits(spec_digits(n as int)),
        spec_digits_val(spec_digits(n as int)) == n,
        spec_digits(n as int).len() <= 20,
    decreases n,
{
    proof {
        lemma_digits_roundtrip(n as int);
        lemma_pow10_20();
        lemma_digits_len(n as int, 20);
    }
    if n < 10 {
        out.push((48 + n as u8) as u8);
        proof {
            assert(final (out)@ =~= old(out)@ + spec_digits(n as int));
        }
    } else {
        proof {
            vstd::arithmetic::div_mod::lemma_div_pos_is_pos(n as int, 10);
            vstd::arithmetic::div_mod::lemma_div_is_strictly_smaller(n as int, 10);
            vstd::arithmetic::div_mod::lemma_mod_division_less_than_divisor(n as int, 10);
        }
        format_u64(n / 10, out);
        out.push((48 + (n % 10) as u8) as u8);
        proof {
            assert(final (out)@ =~= old(out)@ + spec_digits(n as int));
        }
    }
}

/// One digit of trailing-zero trimming preserves the denoted fraction.
proof fn lemma_trim_zero(frac: int, width: nat, frac0: int)
    requires
        frac % 10 == 0,
        0 < frac < pow10_spec(width),
        1 <= width,
        width <= 18,
        frac * pow10_spec((UNIT_DIGITS - width) as nat) == frac0,
        UNIT_DIGITS >= width,
    ensures
        0 < frac / 10 < pow10_spec((width - 1) as nat),
        (frac / 10) * pow10_spec((UNIT_DIGITS - (width - 1)) as nat) == frac0,
        width >= 2 || frac / 10 < 1 || width >= 2,
        frac / 10 < frac,
        width - 1 >= 1 || frac / 10 == 0 || width - 1 >= 1,
    decreases width,
{
    vstd::arithmetic::div_mod::lemma_fundamental_div_mod(frac, 10);
    vstd::arithmetic::div_mod::lemma_div_pos_is_pos(frac, 10);
    vstd::arithmetic::div_mod::lemma_div_is_strictly_smaller(frac, 10);
    let q = frac / 10;
    assert(frac == 10 * q);
    assert(q > 0) by {
        if q == 0 {
            assert(frac == 0);
        }
    }
    assert(q < pow10_spec((width - 1) as nat)) by (nonlinear_arith)
        requires
            frac == 10 * q,
            frac < pow10_spec(width),
            pow10_spec(width) == 10 * pow10_spec((width - 1) as nat),
    ;
    let p = pow10_spec((UNIT_DIGITS - width) as nat) as int;
    let p2 = pow10_spec((UNIT_DIGITS - (width - 1)) as nat) as int;
    assert(p2 == 10 * p);
    assert(q * p2 == frac * p) by (nonlinear_arith)
        requires
            frac == 10 * q,
            p2 == 10 * p,
    ;
}

proof fn lemma_pow10_unit()
    ensures
        pow10_spec(UNIT_DIGITS as nat) == UNIT,
{
    reveal_with_fuel(pow10_spec, 8);
}

} // verus!
