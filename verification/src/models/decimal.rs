//! Exact decimal quantities. Prices, percentages and volatilities are held
//! as a whole number of ten-thousandths, so that every comparison and every
//! rounding in this crate is exact and stated.

use crate::utils::text::{
    all_digits, all_zeros, chars_of, decimal_text, digit_value, digits_value, is_digit,
    lemma_decimal_text_is_read_back, lemma_digits_value_bound, lemma_digits_value_split,
    lemma_digits_value_zero, lemma_padded_text_is_read_back, lemma_position_of,
    lemma_pow10_grows, padded_text, position_of, pow10, push_decimal, push_padded, push_zeros,
    read_digits, zeros,
};
use vstd::prelude::*;

verus! {

/// Units per whole: a `Decimal` counts ten-thousandths.
pub const SCALE: i64 = 10_000;

/// Decimal places that a `Decimal` holds.
pub const PLACES: usize = 4;

/// A fixed-point number with four decimal places: `units / 10_000`.
#[derive(Clone, Copy, Debug, PartialEq, Eq, Structural, PartialOrd, Ord, Hash)]
pub struct Decimal {
    pub units: i64,
}

impl View for Decimal {
    type V = int;

    /// The number of ten-thousandths.
    open spec fn view(&self) -> int {
        self.units as int
    }
}

/// The absolute value of `units`.
pub open spec fn magnitude(units: int) -> nat {
    if units < 0 {
        (-units) as nat
    } else {
        units as nat
    }
}

/// `n / unit` rounded to the nearest whole number, a tie going to the even
/// neighbour.
pub open spec fn round_half_even(n: nat, unit: nat) -> nat
    recommends
        unit > 0,
{
    let q = n / unit;
    let r = n % unit;
    if 2 * r > unit || (2 * r == unit && q % 2 == 1) {
        q + 1
    } else {
        q
    }
}

/// Rounding goes to a nearest neighbour: the rounded number of units lies
/// no more than half a unit from `n`.
pub proof fn rounding_is_to_the_nearest(n: nat, unit: nat)
    requires
        unit > 0,
    ensures
        2 * (round_half_even(n, unit) * unit - n) <= unit,
        2 * (n - round_half_even(n, unit) * unit) <= unit,
{
    let q = n / unit;
    let r = n % unit;
    vstd::arithmetic::div_mod::lemma_fundamental_div_mod(n as int, unit as int);
    vstd::arithmetic::div_mod::lemma_mod_bound(n as int, unit as int);
    assert(n == unit * q + r);
    assert(q * unit == unit * q) by (nonlinear_arith);
    assert((q + 1) * unit == unit * q + unit) by (nonlinear_arith);
}

/// The numeral of `units` ten-thousandths with `places` digits after the
/// point. Up to four places the value is rounded half to even; beyond four
/// the missing digits are zeros. A negative quantity keeps its sign even
/// where it rounds to zero, and no point is written for zero places.
pub open spec fn fixed_point_text(units: int, places: nat) -> Seq<char> {
    let sign: Seq<char> = if units < 0 {
        seq!['-']
    } else {
        Seq::empty()
    };
    if places == 0 {
        sign + decimal_text(round_half_even(magnitude(units), 10_000))
    } else if places <= 4 {
        let shown = round_half_even(magnitude(units), pow10((4 - places) as nat));
        sign + decimal_text(shown / pow10(places)) + seq!['.'] + padded_text(shown, places)
    } else {
        let shown = magnitude(units);
        sign + decimal_text(shown / 10_000) + seq!['.'] + padded_text(shown, 4) + zeros(
            (places - 4) as nat,
        )
    }
}

/// `m` times ten to the power `k`, as a whole number: exact where `k` is
/// not negative, and else rounded to the nearest, a tie going to the even
/// neighbour.
pub open spec fn scaled(m: nat, k: int) -> nat {
    if k >= 0 {
        m * pow10(k as nat)
    } else {
        round_half_even(m, pow10((-k) as nat))
    }
}

/// The index of the first `e` or `E` in `s`, or the length of `s` where
/// there is none.
pub open spec fn mark_position(s: Seq<char>) -> nat
    decreases s.len(),
{
    if s.len() == 0 || s[0] == 'e' || s[0] == 'E' {
        0
    } else {
        1 + mark_position(s.drop_first())
    }
}

/// The digits of a mantissa and how many of them stand after the point:
/// digits, and optionally a point followed by digits, with a digit on at
/// least one side of the point. `None` for any other text.
pub open spec fn mantissa_digits(m: Seq<char>) -> Option<(Seq<char>, nat)> {
    let dot = position_of(m, '.') as int;
    let whole = m.take(dot);
    let frac = if dot < m.len() {
        m.skip(dot + 1)
    } else {
        Seq::empty()
    };
    if whole.len() + frac.len() > 0 && all_digits(whole) && all_digits(frac) {
        Some((whole + frac, frac.len()))
    } else {
        None
    }
}

/// The number that an exponent writes: an optional sign and one digit or
/// more. `None` for any other text.
pub open spec fn exponent_value(s: Seq<char>) -> Option<int> {
    let negative = s.len() > 0 && s[0] == '-';
    let signed = s.len() > 0 && (s[0] == '-' || s[0] == '+');
    let digits = if signed {
        s.skip(1)
    } else {
        s
    };
    if digits.len() > 0 && all_digits(digits) {
        Some(
            if negative {
                -(digits_value(digits) as int)
            } else {
                digits_value(digits) as int
            },
        )
    } else {
        None
    }
}

/// The number that a numeral without its sign writes, in ten-thousandths:
/// a mantissa (see [`mantissa_digits`]), optionally followed by `e` or `E`
/// and an exponent (see [`exponent_value`]). The number is rounded to the
/// nearest whole count, a tie going to the even neighbour, and is not
/// bounded. `None` for any other text.
pub open spec fn numeral_magnitude(body: Seq<char>) -> Option<nat> {
    let mark = mark_position(body) as int;
    let exponent = if mark < body.len() {
        exponent_value(body.skip(mark + 1))
    } else {
        Some(0int)
    };
    match (mantissa_digits(body.take(mark)), exponent) {
        (Some((digits, places)), Some(e)) => Some(scaled(digits_value(digits), e + 4 - places)),
        _ => None,
    }
}

/// The grammar of numerals, which is the one by which the standard library
/// reads a floating-point number that is a number: an optional sign and
/// what [`numeral_magnitude`] reads. The result is the number written, in
/// ten-thousandths, rounded to the nearest whole count; it is not bounded.
/// `None` for any other text, the words for infinity and for what is no
/// number among them.
pub open spec fn numeral_value(s: Seq<char>) -> Option<int> {
    let negative = s.len() > 0 && s[0] == '-';
    let signed = s.len() > 0 && (s[0] == '-' || s[0] == '+');
    let body = if signed {
        s.skip(1)
    } else {
        s
    };
    match numeral_magnitude(body) {
        Some(mag) => Some(
            if negative {
                -(mag as int)
            } else {
                mag as int
            },
        ),
        None => None,
    }
}

/// Whether `r` is `mag` as far as 64 bits go: `mag` itself up to the
/// magnitude of the smallest `Decimal`, and nothing beyond.
pub open spec fn capped(r: Option<u64>, mag: nat) -> bool {
    match r {
        Some(v) => v == mag && v <= 0x8000_0000_0000_0000,
        None => mag > 0x8000_0000_0000_0000,
    }
}

/// The count of ten-thousandths that a `Decimal` can hold and that is
/// nearest to `v`.
pub open spec fn nearest_units(v: int) -> int {
    if v > i64::MAX {
        i64::MAX as int
    } else if v < i64::MIN {
        i64::MIN as int
    } else {
        v
    }
}

/// The `Decimal` that a numeral reads as, in ten-thousandths: the one
/// nearest to the number written (see [`numeral_value`]), which for a
/// number beyond the range of a `Decimal` is the largest or the smallest.
/// `None` for a text that is no numeral.
pub open spec fn decimal_units(s: Seq<char>) -> Option<int> {
    match numeral_value(s) {
        Some(v) => Some(nearest_units(v)),
        None => None,
    }
}

/// Where the first `e` or `E` stands once nothing before `i` is one.
pub proof fn lemma_mark_position(s: Seq<char>, i: int)
    requires
        0 <= i <= s.len(),
        forall|j: int| 0 <= j < i ==> s[j] != 'e' && s[j] != 'E',
        i == s.len() || s[i] == 'e' || s[i] == 'E',
    ensures
        mark_position(s) == i,
    decreases i,
{
    if i > 0 {
        let rest = s.drop_first();
        assert forall|j: int| 0 <= j < i - 1 implies rest[j] != 'e' && rest[j] != 'E' by {
            assert(rest[j] == s[j + 1]);
        }
        lemma_mark_position(rest, i - 1);
    }
}

/// Nothing scaled is nothing.
pub proof fn lemma_scaled_zero(k: int)
    ensures
        scaled(0, k) == 0,
{
    if k >= 0 {
        assert(0 * pow10(k as nat) == 0) by (nonlinear_arith);
    } else {
        let p = pow10((-k) as nat);
        lemma_pow10_grows(0, (-k) as nat);
        vstd::arithmetic::div_mod::lemma_basic_div(0, p as int);
        vstd::arithmetic::div_mod::lemma_small_mod(0, p);
    }
}

/// A number that is not zero, moved left by twenty places or more, is
/// beyond the range of 64 bits.
pub proof fn lemma_scaled_far_left(m: nat, k: int)
    requires
        m >= 1,
        k >= 20,
    ensures
        scaled(m, k) > 0x8000_0000_0000_0000,
{
    lemma_pow10_grows(20, k as nat);
    assert(pow10(20) == 100_000_000_000_000_000_000) by {
        reveal_with_fuel(pow10, 21);
    }
    assert(m * pow10(k as nat) >= pow10(k as nat)) by (nonlinear_arith)
        requires
            m >= 1,
    ;
}

/// A number of `n` digits, moved right by more than `n` places, rounds to
/// zero.
pub proof fn lemma_scaled_far_right(m: nat, n: nat, k: int)
    requires
        m < pow10(n),
        k < 0,
        -k > n,
    ensures
        scaled(m, k) == 0,
{
    let p = pow10((-k) as nat);
    lemma_pow10_grows(n + 1, (-k) as nat);
    assert(pow10(n + 1) == 10 * pow10(n));
    vstd::arithmetic::div_mod::lemma_basic_div(m as int, p as int);
    vstd::arithmetic::div_mod::lemma_small_mod(m, p);
}

/// A number scaled to the left does not shrink as it is moved further.
pub proof fn lemma_scaled_grows(m: nat, j: nat, k: nat)
    requires
        j <= k,
    ensures
        m * pow10(j) <= m * pow10(k),
{
    lemma_pow10_grows(j, k);
    assert(m * pow10(j) <= m * pow10(k)) by (nonlinear_arith)
        requires
            pow10(j) <= pow10(k),
    ;
}

/// Rounding read off the digits: a run of digits moved right by `c` places
/// is the number of the digits that stay, and one more where the first digit
/// that goes is above five, or is five and either a later digit is not zero
/// or the number that stays is odd.
pub proof fn lemma_round_by_digits(digits: Seq<char>, c: int)
    requires
        all_digits(digits),
        1 <= c <= digits.len(),
    ensures
        ({
            let q = digits.len() - c;
            let kept = digits_value(digits.take(q));
            let first = digit_value(digits[q]);
            let later = !all_zeros(digits.skip(q + 1));
            scaled(digits_value(digits), -c) == if first > 5 || (first == 5 && (later || kept % 2
                == 1)) {
                kept + 1
            } else {
                kept
            }
        }),
{
    let q = digits.len() - c;
    let m = digits_value(digits);
    let kept = digits_value(digits.take(q));
    let gone = digits.skip(q);
    let rest = digits.skip(q + 1);
    let r = digits_value(gone);
    let first = digit_value(digits[q]);
    let tail = digits_value(rest);
    let unit = pow10(c as nat);
    let p = pow10((c - 1) as nat);
    assert(all_digits(gone)) by {
        assert forall|i: int| 0 <= i < gone.len() implies is_digit(#[trigger] gone[i]) by {
            assert(gone[i] == digits[q + i]);
        }
    }
    assert(all_digits(rest)) by {
        assert forall|i: int| 0 <= i < rest.len() implies is_digit(#[trigger] rest[i]) by {
            assert(rest[i] == digits[q + 1 + i]);
        }
    }
    lemma_digits_value_split(digits, q);
    lemma_digits_value_bound(gone);
    lemma_pow10_grows(0, (c - 1) as nat);
    assert(unit == 10 * p);
    vstd::arithmetic::div_mod::lemma_fundamental_div_mod_converse(
        m as int,
        unit as int,
        kept as int,
        r as int,
    );
    lemma_digits_value_split(gone, 1);
    assert(gone.skip(1) =~= rest);
    assert(digits_value(gone.take(1)) == first) by {
        assert(gone.take(1).drop_last() =~= Seq::<char>::empty());
        assert(gone.take(1).last() == digits[q]);
        assert(digits_value(gone.take(1).drop_last()) == 0);
    }
    lemma_digits_value_bound(rest);
    lemma_digits_value_zero(rest);
    assert(is_digit(digits[q]));
    assert(r == first * p + tail);
    if first > 5 {
        assert(2 * (first * p + tail) > 10 * p) by (nonlinear_arith)
            requires
                first >= 6,
                p >= 1,
        ;
    } else if first == 5 {
        assert(2 * (first * p + tail) == 10 * p + 2 * tail) by (nonlinear_arith)
            requires
                first == 5,
        ;
    } else {
        assert(2 * (first * p + tail) < 10 * p) by (nonlinear_arith)
            requires
                first <= 4,
                tail < p,
        ;
    }
}

/// What is written is read back: the exact numeral of a `Decimal`, the one
/// with all four decimal places, reads as that `Decimal`.
pub proof fn written_is_read_back(d: Decimal)
    ensures
        decimal_units(fixed_point_text(d@, 4)) == Some(d@),
{
    let mag = magnitude(d@);
    let whole = decimal_text(mag / 10_000);
    let frac = padded_text(mag, 4);
    let body = whole + seq!['.'] + frac;
    let s = fixed_point_text(d@, 4);
    assert(pow10(0) == 1);
    assert(pow10(4) == 10_000) by {
        reveal_with_fuel(pow10, 5);
    }
    assert(mag / 1 == mag && mag % 1 == 0);
    assert(round_half_even(mag, 1) == mag);
    lemma_decimal_text_is_read_back(mag / 10_000);
    lemma_padded_text_is_read_back(mag, 4);
    assert(is_digit(whole[0]));
    if d@ < 0 {
        assert(s =~= seq!['-'] + body);
        assert(s[0] == '-');
        assert(s.skip(1) =~= body);
    } else {
        assert(s =~= body);
        assert(s[0] == whole[0]);
    }
    assert forall|j: int| 0 <= j < body.len() implies body[j] != 'e' && body[j] != 'E' by {
        if j < whole.len() {
            assert(body[j] == whole[j]);
            assert(is_digit(whole[j]));
        } else if j > whole.len() {
            assert(body[j] == frac[j - whole.len() - 1]);
            assert(is_digit(frac[j - whole.len() - 1]));
        }
    }
    lemma_mark_position(body, body.len() as int);
    assert(body.take(body.len() as int) =~= body);
    assert forall|j: int| 0 <= j < whole.len() implies body[j] != '.' by {
        assert(body[j] == whole[j]);
        assert(is_digit(whole[j]));
    }
    assert(body[whole.len() as int] == '.');
    lemma_position_of(body, '.', whole.len() as int);
    assert(body.take(whole.len() as int) =~= whole);
    assert(body.skip(whole.len() as int + 1) =~= frac);
    let digits = whole + frac;
    assert(mantissa_digits(body) == Some((digits, 4nat)));
    lemma_digits_value_split(digits, whole.len() as int);
    assert(digits.take(whole.len() as int) =~= whole);
    assert(digits.skip(whole.len() as int) =~= frac);
    vstd::arithmetic::div_mod::lemma_fundamental_div_mod(mag as int, 10_000);
    assert(digits_value(digits) == mag) by {
        assert((mag / 10_000) * 10_000 == 10_000 * (mag / 10_000));
    }
    assert(mag * 1 == mag);
    assert(scaled(mag, 0) == mag);
}

/// Ten to the power `n`, for the powers that a `Decimal` needs.
fn power_of_ten(n: usize) -> (p: u64)
    requires
        n <= 4,
    ensures
        p == pow10(n as nat),
        1 <= p <= 10_000,
{
    proof {
        reveal_with_fuel(pow10, 5);
    }
    if n == 0 {
        1
    } else if n == 1 {
        10
    } else if n == 2 {
        100
    } else if n == 3 {
        1_000
    } else {
        10_000
    }
}

/// Appends the numeral of `units` ten-thousandths with `places` decimal places.
pub fn push_fixed_point(out: &mut String, units: i128, places: usize)
    ensures
        final(out)@ == old(out)@ + fixed_point_text(units as int, places as nat),
{
    let mag: u128 = if units < 0 {
        (-(units + 1)) as u128 + 1
    } else {
        units as u128
    };
    assert(mag == magnitude(units as int));
    if units < 0 {
        out.push('-');
    }
    let ghost sign: Seq<char> = if units < 0 {
        seq!['-']
    } else {
        Seq::empty()
    };
    assert(out@ =~= old(out)@ + sign);
    if places <= 4 {
        let unit: u128 = power_of_ten(4 - places) as u128;
        let q = mag / unit;
        let r = mag % unit;
        let shown: u128 = if 2 * r > unit || (2 * r == unit && q % 2 == 1) {
            q + 1
        } else {
            q
        };
        assert(shown == round_half_even(mag as nat, unit as nat));
        let scale: u128 = power_of_ten(places) as u128;
        push_decimal(out, shown / scale);
        assert(out@ =~= old(out)@ + sign + decimal_text((shown / scale) as nat));
        if places > 0 {
            out.push('.');
            push_padded(out, shown, places);
            assert(out@ =~= old(out)@ + (sign + decimal_text((shown / scale) as nat) + seq!['.']
                + padded_text(shown as nat, places as nat)));
        } else {
            assert(pow10(4) == 10_000) by {
                reveal_with_fuel(pow10, 5);
            }
            assert(scale == 1);
            assert(shown / scale == shown) by (nonlinear_arith)
                requires
                    scale == 1,
            ;
            assert(out@ =~= old(out)@ + (sign + decimal_text(shown as nat)));
        }
    } else {
        push_decimal(out, mag / 10_000);
        out.push('.');
        push_padded(out, mag, 4);
        push_zeros(out, places - 4);
        assert(out@ =~= old(out)@ + (sign + decimal_text((mag / 10_000) as nat) + seq!['.']
            + padded_text(mag as nat, 4) + zeros((places - 4) as nat)));
    }
}

/// Whether `chars[from..to]` are all decimal digits.
fn are_digits(chars: &Vec<char>, from: usize, to: usize) -> (r: bool)
    requires
        from <= to <= chars.len(),
    ensures
        r == all_digits(chars@.subrange(from as int, to as int)),
{
    let mut i: usize = from;
    while i < to
        invariant
            from <= i <= to <= chars.len(),
            forall|j: int| from <= j < i ==> is_digit(#[trigger] chars@[j]),
        decreases to - i,
    {
        let c = chars[i];
        if !(c >= '0' && c <= '9') {
            assert(!is_digit(chars@.subrange(from as int, to as int)[i - from]));
            return false;
        }
        i += 1;
    }
    assert forall|j: int| 0 <= j < to - from implies is_digit(
        #[trigger] chars@.subrange(from as int, to as int)[j],
    ) by {
        assert(is_digit(chars@[from + j]));
    }
    true
}

/// Whether `chars[from..to]` are all zeros.
fn are_zeros(chars: &Vec<char>, from: usize, to: usize) -> (r: bool)
    requires
        from <= to <= chars.len(),
    ensures
        r == all_zeros(chars@.subrange(from as int, to as int)),
{
    let mut i: usize = from;
    while i < to
        invariant
            from <= i <= to <= chars.len(),
            forall|j: int| from <= j < i ==> #[trigger] chars@[j] == '0',
        decreases to - i,
    {
        if chars[i] != '0' {
            assert(chars@.subrange(from as int, to as int)[i - from] != '0');
            return false;
        }
        i += 1;
    }
    assert forall|j: int| 0 <= j < to - from implies #[trigger] chars@.subrange(
        from as int,
        to as int,
    )[j] == '0' by {
        assert(chars@[from + j] == '0');
    }
    true
}

/// The digits of the mantissa `chars[from..to]` and how many of them stand
/// after the point; see [`mantissa_digits`].
fn read_mantissa(chars: &Vec<char>, from: usize, to: usize) -> (r: Option<(Vec<char>, usize)>)
    requires
        from <= to <= chars.len(),
    ensures
        match mantissa_digits(chars@.subrange(from as int, to as int)) {
            Some((digits, places)) => r matches Some((d, p)) && d@ == digits && p == places,
            None => r is None,
        },
        r matches Some((d, p)) ==> all_digits(d@) && p <= d@.len() <= to - from,
{
    let ghost m = chars@.subrange(from as int, to as int);
    let mut dot: usize = from;
    while dot < to && chars[dot] != '.'
        invariant
            from <= dot <= to <= chars.len(),
            forall|j: int| from <= j < dot ==> chars@[j] != '.',
        decreases to - dot,
    {
        dot += 1;
    }
    proof {
        assert forall|j: int| 0 <= j < dot - from implies m[j] != '.' by {
            assert(m[j] == chars@[from + j]);
        }
        lemma_position_of(m, '.', dot - from);
    }
    let frac_from: usize = if dot < to {
        dot + 1
    } else {
        to
    };
    let ghost whole = m.take(dot - from);
    let ghost frac = if dot - from < m.len() {
        m.skip(dot - from + 1)
    } else {
        Seq::empty()
    };
    assert(whole =~= chars@.subrange(from as int, dot as int));
    assert(frac =~= chars@.subrange(frac_from as int, to as int));
    if (dot - from) + (to - frac_from) == 0 {
        return None;
    }
    if !are_digits(chars, from, dot) || !are_digits(chars, frac_from, to) {
        return None;
    }
    let mut digits: Vec<char> = Vec::new();
    let mut i: usize = from;
    while i < dot
        invariant
            from <= i <= dot <= chars.len(),
            digits@ == chars@.subrange(from as int, i as int),
        decreases dot - i,
    {
        digits.push(chars[i]);
        i += 1;
        assert(digits@ =~= chars@.subrange(from as int, i as int));
    }
    let mut i: usize = frac_from;
    while i < to
        invariant
            frac_from <= i <= to <= chars.len(),
            digits@ == whole + chars@.subrange(frac_from as int, i as int),
        decreases to - i,
    {
        digits.push(chars[i]);
        i += 1;
        assert(digits@ =~= whole + chars@.subrange(frac_from as int, i as int));
    }
    assert forall|j: int| 0 <= j < digits@.len() implies is_digit(#[trigger] digits@[j]) by {
        if j < whole.len() {
            assert(digits@[j] == whole[j]);
        } else {
            assert(digits@[j] == frac[j - whole.len()]);
        }
    }
    Some((digits, to - frac_from))
}

/// The exponent `chars[from..to]`, as its sign and its size; see
/// [`exponent_value`]. The size is left out where it is beyond 64 bits,
/// which takes twenty digits or more.
fn read_exponent(chars: &Vec<char>, from: usize, to: usize) -> (r: Option<(bool, Option<u64>)>)
    requires
        from <= to <= chars.len(),
    ensures
        match exponent_value(chars@.subrange(from as int, to as int)) {
            Some(e) => r matches Some((negative, size)) && match size {
                Some(a) => e == if negative {
                    -(a as int)
                } else {
                    a as int
                },
                None => to - from >= 20 && if negative {
                    e < -0xffff_ffff_ffff_ffff
                } else {
                    e > 0xffff_ffff_ffff_ffff
                },
            },
            None => r is None,
        },
{
    let ghost s = chars@.subrange(from as int, to as int);
    let negative = from < to && chars[from] == '-';
    let start: usize = if from < to && (chars[from] == '-' || chars[from] == '+') {
        from + 1
    } else {
        from
    };
    let ghost digits = chars@.subrange(start as int, to as int);
    assert(digits =~= if start == from {
        s
    } else {
        s.skip(1)
    });
    if start == to {
        return None;
    }
    if !are_digits(chars, start, to) {
        return None;
    }
    let size = read_digits(chars, start, to, 0xffff_ffff_ffff_ffff);
    proof {
        if size is None {
            lemma_digits_value_bound(digits);
            if to - start <= 19 {
                lemma_pow10_grows((to - start) as nat, 19);
                assert(pow10(19) == 10_000_000_000_000_000_000) by {
                    reveal_with_fuel(pow10, 20);
                }
            }
        }
    }
    Some((negative, size))
}

/// The number that `digits` write, moved by `k` places and rounded; see
/// [`scaled`]. `None` where that is beyond the magnitude of the smallest
/// `Decimal`.
fn scale_digits(digits: &Vec<char>, k: i128) -> (r: Option<u64>)
    requires
        all_digits(digits@),
        -0x1_0000_0000_0000_0000_0000 <= k <= 0x1_0000_0000_0000_0000_0000,
    ensures
        capped(r, scaled(digits_value(digits@), k as int)),
{
    let n = digits.len();
    let ghost m = digits_value(digits@);
    assert(digits@.subrange(0, n as int) =~= digits@);
    if k >= 0 {
        let v = match read_digits(digits, 0, n, 0x8000_0000_0000_0000) {
            Some(v) => v,
            None => {
                proof {
                    lemma_scaled_grows(m, 0, k as nat);
                    assert(pow10(0) == 1);
                    assert(m * 1 == m);
                }
                return None;
            },
        };
        if v == 0 {
            proof {
                lemma_scaled_zero(k as int);
            }
            return Some(0);
        }
        let mut acc: u64 = v;
        let mut j: i128 = 0;
        proof {
            assert(pow10(0) == 1);
            assert(m * 1 == m);
        }
        while j < k
            invariant
                0 <= j <= k,
                m == digits_value(digits@),
                acc == m * pow10(j as nat),
                1 <= acc <= 0x8000_0000_0000_0000,
            decreases k - j,
        {
            let grown: u128 = acc as u128 * 10;
            proof {
                let p = pow10(j as nat);
                assert(pow10((j + 1) as nat) == 10 * p);
                assert(m * (10 * p) == (m * p) * 10) by (nonlinear_arith);
            }
            if grown > 0x8000_0000_0000_0000 {
                proof {
                    lemma_scaled_grows(m, (j + 1) as nat, k as nat);
                }
                return None;
            }
            acc = grown as u64;
            j = j + 1;
        }
        Some(acc)
    } else {
        let c: i128 = -k;
        if c > n as i128 {
            proof {
                lemma_digits_value_bound(digits@);
                lemma_scaled_far_right(m, n as nat, k as int);
            }
            return Some(0);
        }
        let q: usize = n - (c as usize);
        proof {
            lemma_round_by_digits(digits@, c as int);
            assert(digits@.subrange(0, q as int) =~= digits@.take(q as int));
            assert(digits@.subrange(q + 1, n as int) =~= digits@.skip(q + 1));
            assert(is_digit(digits@[q as int]));
        }
        let kept = match read_digits(digits, 0, q, 0x8000_0000_0000_0000) {
            Some(kept) => kept,
            None => {
                return None;
            },
        };
        let first: u8 = digits[q] as u8 - 48u8;
        let later = !are_zeros(digits, q + 1, n);
        let up = first > 5 || (first == 5 && (later || kept % 2 == 1));
        if up && kept == 0x8000_0000_0000_0000 {
            return None;
        }
        Some(
            if up {
                kept + 1
            } else {
                kept
            },
        )
    }
}

/// The number that `digits` write with `places` of them after the point,
/// times ten to an exponent of the given sign whose size is beyond 64 bits.
fn scale_beyond(digits: &Vec<char>, places: usize, down: bool, Ghost(e): Ghost<int>) -> (r: Option<
    u64,
>)
    requires
        all_digits(digits@),
        places <= digits@.len(),
        digits@.len() + 20 <= usize::MAX,
        if down {
            e < -0xffff_ffff_ffff_ffff
        } else {
            e > 0xffff_ffff_ffff_ffff
        },
    ensures
        capped(r, scaled(digits_value(digits@), e + 4 - places)),
{
    proof {
        assert(digits@.subrange(0, digits@.len() as int) =~= digits@);
        lemma_digits_value_zero(digits@);
        lemma_digits_value_bound(digits@);
    }
    if are_zeros(digits, 0, digits.len()) {
        proof {
            lemma_scaled_zero(e + 4 - places);
        }
        Some(0)
    } else if down {
        proof {
            lemma_scaled_far_right(digits_value(digits@), digits@.len(), e + 4 - places);
        }
        Some(0)
    } else {
        proof {
            lemma_scaled_far_left(digits_value(digits@), e + 4 - places);
        }
        None
    }
}

/// The magnitude of the numeral `chars[start..]`, as far as 64 bits go; see
/// [`numeral_magnitude`] and [`capped`]. `None` where the text is no numeral.
fn read_magnitude(chars: &Vec<char>, start: usize) -> (r: Option<Option<u64>>)
    requires
        start <= chars.len(),
    ensures
        match numeral_magnitude(chars@.subrange(start as int, chars@.len() as int)) {
            Some(mag) => r matches Some(found) && capped(found, mag),
            None => r is None,
        },
{
    let n = chars.len();
    let ghost body = chars@.subrange(start as int, n as int);
    let mut mark: usize = start;
    while mark < n && chars[mark] != 'e' && chars[mark] != 'E'
        invariant
            start <= mark <= n == chars.len(),
            forall|j: int| start <= j < mark ==> chars@[j] != 'e' && chars@[j] != 'E',
        decreases n - mark,
    {
        mark += 1;
    }
    proof {
        assert forall|j: int| 0 <= j < mark - start implies body[j] != 'e' && body[j] != 'E' by {
            assert(body[j] == chars@[start + j]);
        }
        lemma_mark_position(body, mark - start);
        assert(body.take(mark - start) =~= chars@.subrange(start as int, mark as int));
        if mark < n {
            assert(body.skip(mark - start + 1) =~= chars@.subrange(mark + 1, n as int));
        }
    }
    let (digits, places) = match read_mantissa(chars, start, mark) {
        Some(mantissa) => mantissa,
        None => {
            return None;
        },
    };
    if mark == n {
        return Some(scale_digits(&digits, 4 - places as i128));
    }
    let (down, size) = match read_exponent(chars, mark + 1, n) {
        Some(exponent) => exponent,
        None => {
            return None;
        },
    };
    let ghost e = exponent_value(chars@.subrange(mark + 1, n as int))->0;
    match size {
        Some(size) => {
            let exponent: i128 = if down {
                -(size as i128)
            } else {
                size as i128
            };
            Some(scale_digits(&digits, exponent + 4 - places as i128))
        },
        None => Some(scale_beyond(&digits, places, down, Ghost(e))),
    }
}

impl Decimal {
    /// The quantity of `units` ten-thousandths.
    pub fn from_units(units: i64) -> (d: Decimal)
        ensures
            d@ == units,
    {
        Decimal { units }
    }

    /// Zero.
    pub fn zero() -> (d: Decimal)
        ensures
            d@ == 0,
    {
        Decimal { units: 0 }
    }

    /// The whole number `n`.
    pub fn from_whole(n: i32) -> (d: Decimal)
        ensures
            d@ == n * 10_000,
    {
        Decimal { units: n as i64 * SCALE }
    }

    /// The number of ten-thousandths.
    pub fn units(&self) -> (u: i64)
        ensures
            u == self@,
    {
        self.units
    }

    /// Whether `self` is `other` or more.
    pub fn at_least(&self, other: &Decimal) -> (r: bool)
        ensures
            r == (self@ >= other@),
    {
        self.units >= other.units
    }

    /// Reads a numeral as the `Decimal` nearest to the number that it
    /// writes: a tie goes to the even neighbour, and a number beyond the
    /// range is the largest or the smallest `Decimal`. See [`numeral_value`]
    /// for the grammar.
    pub fn parse(text: &str) -> (r: Option<Decimal>)
        ensures
            match decimal_units(text@) {
                Some(units) => r matches Some(d) && d@ == units,
                None => r is None,
            },
    {
        let chars = chars_of(text);
        let n = chars.len();
        let negative = n > 0 && chars[0] == '-';
        let start: usize = if n > 0 && (chars[0] == '-' || chars[0] == '+') {
            1
        } else {
            0
        };
        assert(chars@.subrange(start as int, n as int) =~= if start == 1 {
            text@.skip(1)
        } else {
            text@
        });
        let magnitude = match read_magnitude(&chars, start) {
            Some(magnitude) => magnitude,
            None => {
                return None;
            },
        };
        let units: i64 = match magnitude {
            Some(v) => if negative {
                if v >= 0x8000_0000_0000_0000 {
                    i64::MIN
                } else {
                    -(v as i64)
                }
            } else {
                if v > 0x7fff_ffff_ffff_ffff {
                    i64::MAX
                } else {
                    v as i64
                }
            },
            None => if negative {
                i64::MIN
            } else {
                i64::MAX
            },
        };
        Some(Decimal { units })
    }

    /// The numeral of `self` with `places` decimal places; see
    /// [`fixed_point_text`].
    pub fn format(&self, places: usize) -> (s: String)
        ensures
            s@ == fixed_point_text(self@, places as nat),
    {
        let mut s = String::new();
        push_fixed_point(&mut s, self.units as i128, places);
        s
    }

    /// The exact numeral of `self`, with all four decimal places.
    pub fn to_string(&self) -> (s: String)
        ensures
            s@ == fixed_point_text(self@, 4),
    {
        self.format(PLACES)
    }
}

} // verus!
