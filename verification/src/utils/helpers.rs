//! Small helpers for addresses and amounts.

use crate::models::decimal::{fixed_point_text, push_fixed_point, Decimal};
use crate::utils::text::{chars_of, lemma_position_of, position_of, push_text, string_of};
use vstd::prelude::*;
use vstd::utf8::encode_utf8;

verus! {

/// The character that writes `n` as one hexadecimal digit, in capitals.
pub open spec fn hex_digit(n: int) -> char {
    if n < 10 {
        (48 + n) as char
    } else {
        (55 + n) as char
    }
}

/// Whether `b` is an ASCII letter or digit.
pub open spec fn is_alphanumeric(b: u8) -> bool {
    ||| 48 <= b <= 57
    ||| 65 <= b <= 90
    ||| 97 <= b <= 122
}

/// A byte as it stands in a percent-encoded text: itself where it is an
/// ASCII letter or digit, and else `%` with its two hexadecimal digits.
pub open spec fn percent_encoded_byte(b: u8) -> Seq<char> {
    if is_alphanumeric(b) {
        seq![b as char]
    } else {
        seq!['%', hex_digit(b as int / 16), hex_digit(b as int % 16)]
    }
}

/// The percent-encoding of a run of bytes.
pub open spec fn percent_encoded(bytes: Seq<u8>) -> Seq<char>
    decreases bytes.len(),
{
    if bytes.len() == 0 {
        Seq::empty()
    } else {
        percent_encoded(bytes.drop_last()) + percent_encoded_byte(bytes.last())
    }
}

/// A ticker symbol as it may stand in an address: the hyphens stay, as in
/// `BRK-B`, and what stands between them is percent-encoded.
pub open spec fn symbol_encoded(symbol: Seq<char>) -> Seq<char>
    decreases symbol.len(),
{
    let k = position_of(symbol, '-') as int;
    if k < symbol.len() {
        percent_encoded(encode_utf8(symbol.take(k))) + seq!['-'] + symbol_encoded(
            symbol.skip(k + 1),
        )
    } else {
        percent_encoded(encode_utf8(symbol))
    }
}

/// Calls `percent_encoding::utf8_percent_encode` with the set
/// `NON_ALPHANUMERIC` and collects what it displays. Trusted: the contract
/// restates that crate's rule, which writes every byte of the UTF-8 form
/// that is outside ASCII or in the set as `%` and two capital hexadecimal
/// digits, and passes the other bytes on; the set holds every ASCII byte
/// that is no letter and no digit.
#[verifier::external_body]
fn percent_encode(text: &str) -> (encoded: String)
    ensures
        encoded@ == percent_encoded(encode_utf8(text@)),
{
    percent_encoding::utf8_percent_encode(text, percent_encoding::NON_ALPHANUMERIC).to_string()
}

/// The symbol as it may stand in an address; see [`symbol_encoded`].
pub fn encode_symbol(symbol: &str) -> (encoded: String)
    ensures
        encoded@ == symbol_encoded(symbol@),
{
    let chars = chars_of(symbol);
    let n = chars.len();
    let mut encoded = String::new();
    let mut start: usize = 0;
    let mut i: usize = 0;
    assert(chars@.skip(0) =~= symbol@);
    assert(encoded@ + symbol_encoded(symbol@) =~= symbol_encoded(symbol@));
    while i < n
        invariant
            start <= i <= n == chars.len(),
            forall|j: int| start <= j < i ==> chars@[j] != '-',
            encoded@ + symbol_encoded(chars@.skip(start as int)) == symbol_encoded(symbol@),
        decreases n - i,
    {
        if chars[i] == '-' {
            let ghost tail = chars@.skip(start as int);
            let ghost before = encoded@;
            proof {
                assert forall|j: int| 0 <= j < i - start implies tail[j] != '-' by {
                    assert(tail[j] == chars@[start + j]);
                }
                lemma_position_of(tail, '-', i - start);
                assert(tail.take(i - start) =~= chars@.subrange(start as int, i as int));
                assert(tail.skip(i - start + 1) =~= chars@.skip(i + 1));
            }
            let piece = string_of(&chars, start, i);
            let part = percent_encode(piece.as_str());
            push_text(&mut encoded, part.as_str());
            encoded.push('-');
            start = i + 1;
            assert(encoded@ + symbol_encoded(chars@.skip(start as int)) =~= before
                + symbol_encoded(tail));
        }
        i += 1;
    }
    let ghost tail = chars@.skip(start as int);
    proof {
        assert forall|j: int| 0 <= j < tail.len() implies tail[j] != '-' by {
            assert(tail[j] == chars@[start + j]);
        }
        lemma_position_of(tail, '-', tail.len() as int);
        assert(tail =~= chars@.subrange(start as int, n as int));
    }
    let piece = string_of(&chars, start, n);
    let part = percent_encode(piece.as_str());
    push_text(&mut encoded, part.as_str());
    encoded
}

/// An amount of money: a dollar sign and the amount rounded to cents.
pub open spec fn currency_text(units: int) -> Seq<char> {
    seq!['$'] + fixed_point_text(units, 2)
}

/// A percentage: the value rounded to two places and a percent sign.
pub open spec fn percent_text(units: int) -> Seq<char> {
    fixed_point_text(units, 2) + seq!['%']
}

/// Appends `amount` as money.
pub fn push_currency(out: &mut String, amount: Decimal)
    ensures
        final(out)@ == old(out)@ + currency_text(amount@),
{
    out.push('$');
    push_fixed_point(out, amount.units as i128, 2);
    assert(out@ =~= old(out)@ + currency_text(amount@));
}

/// Appends `value` as a percentage.
pub fn push_percent(out: &mut String, value: Decimal)
    ensures
        final(out)@ == old(out)@ + percent_text(value@),
{
    push_fixed_point(out, value.units as i128, 2);
    out.push('%');
    assert(out@ =~= old(out)@ + percent_text(value@));
}

/// `amount` as money, as in `$123.46`.
pub fn format_currency(amount: Decimal) -> (s: String)
    ensures
        s@ == currency_text(amount@),
{
    let mut s = String::new();
    push_currency(&mut s, amount);
    s
}

/// `value` as a percentage, as in `12.35%`.
pub fn format_percent(value: Decimal) -> (s: String)
    ensures
        s@ == percent_text(value@),
{
    let mut s = String::new();
    push_percent(&mut s, value);
    s
}

} // verus!
