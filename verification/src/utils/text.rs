//! Characters, digits and fields: the text primitives shared by the parsers
//! and formatters of this crate, each stated over `Seq<char>`.

use vstd::prelude::*;

verus! {

/// `String::push` of the standard library, which appends one character to
/// the end of a string. Trusted: the contract restates its documentation.
pub assume_specification[ String::push ](s: &mut String, c: char)
    ensures
        final(s)@ == old(s)@.push(c),
;

/// The characters of `s`, in order.
pub fn chars_of(s: &str) -> (v: Vec<char>)
    ensures
        v@ == s@,
{
    let mut v: Vec<char> = Vec::new();
    for c in it: s.chars()
        invariant
            v@ == it.seq().take(it.index() as int),
    {
        v.push(c);
    }
    v
}

/// The string made of `chars[from..to]`.
pub fn string_of(chars: &Vec<char>, from: usize, to: usize) -> (s: String)
    requires
        from <= to <= chars.len(),
    ensures
        s@ == chars@.subrange(from as int, to as int),
{
    let mut s = String::new();
    let mut i: usize = from;
    while i < to
        invariant
            from <= i <= to <= chars.len(),
            s@ == chars@.subrange(from as int, i as int),
        decreases to - i,
    {
        s.push(chars[i]);
        i += 1;
    }
    s
}

/// Ten to the power `n`.
pub open spec fn pow10(n: nat) -> nat
    decreases n,
{
    if n == 0 {
        1
    } else {
        10 * pow10((n - 1) as nat)
    }
}

/// The character that writes the digit `d`.
pub open spec fn digit_char(d: int) -> char {
    (d + 48) as char
}

/// Whether `c` is one of the ten decimal digits of ASCII.
pub open spec fn is_digit(c: char) -> bool {
    48 <= c as int <= 57
}

/// The digit that `c` writes.
pub open spec fn digit_value(c: char) -> nat {
    (c as int - 48) as nat
}

/// Whether every character of `s` is a decimal digit.
pub open spec fn all_digits(s: Seq<char>) -> bool {
    forall|i: int| 0 <= i < s.len() ==> is_digit(#[trigger] s[i])
}

/// The usual decimal numeral of `n`: no sign, no leading zero, `"0"` for zero.
pub open spec fn decimal_text(n: nat) -> Seq<char>
    decreases n,
{
    if n < 10 {
        seq![digit_char(n as int)]
    } else {
        decimal_text(n / 10).push(digit_char((n % 10) as int))
    }
}

/// The last `width` decimal digits of `n`, with leading zeros.
pub open spec fn padded_text(n: nat, width: nat) -> Seq<char>
    decreases width,
{
    if width == 0 {
        Seq::empty()
    } else {
        padded_text(n / 10, (width - 1) as nat).push(digit_char((n % 10) as int))
    }
}

/// The number that a run of decimal digits writes; zero for the empty run.
pub open spec fn digits_value(s: Seq<char>) -> nat
    decreases s.len(),
{
    if s.len() == 0 {
        0
    } else {
        digits_value(s.drop_last()) * 10 + digit_value(s.last())
    }
}

/// `width` zeros.
pub open spec fn zeros(width: nat) -> Seq<char> {
    Seq::new(width, |i: int| '0')
}

fn digit_of(d: u8) -> (c: char)
    requires
        d < 10,
    ensures
        c == digit_char(d as int),
        is_digit(c),
{
    (48u8 + d) as char
}

/// Appends the decimal numeral of `n`.
pub fn push_decimal(out: &mut String, n: u128)
    ensures
        final(out)@ == old(out)@ + decimal_text(n as nat),
    decreases n,
{
    if n >= 10 {
        push_decimal(out, n / 10);
    }
    out.push(digit_of((n % 10) as u8));
    assert(out@ =~= old(out)@ + decimal_text(n as nat));
}

/// Appends the last `width` digits of `n`, with leading zeros.
pub fn push_padded(out: &mut String, n: u128, width: usize)
    ensures
        final(out)@ == old(out)@ + padded_text(n as nat, width as nat),
    decreases width,
{
    if width > 0 {
        push_padded(out, n / 10, width - 1);
        out.push(digit_of((n % 10) as u8));
    }
    assert(out@ =~= old(out)@ + padded_text(n as nat, width as nat));
}

/// Appends `width` zeros.
pub fn push_zeros(out: &mut String, width: usize)
    ensures
        final(out)@ == old(out)@ + zeros(width as nat),
{
    let mut i: usize = 0;
    while i < width
        invariant
            i <= width,
            out@ == old(out)@ + zeros(i as nat),
        decreases width - i,
    {
        out.push('0');
        i += 1;
        assert(out@ =~= old(out)@ + zeros(i as nat));
    }
}

/// Appends the characters of `s`.
pub fn push_text(out: &mut String, s: &str)
    ensures
        final(out)@ == old(out)@ + s@,
{
    for c in it: s.chars()
        invariant
            out@ == old(out)@ + it.seq().take(it.index() as int),
    {
        out.push(c);
        assert(out@ =~= old(out)@ + it.seq().take(it.index() + 1));
    }
}

/// A prefix of a run of digits writes no more than the whole run.
pub proof fn lemma_digits_value_prefix(s: Seq<char>, k: int)
    requires
        0 <= k <= s.len(),
    ensures
        digits_value(s.take(k)) <= digits_value(s),
    decreases s.len() - k,
{
    if k < s.len() {
        lemma_digits_value_prefix(s, k + 1);
        assert(s.take(k + 1).drop_last() =~= s.take(k));
    } else {
        assert(s.take(k) =~= s);
    }
}

/// Reads `chars[from..to]` as a run of decimal digits. `None` when a
/// character is no digit or the number is above `limit`.
pub fn read_digits(chars: &Vec<char>, from: usize, to: usize, limit: u64) -> (r: Option<u64>)
    requires
        from <= to <= chars.len(),
    ensures
        r is Some <==> all_digits(chars@.subrange(from as int, to as int)) && digits_value(
            chars@.subrange(from as int, to as int),
        ) <= limit,
        r matches Some(v) ==> v == digits_value(chars@.subrange(from as int, to as int)),
{
    let ghost run = chars@.subrange(from as int, to as int);
    let mut acc: u64 = 0;
    let mut i: usize = from;
    while i < to
        invariant
            from <= i <= to <= chars.len(),
            run == chars@.subrange(from as int, to as int),
            all_digits(run.take(i - from)),
            acc == digits_value(run.take(i - from)),
            acc <= limit,
        decreases to - i,
    {
        let c = chars[i];
        let ghost next = run.take(i - from + 1);
        assert(next.drop_last() =~= run.take(i - from));
        assert(next.last() == c);
        if !(c >= '0' && c <= '9') {
            assert(!is_digit(run[i - from]));
            return None;
        }
        let d: u64 = (c as u8 - 48u8) as u64;
        assert(d == digit_value(c));
        let grown: u128 = acc as u128 * 10 + d as u128;
        if grown > limit as u128 {
            proof {
                assert(digits_value(next) == grown);
                lemma_digits_value_prefix(run, i - from + 1);
            }
            return None;
        }
        acc = grown as u64;
        i += 1;
        assert forall|j: int| 0 <= j < next.len() implies is_digit(#[trigger] next[j]) by {
            if j < next.len() - 1 {
                assert(next[j] == run.take(i - 1 - from)[j]);
            }
        }
    }
    assert(run.take(to - from) =~= run);
    Some(acc)
}

/// The index of the first `stop` in `s`, or the length of `s` where there is none.
pub open spec fn position_of(s: Seq<char>, stop: char) -> nat
    decreases s.len(),
{
    if s.len() == 0 || s[0] == stop {
        0
    } else {
        1 + position_of(s.drop_first(), stop)
    }
}

/// Where the first `stop` stands once nothing before `i` is one.
pub proof fn lemma_position_of(s: Seq<char>, stop: char, i: int)
    requires
        0 <= i <= s.len(),
        forall|j: int| 0 <= j < i ==> s[j] != stop,
        i == s.len() || s[i] == stop,
    ensures
        position_of(s, stop) == i,
    decreases i,
{
    if i > 0 {
        let rest = s.drop_first();
        assert forall|j: int| 0 <= j < i - 1 implies rest[j] != stop by {
            assert(rest[j] == s[j + 1]);
        }
        lemma_position_of(rest, stop, i - 1);
    }
}

/// The fields of `s` between separators: one more than there are
/// separators, an empty text being one empty field.
pub open spec fn split_fields(s: Seq<char>, sep: char) -> Seq<Seq<char>>
    decreases s.len(),
{
    let k = position_of(s, sep) as int;
    if k < s.len() {
        seq![s.take(k)] + split_fields(s.skip(k + 1), sep)
    } else {
        seq![s]
    }
}

/// White space as Unicode defines it (the property `White_Space`), which is
/// what `char::is_whitespace` tests.
pub open spec fn is_space(c: char) -> bool {
    let u = c as int;
    ||| 0x9 <= u <= 0xD
    ||| u == 0x20
    ||| u == 0x85
    ||| u == 0xA0
    ||| u == 0x1680
    ||| 0x2000 <= u <= 0x200A
    ||| u == 0x2028
    ||| u == 0x2029
    ||| u == 0x202F
    ||| u == 0x205F
    ||| u == 0x3000
}

/// How many characters of white space `s` begins with.
pub open spec fn leading_spaces(s: Seq<char>) -> nat
    decreases s.len(),
{
    if s.len() > 0 && is_space(s[0]) {
        1 + leading_spaces(s.drop_first())
    } else {
        0
    }
}

/// How many characters of white space `s` ends with.
pub open spec fn trailing_spaces(s: Seq<char>) -> nat
    decreases s.len(),
{
    if s.len() > 0 && is_space(s.last()) {
        1 + trailing_spaces(s.drop_last())
    } else {
        0
    }
}

/// `s` without the white space at its two ends.
pub open spec fn trimmed(s: Seq<char>) -> Seq<char> {
    let rest = s.skip(leading_spaces(s) as int);
    rest.take(rest.len() - trailing_spaces(rest))
}

/// The views of a sequence of strings.
pub open spec fn texts(v: Seq<String>) -> Seq<Seq<char>> {
    v.map_values(|s: String| s@)
}

/// The white space at the start of `s` ends at `i` once everything before
/// `i` is white space and what stands at `i` is not.
pub proof fn lemma_leading_spaces(s: Seq<char>, i: int)
    requires
        0 <= i <= s.len(),
        forall|j: int| 0 <= j < i ==> is_space(#[trigger] s[j]),
        i == s.len() || !is_space(s[i]),
    ensures
        leading_spaces(s) == i,
    decreases i,
{
    if i > 0 {
        let rest = s.drop_first();
        assert forall|j: int| 0 <= j < i - 1 implies is_space(#[trigger] rest[j]) by {
            assert(rest[j] == s[j + 1]);
        }
        lemma_leading_spaces(rest, i - 1);
    }
}

/// The white space at the end of `s` is `n` long once the last `n`
/// characters are white space and the one before them is not.
pub proof fn lemma_trailing_spaces(s: Seq<char>, n: int)
    requires
        0 <= n <= s.len(),
        forall|j: int| s.len() - n <= j < s.len() ==> is_space(#[trigger] s[j]),
        n == s.len() || !is_space(s[s.len() - n - 1]),
    ensures
        trailing_spaces(s) == n,
    decreases n,
{
    if n > 0 {
        let rest = s.drop_last();
        assert forall|j: int| rest.len() - (n - 1) <= j < rest.len() implies is_space(
            #[trigger] rest[j],
        ) by {
            assert(rest[j] == s[j]);
        }
        lemma_trailing_spaces(rest, n - 1);
    }
}

/// Whether `c` is white space.
pub fn is_whitespace(c: char) -> (r: bool)
    ensures
        r == is_space(c),
{
    let u = c as u32;
    (0x9 <= u && u <= 0xD) || u == 0x20 || u == 0x85 || u == 0xA0 || u == 0x1680 || (0x2000 <= u
        && u <= 0x200A) || u == 0x2028 || u == 0x2029 || u == 0x202F || u == 0x205F || u
        == 0x3000
}

/// `chars[from..to]` without the white space at its two ends.
pub fn trimmed_string(chars: &Vec<char>, from: usize, to: usize) -> (s: String)
    requires
        from <= to <= chars.len(),
    ensures
        s@ == trimmed(chars@.subrange(from as int, to as int)),
{
    let ghost field = chars@.subrange(from as int, to as int);
    let mut a: usize = from;
    while a < to && is_whitespace(chars[a])
        invariant
            from <= a <= to <= chars.len(),
            forall|j: int| from <= j < a ==> is_space(#[trigger] chars@[j]),
        decreases to - a,
    {
        a += 1;
    }
    proof {
        assert forall|j: int| 0 <= j < a - from implies is_space(#[trigger] field[j]) by {
            assert(field[j] == chars@[from + j]);
        }
        lemma_leading_spaces(field, a - from);
    }
    let ghost rest = field.skip(a - from);
    assert(rest =~= chars@.subrange(a as int, to as int));
    let mut b: usize = to;
    while b > a && is_whitespace(chars[b - 1])
        invariant
            a <= b <= to <= chars.len(),
            forall|j: int| b <= j < to ==> is_space(#[trigger] chars@[j]),
        decreases b,
    {
        b -= 1;
    }
    proof {
        assert forall|j: int| rest.len() - (to - b) <= j < rest.len() implies is_space(
            #[trigger] rest[j],
        ) by {
            assert(rest[j] == chars@[a + j]);
        }
        lemma_trailing_spaces(rest, to - b);
        assert(rest.take(rest.len() - (to - b)) =~= chars@.subrange(a as int, b as int));
    }
    string_of(chars, a, b)
}

/// The fields of `s` between separators, each without the white space at
/// its two ends.
pub open spec fn trimmed_fields(s: Seq<char>, sep: char) -> Seq<Seq<char>> {
    split_fields(s, sep).map_values(|f: Seq<char>| trimmed(f))
}

/// The fields of a text with a separator at `k` and none before it: the
/// text before `k`, then the fields of the text after it.
pub proof fn lemma_trimmed_fields_step(s: Seq<char>, sep: char, k: int)
    requires
        0 <= k < s.len(),
        forall|j: int| 0 <= j < k ==> s[j] != sep,
        s[k] == sep,
    ensures
        trimmed_fields(s, sep) == seq![trimmed(s.take(k))] + trimmed_fields(s.skip(k + 1), sep),
{
    lemma_position_of(s, sep, k);
    let head = seq![s.take(k)];
    let after = split_fields(s.skip(k + 1), sep);
    assert(split_fields(s, sep) == head + after);
    assert(trimmed_fields(s, sep) =~= seq![trimmed(s.take(k))] + trimmed_fields(
        s.skip(k + 1),
        sep,
    ));
}

/// A text without a separator is one field.
pub proof fn lemma_trimmed_fields_last(s: Seq<char>, sep: char)
    requires
        forall|j: int| 0 <= j < s.len() ==> s[j] != sep,
    ensures
        trimmed_fields(s, sep) == seq![trimmed(s)],
{
    lemma_position_of(s, sep, s.len() as int);
    assert(split_fields(s, sep) == seq![s]);
    assert(trimmed_fields(s, sep) =~= seq![trimmed(s)]);
}

/// Splits `s` at each `sep` and trims every field; see [`trimmed_fields`].
pub fn split_trimmed(s: &str, sep: char) -> (fields: Vec<String>)
    ensures
        texts(fields@) == trimmed_fields(s@, sep),
{
    let chars = chars_of(s);
    let n = chars.len();
    let mut fields: Vec<String> = Vec::new();
    let mut start: usize = 0;
    let mut i: usize = 0;
    assert(chars@.skip(0) =~= s@);
    assert(texts(fields@) + trimmed_fields(s@, sep) =~= trimmed_fields(s@, sep));
    while i < n
        invariant
            start <= i <= n == chars.len(),
            chars@ == s@,
            forall|j: int| start <= j < i ==> chars@[j] != sep,
            texts(fields@) + trimmed_fields(chars@.skip(start as int), sep) == trimmed_fields(
                s@,
                sep,
            ),
        decreases n - i,
    {
        if chars[i] == sep {
            let ghost tail = chars@.skip(start as int);
            let ghost before = texts(fields@);
            let ghost k = i - start;
            proof {
                assert forall|j: int| 0 <= j < k implies tail[j] != sep by {
                    assert(tail[j] == chars@[start + j]);
                }
                lemma_trimmed_fields_step(tail, sep, k);
                assert(tail.take(k) =~= chars@.subrange(start as int, i as int));
                assert(tail.skip(k + 1) =~= chars@.skip(i + 1));
            }
            let field = trimmed_string(&chars, start, i);
            fields.push(field);
            start = i + 1;
            proof {
                assert(texts(fields@) =~= before + seq![trimmed(tail.take(k))]);
                assert(texts(fields@) + trimmed_fields(chars@.skip(start as int), sep) =~= before
                    + trimmed_fields(tail, sep));
            }
        }
        i += 1;
    }
    let ghost tail = chars@.skip(start as int);
    let ghost before = texts(fields@);
    proof {
        assert forall|j: int| 0 <= j < tail.len() implies tail[j] != sep by {
            assert(tail[j] == chars@[start + j]);
        }
        lemma_trimmed_fields_last(tail, sep);
        assert(tail =~= chars@.subrange(start as int, n as int));
    }
    let field = trimmed_string(&chars, start, n);
    fields.push(field);
    assert(texts(fields@) =~= before + seq![trimmed(tail)]);
    fields
}

/// Whether two texts hold the same characters.
pub fn same_text(a: &str, b: &str) -> (r: bool)
    ensures
        r == (a@ == b@),
{
    let x = chars_of(a);
    let y = chars_of(b);
    if x.len() != y.len() {
        return false;
    }
    let mut i: usize = 0;
    while i < x.len()
        invariant
            i <= x.len() == y.len(),
            x@ == a@,
            y@ == b@,
            forall|j: int| 0 <= j < i ==> x@[j] == y@[j],
        decreases x.len() - i,
    {
        if x[i] != y[i] {
            assert(a@[i as int] != b@[i as int]);
            return false;
        }
        i += 1;
    }
    assert(x@ =~= y@);
    true
}

/// The number that `s` writes, as the standard library reads unsigned
/// integers: an optional `+`, then one digit or more. `None` for any other
/// text.
pub open spec fn unsigned_value(s: Seq<char>) -> Option<nat> {
    let body = if s.len() > 0 && s[0] == '+' {
        s.skip(1)
    } else {
        s
    };
    if body.len() > 0 && all_digits(body) {
        Some(digits_value(body))
    } else {
        None
    }
}

/// Reads an unsigned integer that is at most `limit`.
pub fn parse_unsigned(s: &str, limit: u64) -> (r: Option<u64>)
    ensures
        match unsigned_value(s@) {
            Some(n) => if n <= limit {
                r == Some(n as u64)
            } else {
                r is None
            },
            None => r is None,
        },
{
    let chars = chars_of(s);
    let n = chars.len();
    let start: usize = if n > 0 && chars[0] == '+' {
        1
    } else {
        0
    };
    assert(chars@.subrange(start as int, n as int) =~= if start == 1 {
        s@.skip(1)
    } else {
        s@
    });
    if start == n {
        return None;
    }
    read_digits(&chars, start, n, limit)
}

/// The numeral of an integer: a minus sign where it is negative, then the
/// decimal numeral of its absolute value.
pub open spec fn integer_text(i: int) -> Seq<char> {
    if i < 0 {
        seq!['-'] + decimal_text((-i) as nat)
    } else {
        decimal_text(i as nat)
    }
}

/// Appends the numeral of `i`.
pub fn push_integer(out: &mut String, i: i64)
    ensures
        final(out)@ == old(out)@ + integer_text(i as int),
{
    if i < 0 {
        out.push('-');
        push_decimal(out, (-(i as i128)) as u128);
        assert(out@ =~= old(out)@ + integer_text(i as int));
    } else {
        push_decimal(out, i as u128);
    }
}

/// The views of a list that grew by one string.
pub proof fn lemma_texts_push(v: Seq<String>, s: String)
    ensures
        texts(v.push(s)) == texts(v).push(s@),
{
    assert(texts(v.push(s)) =~= texts(v).push(s@));
}

/// The views of two lists joined.
pub proof fn lemma_texts_add(a: Seq<String>, b: Seq<String>)
    ensures
        texts(a + b) == texts(a) + texts(b),
{
    assert(texts(a + b) =~= texts(a) + texts(b));
}

/// Appends a cell to a row of texts.
pub fn push_cell(row: &mut Vec<String>, cell: String)
    ensures
        texts(final(row)@) == texts(old(row)@).push(cell@),
{
    proof {
        lemma_texts_push(row@, cell);
    }
    row.push(cell);
}

/// Appends a cell that holds `text` to a row of texts.
pub fn push_text_cell(row: &mut Vec<String>, text: &str)
    ensures
        texts(final(row)@) == texts(old(row)@).push(text@),
{
    push_cell(row, text.to_string());
}

/// A decimal numeral is read back as the number that it writes.
pub proof fn lemma_decimal_text_is_read_back(n: nat)
    ensures
        decimal_text(n).len() > 0,
        all_digits(decimal_text(n)),
        digits_value(decimal_text(n)) == n,
    decreases n,
{
    let t = decimal_text(n);
    let last = digit_char((n % 10) as int);
    assert(is_digit(last) && digit_value(last) == n % 10);
    if n >= 10 {
        let front = decimal_text(n / 10);
        lemma_decimal_text_is_read_back(n / 10);
        assert(t == front.push(last));
        assert(t.drop_last() =~= front);
        assert forall|i: int| 0 <= i < t.len() implies is_digit(#[trigger] t[i]) by {
            if i < front.len() {
                assert(t[i] == front[i]);
            }
        }
    } else {
        assert(t == seq![last]);
        assert(t.drop_last() =~= Seq::<char>::empty());
        assert(digits_value(t.drop_last()) == 0);
    }
}

/// A padded numeral is read back as the number that its digits write: the
/// remainder of `n` by ten to the power `width`.
pub proof fn lemma_padded_text_is_read_back(n: nat, width: nat)
    ensures
        padded_text(n, width).len() == width,
        all_digits(padded_text(n, width)),
        digits_value(padded_text(n, width)) == n % pow10(width),
        pow10(width) > 0,
    decreases width,
{
    let t = padded_text(n, width);
    if width > 0 {
        let p = pow10((width - 1) as nat);
        let a = n / 10;
        let b = n % 10;
        let last = digit_char(b as int);
        let front = padded_text(a, (width - 1) as nat);
        lemma_padded_text_is_read_back(a, (width - 1) as nat);
        assert(is_digit(last) && digit_value(last) == b);
        assert(t == front.push(last));
        assert(t.drop_last() =~= front);
        assert forall|i: int| 0 <= i < t.len() implies is_digit(#[trigger] t[i]) by {
            if i < front.len() {
                assert(t[i] == front[i]);
            }
        }
        vstd::arithmetic::div_mod::lemma_fundamental_div_mod(a as int, p as int);
        vstd::arithmetic::div_mod::lemma_mod_bound(a as int, p as int);
        let q = a / p;
        let m = a % p;
        let r = m * 10 + b;
        assert(n == q * (10 * p) + r) by (nonlinear_arith)
            requires
                n == 10 * a + b,
                a == p * q + m,
                r == m * 10 + b,
        ;
        vstd::arithmetic::div_mod::lemma_fundamental_div_mod_converse(
            n as int,
            (10 * p) as int,
            q as int,
            r as int,
        );
    } else {
        assert(pow10(0) == 1);
        assert(n % 1 == 0);
    }
}

/// Whether every character of `s` is the digit zero.
pub open spec fn all_zeros(s: Seq<char>) -> bool {
    forall|i: int| 0 <= i < s.len() ==> #[trigger] s[i] == '0'
}

/// A run of digits read in two parts: the number that the whole run writes
/// is the number of the first part, moved left by the length of the second,
/// plus the number of the second.
pub proof fn lemma_digits_value_split(s: Seq<char>, q: int)
    requires
        0 <= q <= s.len(),
    ensures
        digits_value(s) == digits_value(s.take(q)) * pow10((s.len() - q) as nat) + digits_value(
            s.skip(q),
        ),
    decreases s.len(),
{
    if q == s.len() {
        assert(s.take(q) =~= s);
        assert(s.skip(q).len() == 0);
        assert(pow10(0) == 1);
        assert(digits_value(s) * 1 == digits_value(s)) by (nonlinear_arith);
    } else {
        let t = s.drop_last();
        lemma_digits_value_split(t, q);
        assert(t.take(q) =~= s.take(q));
        assert(s.skip(q).drop_last() =~= t.skip(q));
        assert(s.skip(q).last() == s.last());
        let a = digits_value(s.take(q));
        let b = digits_value(t.skip(q));
        let p = pow10((t.len() - q) as nat);
        let d = digit_value(s.last());
        assert(pow10((s.len() - q) as nat) == 10 * p);
        assert(digits_value(t) == a * p + b);
        assert(digits_value(s) == digits_value(t) * 10 + d);
        assert(digits_value(s.skip(q)) == b * 10 + d);
        assert((a * p + b) * 10 + d == a * (10 * p) + (b * 10 + d)) by (nonlinear_arith);
    }
}

/// A run of `n` digits writes a number below ten to the power `n`.
pub proof fn lemma_digits_value_bound(s: Seq<char>)
    requires
        all_digits(s),
    ensures
        digits_value(s) < pow10(s.len()),
    decreases s.len(),
{
    if s.len() > 0 {
        let t = s.drop_last();
        assert forall|i: int| 0 <= i < t.len() implies is_digit(#[trigger] t[i]) by {
            assert(t[i] == s[i]);
        }
        lemma_digits_value_bound(t);
        assert(is_digit(s.last()));
    }
}

/// A run of digits writes zero exactly when all of them are zeros.
pub proof fn lemma_digits_value_zero(s: Seq<char>)
    requires
        all_digits(s),
    ensures
        digits_value(s) == 0 <==> all_zeros(s),
    decreases s.len(),
{
    if s.len() > 0 {
        let t = s.drop_last();
        assert forall|i: int| 0 <= i < t.len() implies is_digit(#[trigger] t[i]) by {
            assert(t[i] == s[i]);
        }
        lemma_digits_value_zero(t);
        assert(is_digit(s.last()));
        if all_zeros(s) {
            assert forall|i: int| 0 <= i < t.len() implies #[trigger] t[i] == '0' by {
                assert(t[i] == s[i]);
            }
            assert(s.last() == s[s.len() - 1]);
        }
        if digits_value(s) == 0 {
            assert forall|i: int| 0 <= i < s.len() implies #[trigger] s[i] == '0' by {
                if i < t.len() {
                    assert(s[i] == t[i]);
                } else {
                    assert(s[i] == s.last());
                }
            }
        }
    }
}

/// Ten to a power does not fall as the power grows, and is never zero.
pub proof fn lemma_pow10_grows(a: nat, b: nat)
    requires
        a <= b,
    ensures
        pow10(a) <= pow10(b),
        pow10(a) >= 1,
    decreases b,
{
    if a < b {
        lemma_pow10_grows(a, (b - 1) as nat);
    } else if a > 0 {
        lemma_pow10_grows((a - 1) as nat, (b - 1) as nat);
    }
}

} // verus!
