//! Decimal numbers: writing them as ASCII digits and reading them back from text.

use vstd::prelude::*;

verus! {

broadcast use vstd::seq_lib::group_seq_properties;

/// The ASCII decimal digits of `n`, without leading zeros (`"0"` for zero).
pub open spec fn decimal(n: nat) -> Seq<u8>
    decreases n,
{
    if n < 10 {
        seq![(48 + n) as u8]
    } else {
        decimal(n / 10).push((48 + n % 10) as u8)
    }
}

/// Appends the decimal digits of `n` to `out`.
pub fn push_decimal(out: &mut Vec<u8>, n: u64)
    ensures
        final(out)@ == old(out)@ + decimal(n as nat),
    decreases n,
{
    if n >= 10 {
        push_decimal(out, n / 10);
    }
    out.push((48 + n % 10) as u8);
}

/// The character of a decimal digit.
pub open spec fn digit_char(d: nat) -> char {
    if d == 0 {
        '0'
    } else if d == 1 {
        '1'
    } else if d == 2 {
        '2'
    } else if d == 3 {
        '3'
    } else if d == 4 {
        '4'
    } else if d == 5 {
        '5'
    } else if d == 6 {
        '6'
    } else if d == 7 {
        '7'
    } else if d == 8 {
        '8'
    } else {
        '9'
    }
}

/// The decimal digits of `n` as characters.
pub open spec fn decimal_chars(n: nat) -> Seq<char>
    decreases n,
{
    if n < 10 {
        seq![digit_char(n)]
    } else {
        decimal_chars(n / 10).push(digit_char(n % 10))
    }
}

/// The character of the digit `d`.
fn digit_char_exec(d: u64) -> (c: char)
    requires
        d < 10,
    ensures
        c == digit_char(d as nat),
{
    if d == 0 {
        '0'
    } else if d == 1 {
        '1'
    } else if d == 2 {
        '2'
    } else if d == 3 {
        '3'
    } else if d == 4 {
        '4'
    } else if d == 5 {
        '5'
    } else if d == 6 {
        '6'
    } else if d == 7 {
        '7'
    } else if d == 8 {
        '8'
    } else {
        '9'
    }
}

/// Appends the decimal digits of `n` to `out`.
pub fn push_decimal_chars(out: &mut String, n: u64)
    ensures
        final(out)@ == old(out)@ + decimal_chars(n as nat),
    decreases n,
{
    if n >= 10 {
        push_decimal_chars(out, n / 10);
    }
    crate::text::push_char_to(out, digit_char_exec(n % 10));
}

/// An ASCII decimal digit.
pub open spec fn is_digit(c: char) -> bool {
    '0' <= c && c <= '9'
}

/// The value of a sequence of decimal digits (0 for the empty sequence).
pub open spec fn digits_value(s: Seq<char>) -> nat
    decreases s.len(),
{
    if s.len() == 0 {
        0
    } else {
        digits_value(s.drop_last()) * 10 + ((s.last() as nat) - 48) as nat
    }
}

/// The digits of an unsigned number in text: the text without a leading `+`.
pub open spec fn unsigned_digits(s: Seq<char>) -> Seq<char> {
    if s.len() > 0 && s[0] == '+' {
        s.skip(1)
    } else {
        s
    }
}

/// What `str::parse` gives for an unsigned integer type whose largest value is `max`: an
/// optional `+`, then at least one decimal digit and nothing else, and a value that fits.
pub open spec fn parse_unsigned(s: Seq<char>, max: nat) -> Option<nat> {
    let d = unsigned_digits(s);
    if d.len() > 0 && (forall|i: int| 0 <= i < d.len() ==> is_digit(#[trigger] d[i]))
        && digits_value(d) <= max {
        Some(digits_value(d))
    } else {
        None
    }
}

/// Appending digits never makes the value smaller.
proof fn lemma_digits_value_grows(s: Seq<char>, k: int)
    requires
        0 <= k <= s.len(),
        forall|i: int| 0 <= i < s.len() ==> is_digit(#[trigger] s[i]),
    ensures
        digits_value(s.take(k)) <= digits_value(s),
    decreases s.len(),
{
    if k < s.len() {
        assert(s.drop_last().take(k) == s.take(k));
        lemma_digits_value_grows(s.drop_last(), k);
        assert(s.drop_last() == s.take(s.len() - 1));
    } else {
        assert(s.take(k) == s);
    }
}

/// Reads `v[start..end]` as an unsigned number no larger than `max`, as `str::parse` does.
pub fn parse_decimal_range(v: &Vec<char>, start: usize, end: usize, max: u64) -> (r: Option<u64>)
    requires
        start <= end <= v@.len(),
    ensures
        match r {
            Some(n) => parse_unsigned(v@.subrange(start as int, end as int), max as nat) == Some(
                n as nat,
            ),
            None => parse_unsigned(v@.subrange(start as int, end as int), max as nat) is None,
        },
{
    let ghost s = v@.subrange(start as int, end as int);
    let mut ds = start;
    if ds < end && v[ds] == '+' {
        ds += 1;
    }
    let ghost d = v@.subrange(ds as int, end as int);
    assert(unsigned_digits(s) == d);
    if ds == end {
        return None;
    }
    let mut acc: u64 = 0;
    let mut i = ds;
    while i < end
        invariant
            start <= ds <= i <= end <= v@.len(),
            d == v@.subrange(ds as int, end as int),
            s == v@.subrange(start as int, end as int),
            unsigned_digits(s) == d,
            acc as nat == digits_value(v@.subrange(ds as int, i as int)),
            acc <= max,
            forall|j: int| ds <= j < i ==> is_digit(#[trigger] v@[j]),
        decreases end - i,
    {
        let c = v[i];
        if !(c >= '0' && c <= '9') {
            assert(!is_digit(d[i - ds]));
            return None;
        }
        let dig: u64 = (c as u32 - 48) as u64;
        assert(v@.subrange(ds as int, i + 1).drop_last() == v@.subrange(ds as int, i as int));
        if dig > max || acc > (max - dig) / 10 {
            proof {
                let p = v@.subrange(ds as int, i + 1);
                assert(digits_value(p) == acc * 10 + dig);
                assert(acc * 10 + dig > max) by (nonlinear_arith)
                    requires
                        dig > max || acc > (max - dig) / 10,
                        dig <= 9,
                ;
                if forall|j: int| 0 <= j < d.len() ==> is_digit(#[trigger] d[j]) {
                    lemma_digits_value_grows(d, i + 1 - ds);
                    assert(d.take(i + 1 - ds) == p);
                }
            }
            return None;
        }
        assert(acc * 10 + dig <= max) by (nonlinear_arith)
            requires
                dig <= max,
                acc <= (max - dig) / 10,
        ;
        acc = acc * 10 + dig;
        i += 1;
    }
    assert(v@.subrange(ds as int, end as int) == d);
    assert forall|j: int| 0 <= j < d.len() implies is_digit(#[trigger] d[j]) by {
        assert(d[j] == v@[ds + j]);
    }
    Some(acc)
}

/// The character of a digit is that digit's ASCII code.
proof fn lemma_digit_char(d: nat)
    requires
        d < 10,
    ensures
        digit_char(d) as nat == 48 + d,
        is_digit(digit_char(d)),
{
}

/// The digits written for `n` are decimal digits.
pub proof fn lemma_decimal_chars_digits(n: nat)
    ensures
        decimal_chars(n).len() > 0,
        forall|i: int| 0 <= i < decimal_chars(n).len() ==> is_digit(#[trigger] decimal_chars(n)[i]),
{
    lemma_decimal_chars_value(n);
}

/// The digits written for `n` are decimal digits whose value is `n`.
proof fn lemma_decimal_chars_value(n: nat)
    ensures
        decimal_chars(n).len() > 0,
        forall|i: int| 0 <= i < decimal_chars(n).len() ==> is_digit(#[trigger] decimal_chars(n)[i]),
        digits_value(decimal_chars(n)) == n,
    decreases n,
{
    lemma_digit_char(n % 10);
    if n < 10 {
        assert(n % 10 == n);
        let s = seq![digit_char(n)];
        assert(s.drop_last() == Seq::<char>::empty());
        assert(digits_value(s) == digits_value(s.drop_last()) * 10 + ((s.last() as nat) - 48) as nat);
        assert(digits_value(Seq::<char>::empty()) == 0);
    }
    if n >= 10 {
        lemma_decimal_chars_value(n / 10);
        let s = decimal_chars(n);
        assert(s.drop_last() == decimal_chars(n / 10));
        assert(s.last() == digit_char(n % 10));
        assert(digits_value(s) == digits_value(s.drop_last()) * 10 + ((s.last() as nat) - 48) as nat);
        assert(n / 10 * 10 + n % 10 == n);
        assert forall|i: int| 0 <= i < s.len() implies is_digit(#[trigger] s[i]) by {
            if i < s.len() - 1 {
                assert(s[i] == decimal_chars(n / 10)[i]);
            }
        }
    }
}

/// What is written as a decimal number reads back as that number: `str::parse` of the digits
/// that `push_decimal_chars` writes for `n` gives `n` for any type whose range holds it.
pub proof fn lemma_decimal_round_trip(n: nat, max: nat)
    requires
        n <= max,
    ensures
        parse_unsigned(decimal_chars(n), max) == Some(n),
{
    lemma_decimal_chars_value(n);
    assert(is_digit(decimal_chars(n)[0]));
    assert(unsigned_digits(decimal_chars(n)) == decimal_chars(n));
}

/// The digits written as bytes and as characters are the same: `decimal(n)` is the UTF-8
/// encoding of `decimal_chars(n)`.
pub proof fn lemma_decimal_bytes(n: nat)
    ensures
        decimal(n) == vstd::utf8::encode_utf8(decimal_chars(n)),
    decreases n,
{
    let d = n % 10;
    let c = digit_char(d);
    assert(vstd::utf8::is_ascii_chars(seq![c]));
    vstd::utf8::is_ascii_chars_encode_utf8(seq![c]);
    assert(vstd::utf8::encode_utf8(seq![c]) =~= seq![(48 + d) as u8]);
    if n >= 10 {
        lemma_decimal_bytes(n / 10);
        crate::text::lemma_encode_utf8_concat(decimal_chars(n / 10), seq![c]);
        assert(decimal_chars(n / 10).push(c) == decimal_chars(n / 10) + seq![c]);
        assert(decimal(n / 10).push((48 + d) as u8) == decimal(n / 10) + seq![(48 + d) as u8]);
    }
}

} // verus!
