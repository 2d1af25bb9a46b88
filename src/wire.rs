//! Text formats of the two kernel interfaces: reading a speed and rendering
//! duty cycles.
use vstd::prelude::*;

verus! {

/// A character of the Unicode `White_Space` property, the set that
/// `char::is_whitespace` and `str::trim` go by.
pub open spec fn is_space(c: char) -> bool {
    ||| ('\u{9}' <= c && c <= '\u{d}')
    ||| c == ' '
    ||| c == '\u{85}'
    ||| c == '\u{a0}'
    ||| c == '\u{1680}'
    ||| ('\u{2000}' <= c && c <= '\u{200a}')
    ||| c == '\u{2028}'
    ||| c == '\u{2029}'
    ||| c == '\u{202f}'
    ||| c == '\u{205f}'
    ||| c == '\u{3000}'
}

/// `s` without its leading white space.
pub open spec fn trim_start(s: Seq<char>) -> Seq<char>
    decreases s.len(),
{
    if s.len() > 0 && is_space(s[0]) {
        trim_start(s.drop_first())
    } else {
        s
    }
}

/// `s` without its trailing white space.
pub open spec fn trim_end(s: Seq<char>) -> Seq<char>
    decreases s.len(),
{
    if s.len() > 0 && is_space(s.last()) {
        trim_end(s.drop_last())
    } else {
        s
    }
}

/// `s` without white space at either end.
pub open spec fn trim(s: Seq<char>) -> Seq<char> {
    trim_end(trim_start(s))
}

/// The longest prefix of `s` that holds no white space.
pub open spec fn leading_word(s: Seq<char>) -> Seq<char>
    decreases s.len(),
{
    if s.len() > 0 && !is_space(s[0]) {
        seq![s[0]] + leading_word(s.drop_first())
    } else {
        Seq::empty()
    }
}

/// The first white space separated word of `s`, empty where `s` has none.
pub open spec fn first_word(s: Seq<char>) -> Seq<char> {
    leading_word(trim_start(s))
}

pub open spec fn is_digit(c: char) -> bool {
    '0' <= c && c <= '9'
}

pub open spec fn digit_value(c: char) -> int {
    c as int - '0' as int
}

pub open spec fn all_digits(s: Seq<char>) -> bool {
    forall|i: int| 0 <= i < s.len() ==> is_digit(#[trigger] s[i])
}

/// The number that the decimal digits `s` write, most significant first.
pub open spec fn decimal_value(s: Seq<char>) -> nat
    decreases s.len(),
{
    if s.len() == 0 {
        0
    } else {
        (decimal_value(s.drop_last()) * 10 + digit_value(s.last())) as nat
    }
}

/// The digits of an unsigned number as text: one optional leading `+`
/// is dropped.
pub open spec fn unsigned_digits(s: Seq<char>) -> Seq<char> {
    if s.len() > 0 && s[0] == '+' {
        s.drop_first()
    } else {
        s
    }
}

/// What `u64`'s `from_str` gives for `s`: one or more ASCII digits after an
/// optional `+`, whose value fits in `u64`.
pub open spec fn parse_u64(s: Seq<char>) -> Option<u64> {
    let d = unsigned_digits(s);
    if d.len() > 0 && all_digits(d) && decimal_value(d) <= u64::MAX {
        Some(decimal_value(d) as u64)
    } else {
        None
    }
}

/// A number read leniently: what cannot be read counts as zero.
pub open spec fn number_or_zero(s: Seq<char>) -> u64 {
    match parse_u64(s) {
        Some(v) => v,
        None => 0,
    }
}

/// The speed in the text of the single device file: the first word after
/// the first colon, read as a number; zero where there is no colon or the
/// word is no number.
pub open spec fn unified_speed(s: Seq<char>) -> u64 {
    if exists|i: int| 0 <= i < s.len() && s[i] == ':' {
        let colon = choose|i: int| 0 <= i < s.len() && s[i] == ':' && forall|j: int| 0 <= j < i ==> s[j] != ':';
        number_or_zero(first_word(s.skip(colon + 1)))
    } else {
        0
    }
}

/// The speed in the text of the speed attribute file: the whole text without
/// surrounding white space, read as a number; zero where it is no number.
pub open spec fn split_speed(s: Seq<char>) -> u64 {
    number_or_zero(trim(s))
}

/// Reads `s@[from..to]` as an unsigned decimal number.
pub fn parse_decimal(s: &str, from: usize, to: usize) -> (r: Option<u64>)
    requires
        from <= to <= s@.len(),
    ensures
        r == parse_u64(s@.subrange(from as int, to as int)),
{
    let ghost t = s@.subrange(from as int, to as int);
    let mut start: usize = from;
    if from < to && s.get_char(from) == '+' {
        start = from + 1;
    }
    let ghost d = s@.subrange(start as int, to as int);
    assert(d =~= unsigned_digits(t));
    if start == to {
        return None;
    }
    let mut value: u64 = 0;
    let mut overflow: bool = false;
    let mut i: usize = start;
    while i < to
        invariant
            start <= i <= to <= s@.len(),
            d == s@.subrange(start as int, to as int),
            t == s@.subrange(from as int, to as int),
            d == unsigned_digits(t),
            all_digits(d.take(i - start)),
            !overflow ==> value == decimal_value(d.take(i - start)),
            overflow ==> decimal_value(d.take(i - start)) > u64::MAX,
        decreases to - i,
    {
        let c = s.get_char(i);
        if !('0' <= c && c <= '9') {
            assert(d[i - start] == c);
            assert(!is_digit(d[i - start]));
            assert(!all_digits(unsigned_digits(t)));
            return None;
        }
        let ghost k = i - start;
        assert(d.take(k + 1).drop_last() =~= d.take(k));
        assert(d.take(k + 1).last() == c);
        assert(all_digits(d.take(k + 1))) by {
            assert forall|j: int| 0 <= j < k + 1 implies is_digit(#[trigger] d.take(k + 1)[j]) by {
                if j < k {
                    assert(d.take(k + 1)[j] == d.take(k)[j]);
                }
            }
        }
        let digit: u64 = (c as u32 - '0' as u32) as u64;
        assert(decimal_value(d.take(k + 1)) == decimal_value(d.take(k)) * 10 + digit);
        if !overflow {
            if value > (u64::MAX - digit) / 10 {
                assert(value * 10 + digit > u64::MAX) by (nonlinear_arith)
                    requires
                        value > (u64::MAX - digit) / 10,
                        digit <= 9,
                ;
                overflow = true;
            } else {
                assert(value * 10 + digit <= u64::MAX) by (nonlinear_arith)
                    requires
                        value <= (u64::MAX - digit) / 10,
                        digit <= 9,
                ;
                value = value * 10 + digit;
            }
        }
        i = i + 1;
    }
    assert(d.take(d.len() as int) =~= d);
    if overflow {
        None
    } else {
        Some(value)
    }
}

/// The first index at or after `from` that is no white space, or `to`.
fn skip_space(s: &str, from: usize, to: usize) -> (k: usize)
    requires
        from <= to <= s@.len(),
    ensures
        from <= k <= to,
        trim_start(s@.subrange(from as int, to as int)) == s@.subrange(k as int, to as int),
{
    let mut k: usize = from;
    while k < to && is_whitespace(s.get_char(k))
        invariant
            from <= k <= to <= s@.len(),
            trim_start(s@.subrange(from as int, to as int)) == trim_start(
                s@.subrange(k as int, to as int),
            ),
        decreases to - k,
    {
        assert(s@.subrange(k as int, to as int).drop_first() =~= s@.subrange(k + 1, to as int));
        k = k + 1;
    }
    k
}

/// The end of `s@[from..to]` once its trailing white space is dropped.
fn trimmed_end(s: &str, from: usize, to: usize) -> (k: usize)
    requires
        from <= to <= s@.len(),
    ensures
        from <= k <= to,
        trim_end(s@.subrange(from as int, to as int)) == s@.subrange(from as int, k as int),
{
    let mut k: usize = to;
    while k > from && is_whitespace(s.get_char(k - 1))
        invariant
            from <= k <= to <= s@.len(),
            trim_end(s@.subrange(from as int, to as int)) == trim_end(
                s@.subrange(from as int, k as int),
            ),
        decreases k - from,
    {
        assert(s@.subrange(from as int, k as int).drop_last() =~= s@.subrange(
            from as int,
            k - 1,
        ));
        k = k - 1;
    }
    k
}

/// The end of the word that starts at `from`: the first white space at or
/// after `from`, or `to`.
fn word_end(s: &str, from: usize, to: usize) -> (k: usize)
    requires
        from <= to <= s@.len(),
    ensures
        from <= k <= to,
        leading_word(s@.subrange(from as int, to as int)) == s@.subrange(from as int, k as int),
{
    let mut k: usize = from;
    while k < to && !is_whitespace(s.get_char(k))
        invariant
            from <= k <= to <= s@.len(),
            leading_word(s@.subrange(from as int, to as int)) == s@.subrange(from as int, k as int)
                + leading_word(s@.subrange(k as int, to as int)),
        decreases to - k,
    {
        assert(s@.subrange(k as int, to as int).drop_first() =~= s@.subrange(k + 1, to as int));
        assert(s@.subrange(from as int, k as int) + seq![s@[k as int]] =~= s@.subrange(
            from as int,
            k + 1,
        ));
        assert(s@.subrange(from as int, k as int) + (seq![s@[k as int]] + leading_word(
            s@.subrange(k + 1, to as int),
        )) =~= s@.subrange(from as int, k + 1) + leading_word(s@.subrange(k + 1, to as int)));
        k = k + 1;
    }
    assert(s@.subrange(from as int, k as int) + Seq::empty() =~= s@.subrange(from as int, k as int));
    k
}

/// Whether `c` is white space.
pub fn is_whitespace(c: char) -> (r: bool)
    ensures
        r == is_space(c),
{
    ('\u{9}' <= c && c <= '\u{d}') || c == ' ' || c == '\u{85}' || c == '\u{a0}' || c
        == '\u{1680}' || ('\u{2000}' <= c && c <= '\u{200a}') || c == '\u{2028}' || c
        == '\u{2029}' || c == '\u{202f}' || c == '\u{205f}' || c == '\u{3000}'
}

/// Reads the speed from the text of the speed attribute file.
pub fn parse_split_speed(text: &str) -> (r: u64)
    ensures
        r == split_speed(text@),
{
    let len = text.unicode_len();
    let start = skip_space(text, 0, len);
    let end = trimmed_end(text, start, len);
    assert(text@.subrange(0, len as int) =~= text@);
    match parse_decimal(text, start, end) {
        Some(v) => v,
        None => 0,
    }
}

/// Reads the speed from the text of the single device file.
pub fn parse_unified_speed(text: &str) -> (r: u64)
    ensures
        r == unified_speed(text@),
{
    let len = text.unicode_len();
    let mut colon: usize = 0;
    while colon < len && text.get_char(colon) != ':'
        invariant
            colon <= len == text@.len(),
            forall|j: int| 0 <= j < colon ==> text@[j] != ':',
        decreases len - colon,
    {
        colon = colon + 1;
    }
    if colon == len {
        return 0;
    }
    let ghost s = text@;
    let ghost first = choose|i: int|
        0 <= i < s.len() && s[i] == ':' && forall|j: int| 0 <= j < i ==> s[j] != ':';
    assert(0 <= colon < s.len() && s[colon as int] == ':' && forall|j: int|
        0 <= j < colon ==> s[j] != ':');
    assert(first == colon as int);
    let start = skip_space(text, colon + 1, len);
    let end = word_end(text, start, len);
    assert(s.skip(colon + 1) =~= s.subrange(colon + 1, len as int));
    match parse_decimal(text, start, end) {
        Some(v) => v,
        None => 0,
    }
}

/// The byte of the digit `0`.
pub const ASCII_ZERO: u8 = 48;

/// The byte of a space.
pub const ASCII_SPACE: u8 = 32;

/// The decimal digits of `n` as ASCII bytes, most significant first, with no
/// leading zero.
pub open spec fn decimal_text(n: nat) -> Seq<u8>
    decreases n,
{
    if n < 10 {
        seq![(ASCII_ZERO + n) as u8]
    } else {
        decimal_text(n / 10) + seq![(ASCII_ZERO + n % 10) as u8]
    }
}

/// The command line of the single device file: the three duty cycles in
/// decimal, separated by one space, with nothing after the last.
pub open spec fn unified_command(d1: nat, d2: nat, d3: nat) -> Seq<u8> {
    decimal_text(d1) + seq![ASCII_SPACE] + decimal_text(d2) + seq![ASCII_SPACE] + decimal_text(d3)
}

/// Appends the decimal digits of `n` to `out`.
fn push_decimal(out: &mut Vec<u8>, n: u32)
    ensures
        final(out)@ == old(out)@ + decimal_text(n as nat),
    decreases n,
{
    if n >= 10 {
        push_decimal(out, n / 10);
    }
    let digit: u8 = (n % 10) as u8;
    out.push(ASCII_ZERO + digit);
    assert(final(out)@ =~= old(out)@ + decimal_text(n as nat));
}

/// The decimal text of one duty cycle, as written to a per-LED attribute
/// file.
pub fn render_duty(duty: u32) -> (r: Vec<u8>)
    ensures
        r@ == decimal_text(duty as nat),
{
    let mut out: Vec<u8> = Vec::new();
    push_decimal(&mut out, duty);
    assert(out@ =~= decimal_text(duty as nat));
    out
}

/// The command that sets all three duty cycles through the single device
/// file.
pub fn render_unified_command(led1: u32, led2: u32, led3: u32) -> (r: Vec<u8>)
    ensures
        r@ == unified_command(led1 as nat, led2 as nat, led3 as nat),
{
    let mut out: Vec<u8> = Vec::new();
    push_decimal(&mut out, led1);
    out.push(ASCII_SPACE);
    push_decimal(&mut out, led2);
    out.push(ASCII_SPACE);
    push_decimal(&mut out, led3);
    assert(out@ =~= unified_command(led1 as nat, led2 as nat, led3 as nat));
    out
}

} // verus!
