//! Byte counts, rates, durations and percentages as text, and byte counts
//! read back from text.

use vstd::arithmetic::div_mod::lemma_div_denominator;
use vstd::prelude::*;
use vstd::string::*;
use crate::arith::{div_round_half_even, round_half_even};
use crate::text::{
    decimal, digit_char, digit_to_char, digit_value, is_digit, lemma_decimal_plain, plain,
    push_decimal, to_chars,
};

verus! {

/// The first byte count that is too large to be shown: `1024^9`.
pub const BYTES_LIMIT: u128 = 1237940039285380274899124224;

/// `1024^e`.
pub open spec fn pow1024(e: nat) -> nat
    decreases e,
{
    if e == 0 {
        1
    } else {
        1024 * pow1024((e - 1) as nat)
    }
}

/// The index of the binary unit in which `bytes` is shown: the largest `e`
/// with `1024^e <= bytes`, and 0 for a count below 1024.
pub open spec fn unit_index(bytes: nat) -> nat
    decreases bytes,
{
    if bytes < 1024 {
        0
    } else {
        1 + unit_index(bytes / 1024)
    }
}

/// The name of the unit with index `index`.
pub open spec fn unit_name(index: nat) -> Seq<char> {
    if index == 0 {
        "B"@
    } else if index == 1 {
        "KiB"@
    } else if index == 2 {
        "MiB"@
    } else if index == 3 {
        "GiB"@
    } else if index == 4 {
        "TiB"@
    } else if index == 5 {
        "PiB"@
    } else if index == 6 {
        "EiB"@
    } else if index == 7 {
        "ZiB"@
    } else {
        "YiB"@
    }
}

/// The two characters that show `n`, which is below 100.
pub open spec fn two_digits(n: nat) -> Seq<char> {
    seq![digit_char(n / 10), digit_char(n % 10)]
}

/// A number given in hundredths, with a decimal point and two fractional digits.
pub open spec fn fixed2(hundredths: nat) -> Seq<char> {
    decimal(hundredths / 100) + seq!['.'] + two_digits(hundredths % 100)
}

/// A number given in tenths, with a decimal point and one fractional digit.
pub open spec fn fixed1(tenths: nat) -> Seq<char> {
    decimal(tenths / 10) + seq!['.', digit_char(tenths % 10)]
}

/// `bytes` in its unit, as a number of hundredths.
pub open spec fn scaled_hundredths(bytes: nat) -> nat {
    round_half_even(bytes * 100, pow1024(unit_index(bytes)))
}

/// The text that shows `bytes`: whole bytes below 1024, else the count in
/// its binary unit with two fractional digits.
pub open spec fn format_bytes_spec(bytes: nat) -> Seq<char> {
    if bytes < 1024 {
        decimal(bytes) + "B"@
    } else {
        fixed2(scaled_hundredths(bytes)) + unit_name(unit_index(bytes))
    }
}

/// The unit of a count lies at or below the count, and the next unit above it.
pub proof fn lemma_unit_index_bounds(bytes: nat)
    requires
        bytes >= 1,
    ensures
        pow1024(unit_index(bytes)) <= bytes < pow1024(unit_index(bytes) + 1),
    decreases bytes,
{
    if bytes >= 1024 {
        lemma_unit_index_bounds(bytes / 1024);
        let e = unit_index(bytes / 1024);
        assert(pow1024(e + 1) == 1024 * pow1024(e));
        assert(pow1024(e + 2) == 1024 * pow1024(e + 1));
    } else {
        assert(pow1024(1) == 1024 * pow1024(0));
    }
}

/// A count below `1024^9` needs no unit beyond the ninth.
pub proof fn lemma_unit_index_limit(bytes: nat)
    requires
        bytes < BYTES_LIMIT,
    ensures
        unit_index(bytes) <= 8,
{
    reveal_with_fuel(unit_index, 10);
}

/// Appends a number given in hundredths, with two fractional digits.
pub fn push_fixed2(out: &mut String, hundredths: u128)
    ensures
        final(out)@ == old(out)@ + fixed2(hundredths as nat),
{
    push_decimal(out, hundredths / 100);
    out.push('.');
    let frac: u8 = (hundredths % 100) as u8;
    out.push(digit_to_char(frac / 10));
    out.push(digit_to_char(frac % 10));
    assert(final(out)@ =~= old(out)@ + fixed2(hundredths as nat));
}

/// Appends a number given in tenths, with one fractional digit.
pub fn push_fixed1(out: &mut String, tenths: u128)
    ensures
        final(out)@ == old(out)@ + fixed1(tenths as nat),
{
    push_decimal(out, tenths / 10);
    out.push('.');
    out.push(digit_to_char((tenths % 10) as u8));
    assert(final(out)@ =~= old(out)@ + fixed1(tenths as nat));
}

fn unit_str(index: u32) -> (name: &'static str)
    ensures
        name@ == unit_name(index as nat),
{
    if index == 0 {
        "B"
    } else if index == 1 {
        "KiB"
    } else if index == 2 {
        "MiB"
    } else if index == 3 {
        "GiB"
    } else if index == 4 {
        "TiB"
    } else if index == 5 {
        "PiB"
    } else if index == 6 {
        "EiB"
    } else if index == 7 {
        "ZiB"
    } else {
        "YiB"
    }
}

/// Appends the text that shows `bytes`.
pub fn push_bytes(out: &mut String, bytes: u128)
    requires
        bytes < BYTES_LIMIT,
    ensures
        final(out)@ == old(out)@ + format_bytes_spec(bytes as nat),
{
    if bytes < 1024 {
        push_decimal(out, bytes);
        out.append("B");
        assert(final(out)@ =~= old(out)@ + format_bytes_spec(bytes as nat));
        return;
    }
    let mut index: u32 = 0;
    let mut scale: u128 = 1;
    let mut rest: u128 = bytes;
    while rest >= 1024
        invariant
            bytes < BYTES_LIMIT,
            scale == pow1024(index as nat),
            unit_index(bytes as nat) == index + unit_index(rest as nat),
            rest * scale <= bytes,
            rest >= 1,
            scale >= 1,
            index <= 8,
        decreases rest,
    {
        proof {
            lemma_unit_index_limit(bytes as nat);
            assert((rest / 1024) * (scale * 1024) <= rest * scale) by (nonlinear_arith)
                requires
                    rest >= 0,
                    scale >= 0,
            ;
            assert(scale * 1024 <= rest * scale) by (nonlinear_arith)
                requires
                    rest >= 1024,
                    scale >= 0,
            ;
        }
        rest = rest / 1024;
        scale = scale * 1024;
        index = index + 1;
    }
    proof {
        lemma_unit_index_limit(bytes as nat);
        assert(bytes * 100 / (scale as int) <= bytes * 100) by (nonlinear_arith)
            requires
                scale >= 1,
                bytes >= 0,
        ;
    }
    let hundredths = div_round_half_even(bytes * 100, scale);
    push_fixed2(out, hundredths);
    out.append(unit_str(index));
    assert(final(out)@ =~= old(out)@ + format_bytes_spec(bytes as nat));
}

/// The text that shows a byte count: whole bytes with the unit `B` below
/// 1024, else the count in the binary unit that brings it into `[1, 1024)`,
/// with two fractional digits.
pub fn format_bytes(bytes: u128) -> (text: String)
    requires
        bytes < BYTES_LIMIT,
    ensures
        text@ == format_bytes_spec(bytes as nat),
{
    let mut text = String::new();
    push_bytes(&mut text, bytes);
    text
}

/// The text that shows a rate of `rate` bytes per second.
pub open spec fn format_transfer_rate_spec(rate: nat) -> Seq<char> {
    format_bytes_spec(rate) + "/s"@
}

/// Appends the text that shows a rate of `transfer_rate` bytes per second.
pub fn push_transfer_rate(out: &mut String, transfer_rate: u128)
    requires
        transfer_rate < BYTES_LIMIT,
    ensures
        final(out)@ == old(out)@ + format_transfer_rate_spec(transfer_rate as nat),
{
    push_bytes(out, transfer_rate);
    out.append("/s");
    assert(final(out)@ =~= old(out)@ + format_transfer_rate_spec(transfer_rate as nat));
}

/// The text that shows a rate, given in whole bytes per second: the byte
/// count as `format_bytes` shows it, and `/s`.
pub fn format_transfer_rate(transfer_rate: u128) -> (text: String)
    requires
        transfer_rate < BYTES_LIMIT,
    ensures
        text@ == format_transfer_rate_spec(transfer_rate as nat),
{
    let mut text = String::new();
    push_transfer_rate(&mut text, transfer_rate);
    text
}

/// The number of nanoseconds in a second.
pub const NANOS_PER_SECOND: u64 = 1_000_000_000;

/// `n` in at least two digits.
pub open spec fn at_least_two_digits(n: nat) -> Seq<char> {
    if n < 10 {
        seq!['0', digit_char(n)]
    } else {
        decimal(n)
    }
}

/// The text `HH:MM:SS` for a duration of `nanos` nanoseconds: its whole
/// seconds as hours, minutes below 60 and seconds below 60.
pub open spec fn format_duration_spec(nanos: nat) -> Seq<char> {
    let seconds = nanos / (NANOS_PER_SECOND as nat);
    at_least_two_digits(seconds / 3600) + seq![':'] + two_digits((seconds / 60) % 60) + seq![':']
        + two_digits(seconds % 60)
}

fn push_two_digits(out: &mut String, n: u8)
    requires
        n < 100,
    ensures
        final(out)@ == old(out)@ + two_digits(n as nat),
{
    out.push(digit_to_char(n / 10));
    out.push(digit_to_char(n % 10));
    assert(final(out)@ =~= old(out)@ + two_digits(n as nat));
}

/// Appends the text `HH:MM:SS` for a duration of `duration` nanoseconds.
pub fn push_duration(out: &mut String, duration: u64)
    ensures
        final(out)@ == old(out)@ + format_duration_spec(duration as nat),
{
    let seconds = duration / NANOS_PER_SECOND;
    let hours = seconds / 3600;
    if hours < 10 {
        out.push('0');
        out.push(digit_to_char(hours as u8));
    } else {
        push_decimal(out, hours as u128);
    }
    out.push(':');
    push_two_digits(out, ((seconds / 60) % 60) as u8);
    out.push(':');
    push_two_digits(out, (seconds % 60) as u8);
    assert(final(out)@ =~= old(out)@ + format_duration_spec(duration as nat));
}

/// The text `HH:MM:SS` for a duration given in nanoseconds. The hours,
/// minutes and seconds are those of its whole seconds, each in two digits;
/// the hours take more digits where they need them.
pub fn format_duration(duration: u64) -> (text: String)
    ensures
        text@ == format_duration_spec(duration as nat),
{
    let mut text = String::new();
    push_duration(&mut text, duration);
    text
}

/// A part of a whole, as the quotient of two counts.
#[derive(Clone, Copy, Debug, PartialEq, Eq)]
pub struct Fraction {
    pub numerator: u128,
    pub denominator: u128,
}

impl Fraction {
    /// The fraction as a percentage in units of `1 / scale` percent,
    /// rounded to the nearest, a tie to the even one.
    pub open spec fn percent(self, scale: nat) -> nat {
        round_half_even(self.numerator as nat * 100 * scale, self.denominator as nat)
    }

    /// Whether the fraction is below a tenth, so that its percentage has
    /// one digit before the point.
    pub open spec fn below_ten_percent(self) -> bool {
        self.numerator * 10 < self.denominator
    }

    /// Whether the fraction can be shown: ten thousand times its numerator
    /// is a number that fits, and its denominator is not zero.
    pub open spec fn showable(self) -> bool {
        self.numerator <= u128::MAX / 10_000 && self.denominator > 0
    }

    /// The percentage in hundredths of a percent.
    pub fn percent_hundredths(self) -> (p: u128)
        requires
            self.showable(),
        ensures
            p == self.percent(100),
    {
        div_round_half_even(self.numerator * 10000, self.denominator)
    }

    /// The percentage in tenths of a percent.
    pub fn percent_tenths(self) -> (p: u128)
        requires
            self.showable(),
        ensures
            p == self.percent(10),
    {
        div_round_half_even(self.numerator * 1000, self.denominator)
    }
}

/// The text that shows a fraction as a percentage: with two fractional
/// digits below ten percent, else with one.
pub open spec fn format_percentage_spec(p: Fraction) -> Seq<char> {
    if p.below_ten_percent() {
        fixed2(p.percent(100)) + "%"@
    } else {
        fixed1(p.percent(10)) + "%"@
    }
}

/// The text that shows a fraction as a percentage. Below ten percent it has
/// two fractional digits, from there on one, so that the text keeps its
/// width; the last digit is rounded to the nearest, a tie to the even one.
pub fn format_percentage(percentage: Fraction) -> (text: String)
    requires
        percentage.showable(),
    ensures
        text@ == format_percentage_spec(percentage),
{
    let mut text = String::new();
    if percentage.numerator * 10 < percentage.denominator {
        push_fixed2(&mut text, percentage.percent_hundredths());
    } else {
        push_fixed1(&mut text, percentage.percent_tenths());
    }
    text.append("%");
    assert(text@ =~= format_percentage_spec(percentage));
    text
}

/// A number with two fractional digits holds no control character.
pub proof fn lemma_fixed2_plain(hundredths: nat)
    ensures
        plain(fixed2(hundredths)),
{
    lemma_decimal_plain(hundredths / 100);
}

/// A number with one fractional digit holds no control character.
pub proof fn lemma_fixed1_plain(tenths: nat)
    ensures
        plain(fixed1(tenths)),
{
    lemma_decimal_plain(tenths / 10);
}

/// The text of a byte count holds no control character.
pub proof fn lemma_format_bytes_plain(bytes: nat)
    ensures
        plain(format_bytes_spec(bytes)),
{
    reveal_strlit("B");
    reveal_strlit("KiB");
    reveal_strlit("MiB");
    reveal_strlit("GiB");
    reveal_strlit("TiB");
    reveal_strlit("PiB");
    reveal_strlit("EiB");
    reveal_strlit("ZiB");
    reveal_strlit("YiB");
    lemma_decimal_plain(bytes);
    lemma_fixed2_plain(scaled_hundredths(bytes));
    assert(plain(unit_name(unit_index(bytes))));
}

/// The text of a rate holds no control character.
pub proof fn lemma_format_transfer_rate_plain(rate: nat)
    ensures
        plain(format_transfer_rate_spec(rate)),
{
    reveal_strlit("/s");
    lemma_format_bytes_plain(rate);
}

/// The text of a duration holds no control character.
pub proof fn lemma_format_duration_plain(nanos: nat)
    ensures
        plain(format_duration_spec(nanos)),
{
    let seconds = nanos / (NANOS_PER_SECOND as nat);
    lemma_decimal_plain(seconds / 3600);
}

/// Why a text is not a byte count.
#[derive(Clone, Copy, Debug, PartialEq, Eq, Structural)]
pub enum FormatError {
    /// The text does not start with a digit or a decimal point.
    Empty,
    /// The leading number has no digit, or more than one decimal point.
    Invalid,
}

/// A class of characters that a size text is scanned for.
#[derive(Clone, Copy, Debug, PartialEq, Eq, Structural)]
pub enum CharClass {
    /// The ten decimal digits.
    Digit,
    /// What the leading number of a size is made of: digits and points.
    Numeric,
    /// White space.
    Space,
}

/// Whether `c` is white space.
pub open spec fn is_space(c: char) -> bool {
    ||| '\u{9}' <= c <= '\u{D}'
    ||| c == ' '
    ||| c == '\u{85}'
    ||| c == '\u{A0}'
    ||| c == '\u{1680}'
    ||| '\u{2000}' <= c <= '\u{200A}'
    ||| c == '\u{2028}'
    ||| c == '\u{2029}'
    ||| c == '\u{202F}'
    ||| c == '\u{205F}'
    ||| c == '\u{3000}'
}

/// Whether `c` belongs to `class`.
pub open spec fn in_class(c: char, class: CharClass) -> bool {
    match class {
        CharClass::Digit => is_digit(c),
        CharClass::Numeric => is_digit(c) || c == '.',
        CharClass::Space => is_space(c),
    }
}

/// The length of the longest prefix of `s` whose characters are all in `class`.
pub open spec fn prefix_len(s: Seq<char>, class: CharClass) -> nat
    decreases s.len(),
{
    if s.len() > 0 && in_class(s[0], class) {
        1 + prefix_len(s.drop_first(), class)
    } else {
        0
    }
}

/// The number that the digits `s` write in base ten; 0 for no digit.
pub open spec fn digits_value(s: Seq<char>) -> nat
    decreases s.len(),
{
    if s.len() == 0 {
        0
    } else {
        digits_value(s.drop_last()) * 10 + digit_value(s.last())
    }
}

/// `10^e`.
pub open spec fn pow10(e: nat) -> nat
    decreases e,
{
    if e == 0 {
        1
    } else {
        10 * pow10((e - 1) as nat)
    }
}

/// The factor that a unit suffix stands for: a power of 1024 chosen by
/// the first character after leading white space, capital or small, and 1
/// for any other suffix.
pub open spec fn unit_multiplier(suffix: Seq<char>) -> nat {
    let unit = suffix.skip(prefix_len(suffix, CharClass::Space) as int);
    if unit.len() == 0 {
        1
    } else if unit[0] == 'K' || unit[0] == 'k' {
        pow1024(1)
    } else if unit[0] == 'M' || unit[0] == 'm' {
        pow1024(2)
    } else if unit[0] == 'G' || unit[0] == 'g' {
        pow1024(3)
    } else if unit[0] == 'T' || unit[0] == 't' {
        pow1024(4)
    } else if unit[0] == 'P' || unit[0] == 'p' {
        pow1024(5)
    } else if unit[0] == 'E' || unit[0] == 'e' {
        pow1024(6)
    } else if unit[0] == 'Z' || unit[0] == 'z' {
        pow1024(7)
    } else if unit[0] == 'Y' || unit[0] == 'y' {
        pow1024(8)
    } else {
        1
    }
}

/// The digits before the point of the number `number`.
pub open spec fn whole_digits(number: Seq<char>) -> Seq<char> {
    number.take(prefix_len(number, CharClass::Digit) as int)
}

/// What follows the point of the number `number`; empty where it has no point.
pub open spec fn fraction_digits(number: Seq<char>) -> Seq<char> {
    if prefix_len(number, CharClass::Digit) < number.len() {
        number.skip(prefix_len(number, CharClass::Digit) as int + 1)
    } else {
        Seq::<char>::empty()
    }
}

/// Whether `number`, made of digits and points, is a decimal number: it has
/// a digit, and at most one point.
pub open spec fn is_decimal_number(number: Seq<char>) -> bool {
    &&& prefix_len(fraction_digits(number), CharClass::Digit) == fraction_digits(number).len()
    &&& whole_digits(number).len() + fraction_digits(number).len() >= 1
}

/// The fraction that `digits` write behind a decimal point, times
/// `multiplier`, rounded down.
pub open spec fn scaled_fraction(digits: Seq<char>, multiplier: nat) -> nat {
    digits_value(digits) * multiplier / pow10(digits.len())
}

/// The decimal number `number` times `multiplier`, rounded down.
pub open spec fn scaled_value(number: Seq<char>, multiplier: nat) -> nat {
    let whole = digits_value(whole_digits(number));
    let fraction = fraction_digits(number);
    let unit = pow10(fraction.len());
    (whole * unit + digits_value(fraction)) * multiplier / unit
}

/// What a text means as a byte count: its leading number times the factor
/// of its unit suffix, rounded down, and `u128::MAX` where that is larger.
pub open spec fn parse_bytes_spec(s: Seq<char>) -> Result<u128, FormatError> {
    let n = prefix_len(s, CharClass::Numeric) as int;
    let number = s.take(n);
    if n == 0 {
        Err(FormatError::Empty)
    } else if !is_decimal_number(number) {
        Err(FormatError::Invalid)
    } else {
        let value = scaled_value(number, unit_multiplier(s.skip(n)));
        if value > u128::MAX {
            Ok(u128::MAX)
        } else {
            Ok(value as u128)
        }
    }
}

/// Every character of `s` is a digit.
pub open spec fn all_digits(s: Seq<char>) -> bool {
    forall|i: int| 0 <= i < s.len() ==> is_digit(#[trigger] s[i])
}

/// A prefix scan stops at the end of the text or at a character outside the
/// class, and passes only characters of the class.
pub proof fn lemma_prefix_len(s: Seq<char>, class: CharClass)
    ensures
        prefix_len(s, class) <= s.len(),
        forall|i: int| 0 <= i < prefix_len(s, class) ==> in_class(#[trigger] s[i], class),
        prefix_len(s, class) < s.len() ==> !in_class(s[prefix_len(s, class) as int], class),
    decreases s.len(),
{
    if s.len() > 0 && in_class(s[0], class) {
        let rest = s.drop_first();
        lemma_prefix_len(rest, class);
        assert forall|i: int| 0 <= i < prefix_len(s, class) implies in_class(
            #[trigger] s[i],
            class,
        ) by {
            if i > 0 {
                assert(s[i] == rest[i - 1]);
            }
        }
        if prefix_len(s, class) < s.len() {
            assert(s[prefix_len(s, class) as int] == rest[prefix_len(rest, class) as int]);
        }
    }
}

/// The value of digits, read from their first digit on.
pub proof fn lemma_digits_value_front(s: Seq<char>)
    requires
        s.len() > 0,
    ensures
        digits_value(s) == digit_value(s[0]) * pow10((s.len() - 1) as nat) + digits_value(
            s.drop_first(),
        ),
    decreases s.len(),
{
    if s.len() == 1 {
        assert(s.drop_last() =~= Seq::<char>::empty());
        assert(s.drop_first() =~= Seq::<char>::empty());
        assert(digits_value(s.drop_last()) == 0);
        assert(s.last() == s[0]);
        assert(pow10(0) == 1);
        assert(digits_value(s.drop_first()) == 0);
        assert(digits_value(s) == digit_value(s[0]));
        assert(digit_value(s[0]) * 1 == digit_value(s[0]));
    } else {
        let init = s.drop_last();
        lemma_digits_value_front(init);
        assert(init.drop_first() =~= s.drop_first().drop_last());
        assert(init[0] == s[0]);
        assert(s.drop_first().last() == s.last());
        let p = pow10((s.len() - 2) as nat);
        assert(pow10((s.len() - 1) as nat) == 10 * p);
        let d = digit_value(s[0]);
        let middle = digits_value(init.drop_first());
        assert(digits_value(init) == d * p + middle);
        assert(digits_value(s.drop_first()) == middle * 10 + digit_value(s.last()));
        assert((d * p + middle) * 10 == d * (10 * p) + middle * 10) by (nonlinear_arith);
        assert(digits_value(s) == digits_value(init) * 10 + digit_value(s.last()));
    }
}

/// Scaling a fraction digit by digit: the first digit's share and the
/// scaled rest, divided by ten, is the scaled whole.
pub proof fn lemma_fraction_step(s: Seq<char>, m: nat)
    requires
        s.len() > 0,
    ensures
        scaled_fraction(s, m) == (digit_value(s[0]) * m + scaled_fraction(s.drop_first(), m)) / 10,
{
    lemma_digits_value_front(s);
    let d = digit_value(s[0]) as int;
    let rest = digits_value(s.drop_first()) as int;
    let p = pow10((s.len() - 1) as nat) as int;
    let mi = m as int;
    lemma_pow10_positive((s.len() - 1) as nat);
    assert(pow10(s.len()) == 10 * p);
    assert((d * p + rest) * mi == (d * mi) * p + rest * mi) by (nonlinear_arith);
    assert(((d * mi) * p + rest * mi) / p == d * mi + (rest * mi) / p) by (nonlinear_arith)
        requires
            p > 0,
    ;
    assert(rest * mi >= 0) by (nonlinear_arith)
        requires
            rest >= 0,
            mi >= 0,
    ;
    assert((d * p + rest) * mi >= 0);
    lemma_div_denominator((d * p + rest) * mi, p, 10);
    assert(p * 10 == 10 * p);
}

/// Powers of ten are positive.
pub proof fn lemma_pow10_positive(e: nat)
    ensures
        pow10(e) > 0,
    decreases e,
{
    if e > 0 {
        lemma_pow10_positive((e - 1) as nat);
    }
}

fn char_in_class(c: char, class: CharClass) -> (b: bool)
    ensures
        b == in_class(c, class),
{
    match class {
        CharClass::Digit => '0' <= c && c <= '9',
        CharClass::Numeric => ('0' <= c && c <= '9') || c == '.',
        CharClass::Space => ('\u{9}' <= c && c <= '\u{D}') || c == ' ' || c == '\u{85}' || c
            == '\u{A0}' || c == '\u{1680}' || ('\u{2000}' <= c && c <= '\u{200A}') || c
            == '\u{2028}' || c == '\u{2029}' || c == '\u{202F}' || c == '\u{205F}' || c
            == '\u{3000}',
    }
}

/// The end of the run of characters of `class` that starts at `from`.
fn scan(chars: &Vec<char>, from: usize, class: CharClass) -> (end: usize)
    requires
        from <= chars.len(),
    ensures
        from <= end <= chars.len(),
        end == from + prefix_len(chars@.skip(from as int), class),
{
    let mut i = from;
    while i < chars.len() && char_in_class(chars[i], class)
        invariant
            from <= i <= chars.len(),
            prefix_len(chars@.skip(from as int), class) == (i - from) + prefix_len(
                chars@.skip(i as int),
                class,
            ),
        decreases chars.len() - i,
    {
        assert(chars@.skip(i as int).drop_first() =~= chars@.skip(i + 1));
        i = i + 1;
    }
    i
}

fn digit_of(c: char) -> (d: u8)
    requires
        is_digit(c),
    ensures
        d == digit_value(c),
        d < 10,
{
    (c as u32 - '0' as u32) as u8
}

/// The number that the digits of `chars` from `from` to `to` write, or
/// `None` where it is above `u128::MAX`.
fn whole_value(chars: &Vec<char>, from: usize, to: usize) -> (value: Option<u128>)
    requires
        from <= to <= chars.len(),
        all_digits(chars@.subrange(from as int, to as int)),
    ensures
        match value {
            Some(v) => v == digits_value(chars@.subrange(from as int, to as int)),
            None => digits_value(chars@.subrange(from as int, to as int)) > u128::MAX,
        },
{
    let ghost digits = chars@.subrange(from as int, to as int);
    let mut acc: u128 = 0;
    let mut overflow = false;
    let mut i = from;
    assert(digits.take(0) =~= Seq::<char>::empty());
    while i < to
        invariant
            from <= i <= to <= chars.len(),
            digits == chars@.subrange(from as int, to as int),
            all_digits(digits),
            !overflow ==> acc == digits_value(digits.take(i - from)),
            overflow ==> digits_value(digits.take(i - from)) > u128::MAX,
        decreases to - i,
    {
        let ghost before = digits.take(i - from);
        let ghost after = digits.take(i - from + 1);
        assert(after.drop_last() =~= before);
        assert(after.last() == chars@[i as int]);
        assert(is_digit(digits[i - from]));
        let d = digit_of(chars[i]);
        if !overflow {
            match acc.checked_mul(10) {
                Some(tens) => match tens.checked_add(d as u128) {
                    Some(next) => {
                        acc = next;
                    },
                    None => {
                        overflow = true;
                    },
                },
                None => {
                    overflow = true;
                },
            }
        }
        i = i + 1;
    }
    assert(digits.take(to - from) =~= digits);
    if overflow {
        None
    } else {
        Some(acc)
    }
}

/// The fraction that the digits of `chars` from `from` to `to` write
/// behind a decimal point, times `multiplier`, rounded down.
fn fraction_value(chars: &Vec<char>, from: usize, to: usize, multiplier: u128) -> (value: u128)
    requires
        from <= to <= chars.len(),
        all_digits(chars@.subrange(from as int, to as int)),
        0 < multiplier <= BYTES_LIMIT,
    ensures
        value == scaled_fraction(chars@.subrange(from as int, to as int), multiplier as nat),
        value < multiplier,
{
    let mut acc: u128 = 0;
    let mut i = to;
    assert(chars@.subrange(to as int, to as int) =~= Seq::<char>::empty());
    assert(scaled_fraction(Seq::<char>::empty(), multiplier as nat) == 0) by {
        assert(pow10(0) == 1);
        assert(digits_value(Seq::<char>::empty()) == 0);
    }
    while i > from
        invariant
            from <= i <= to <= chars.len(),
            all_digits(chars@.subrange(from as int, to as int)),
            0 < multiplier <= BYTES_LIMIT,
            acc == scaled_fraction(chars@.subrange(i as int, to as int), multiplier as nat),
            acc < multiplier,
        decreases i,
    {
        let ghost tail = chars@.subrange(i as int, to as int);
        i = i - 1;
        let ghost digits = chars@.subrange(i as int, to as int);
        assert(digits.drop_first() =~= tail);
        assert(digits[0] == chars@.subrange(from as int, to as int)[i - from]);
        proof {
            lemma_fraction_step(digits, multiplier as nat);
        }
        let d = digit_of(chars[i]);
        assert(d * multiplier <= 9 * multiplier) by (nonlinear_arith)
            requires
                d <= 9,
                multiplier >= 0,
        ;
        acc = (d as u128 * multiplier + acc) / 10;
    }
    acc
}

/// The factor that the unit suffix starting at `from` stands for.
fn multiplier_at(chars: &Vec<char>, from: usize) -> (multiplier: u128)
    requires
        from <= chars.len(),
    ensures
        multiplier == unit_multiplier(chars@.skip(from as int)),
        0 < multiplier < BYTES_LIMIT,
{
    let start = scan(chars, from, CharClass::Space);
    proof {
        reveal_with_fuel(pow1024, 9);
        assert(chars@.skip(from as int).skip((start - from) as int) =~= chars@.skip(start as int));
    }
    if start == chars.len() {
        return 1;
    }
    let c = chars[start];
    if c == 'K' || c == 'k' {
        1024
    } else if c == 'M' || c == 'm' {
        1048576
    } else if c == 'G' || c == 'g' {
        1073741824
    } else if c == 'T' || c == 't' {
        1099511627776
    } else if c == 'P' || c == 'p' {
        1125899906842624
    } else if c == 'E' || c == 'e' {
        1152921504606846976
    } else if c == 'Z' || c == 'z' {
        1180591620717411303424
    } else if c == 'Y' || c == 'y' {
        1208925819614629174706176
    } else {
        1
    }
}

/// The scan of a prefix of a text passes what the scan of the text
/// passes, up to the end of the prefix.
pub proof fn lemma_prefix_len_take(s: Seq<char>, n: int, class: CharClass)
    requires
        0 <= n <= s.len(),
    ensures
        prefix_len(s.take(n), class) == if prefix_len(s, class) <= n {
            prefix_len(s, class)
        } else {
            n as nat
        },
    decreases s.len(),
{
    if n > 0 && in_class(s[0], class) {
        assert(s.take(n).drop_first() =~= s.drop_first().take(n - 1));
        lemma_prefix_len_take(s.drop_first(), n - 1, class);
    }
}

/// Reads a byte count: a leading decimal number, which may have a fraction,
/// and a unit suffix of which the first letter counts, capital or small:
/// `K`, `M`, `G`, `T`, `P`, `E`, `Z` or `Y` for a power of 1024. Any other
/// suffix, and none, leaves the number as it is. The product is rounded
/// down, and capped at `u128::MAX`.
pub fn parse_bytes(string: &str) -> (result: Result<u128, FormatError>)
    ensures
        result == parse_bytes_spec(string@),
{
    let chars = to_chars(string);
    let end = scan(&chars, 0, CharClass::Numeric);
    let ghost text = chars@;
    let ghost number = text.take(end as int);
    assert(text.skip(0) =~= text);
    if end == 0 {
        return Err(FormatError::Empty);
    }
    let point = scan(&chars, 0, CharClass::Digit);
    proof {
        lemma_prefix_len(text, CharClass::Numeric);
        lemma_prefix_len(text, CharClass::Digit);
        if end < point {
            assert(in_class(text[end as int], CharClass::Digit));
        }
        lemma_prefix_len_take(text, end as int, CharClass::Digit);
        assert(whole_digits(number) =~= text.subrange(0, point as int));
        assert forall|i: int| 0 <= i < point implies is_digit(
            #[trigger] text.subrange(0, point as int)[i],
        ) by {
            assert(in_class(text[i], CharClass::Digit));
        }
    }
    let mut fraction_from = end;
    if point < end {
        fraction_from = point + 1;
        let fraction_end = scan(&chars, fraction_from, CharClass::Digit);
        proof {
            let behind = text.skip(fraction_from as int);
            lemma_prefix_len(behind, CharClass::Digit);
            lemma_prefix_len_take(behind, end - fraction_from, CharClass::Digit);
            assert(fraction_digits(number) =~= behind.take(end - fraction_from));
            assert(fraction_digits(number) =~= text.subrange(fraction_from as int, end as int));
            if fraction_end >= end {
                assert forall|i: int| 0 <= i < end - fraction_from implies is_digit(
                    #[trigger] text.subrange(fraction_from as int, end as int)[i],
                ) by {
                    assert(in_class(behind[i], CharClass::Digit));
                }
            }
        }
        if fraction_end < end {
            return Err(FormatError::Invalid);
        }
    } else {
        assert(fraction_digits(number) =~= text.subrange(end as int, end as int));
    }
    if point + (end - fraction_from) == 0 {
        return Err(FormatError::Invalid);
    }
    let ghost fraction = text.subrange(fraction_from as int, end as int);
    let multiplier = multiplier_at(&chars, end);
    let fraction_part = fraction_value(&chars, fraction_from, end, multiplier);
    let whole = whole_value(&chars, 0, point);
    proof {
        let w = digits_value(whole_digits(number)) as int;
        let f = digits_value(fraction) as int;
        let u = pow10(fraction.len()) as int;
        let m = multiplier as int;
        lemma_pow10_positive(fraction.len());
        assert(((w * u + f) * m) / u == w * m + (f * m) / u) by (nonlinear_arith)
            requires
                u > 0,
        ;
        assert(w * m >= w) by (nonlinear_arith)
            requires
                w >= 0,
                m >= 1,
        ;
        assert(scaled_value(number, multiplier as nat) == w * m + fraction_part);
    }
    match whole {
        None => Ok(u128::MAX),
        Some(w) => match w.checked_mul(multiplier) {
            None => Ok(u128::MAX),
            Some(product) => match product.checked_add(fraction_part) {
                None => Ok(u128::MAX),
                Some(value) => Ok(value),
            },
        },
    }
}

} // verus!
