//! What reading a byte count back from its text gives: the count itself
//! where the text shows it exactly, and else a count within the rounding of
//! the text.

use vstd::prelude::*;
use crate::human_bytes::{
    digits_value, fixed2, format_bytes_spec, fraction_digits, in_class, is_decimal_number,
    lemma_unit_index_bounds, lemma_unit_index_limit, parse_bytes_spec, pow10, pow1024,
    prefix_len, scaled_hundredths, scaled_value, two_digits, unit_index, unit_multiplier,
    unit_name, whole_digits, CharClass, FormatError, BYTES_LIMIT,
};
use crate::text::{decimal, digit_char, lemma_decimal_digits};

verus! {

/// A scan that passes `n` characters of the class and then meets the end
/// or a character outside the class has the length `n`.
pub proof fn lemma_prefix_len_exact(s: Seq<char>, n: int, class: CharClass)
    requires
        0 <= n <= s.len(),
        forall|i: int| 0 <= i < n ==> in_class(#[trigger] s[i], class),
        n < s.len() ==> !in_class(s[n], class),
    ensures
        prefix_len(s, class) == n,
    decreases n,
{
    if n > 0 {
        let rest = s.drop_first();
        assert forall|i: int| 0 <= i < n - 1 implies in_class(#[trigger] rest[i], class) by {
            assert(rest[i] == s[i + 1]);
        }
        lemma_prefix_len_exact(rest, n - 1, class);
    }
}

/// The digits of a number in base ten write that number.
pub proof fn lemma_digits_value_decimal(n: nat)
    ensures
        digits_value(decimal(n)) == n,
    decreases n,
{
    if n < 10 {
        assert(decimal(n).drop_last() =~= Seq::<char>::empty());
        assert(digits_value(decimal(n).drop_last()) == 0);
    } else {
        lemma_digits_value_decimal(n / 10);
        assert(decimal(n).drop_last() =~= decimal(n / 10));
    }
}

/// The text of a count below 1024 is read back as that count.
proof fn lemma_parse_format_bytes_small(bytes: nat)
    requires
        bytes < 1024,
    ensures
        parse_bytes_spec(format_bytes_spec(bytes)) == Ok::<u128, FormatError>(bytes as u128),
{
    let digits = decimal(bytes);
    let s = format_bytes_spec(bytes);
    let n = digits.len() as int;
    reveal_strlit("B");
    lemma_decimal_digits(bytes);
    assert(s =~= digits + seq!['B']);
    assert forall|i: int| 0 <= i < n implies in_class(#[trigger] s[i], CharClass::Numeric) by {
        assert(s[i] == digits[i]);
    }
    lemma_prefix_len_exact(s, n, CharClass::Numeric);
    let number = s.take(n);
    assert(number =~= digits);
    lemma_prefix_len_exact(number, n, CharClass::Digit);
    assert(whole_digits(number) =~= digits);
    assert(fraction_digits(number) =~= Seq::<char>::empty());
    assert(is_decimal_number(number));
    lemma_digits_value_decimal(bytes);
    let suffix = s.skip(n);
    assert(suffix =~= seq!['B']);
    lemma_prefix_len_exact(suffix, 0, CharClass::Space);
    assert(suffix.skip(0) =~= suffix);
    assert(unit_multiplier(suffix) == 1);
    assert(pow10(0) == 1);
    assert(digits_value(Seq::<char>::empty()) == 0);
    assert(scaled_value(number, 1) == bytes);
}

/// The name of a unit above the byte starts with the letter that stands
/// for its power of 1024, and with no space.
proof fn lemma_unit_name_multiplier(index: nat)
    requires
        1 <= index <= 8,
    ensures
        unit_multiplier(unit_name(index)) == pow1024(index),
        unit_name(index).len() == 3,
        !in_class(unit_name(index)[0], CharClass::Numeric),
{
    reveal_strlit("KiB");
    reveal_strlit("MiB");
    reveal_strlit("GiB");
    reveal_strlit("TiB");
    reveal_strlit("PiB");
    reveal_strlit("EiB");
    reveal_strlit("ZiB");
    reveal_strlit("YiB");
    let name = unit_name(index);
    lemma_prefix_len_exact(name, 0, CharClass::Space);
    assert(name.skip(0) =~= name);
}

/// A number with two fractional digits, followed by a unit, is read back
/// as its hundredths times the unit, divided by a hundred.
proof fn lemma_parse_fixed2(hundredths: nat, index: nat)
    requires
        1 <= index <= 8,
    ensures
        ({
            let s = fixed2(hundredths) + unit_name(index);
            let n = prefix_len(s, CharClass::Numeric) as int;
            &&& n > 0
            &&& is_decimal_number(s.take(n))
            &&& scaled_value(s.take(n), unit_multiplier(s.skip(n))) == hundredths * pow1024(index)
                / 100
        }),
{
    let whole = decimal(hundredths / 100);
    let fraction = two_digits(hundredths % 100);
    let name = unit_name(index);
    let s = fixed2(hundredths) + name;
    let w = whole.len() as int;
    let n = w + 3;
    lemma_decimal_digits(hundredths / 100);
    lemma_unit_name_multiplier(index);
    assert(fixed2(hundredths).len() == n);
    assert forall|i: int| 0 <= i < n implies in_class(#[trigger] s[i], CharClass::Numeric) by {
        if i < w {
            assert(s[i] == whole[i]);
        } else if i == w {
            assert(s[i] == '.');
        } else {
            assert(s[i] == fraction[i - w - 1]);
        }
    }
    assert(s[n] == name[0]);
    lemma_prefix_len_exact(s, n, CharClass::Numeric);
    let number = s.take(n);
    assert(number =~= fixed2(hundredths));
    assert forall|i: int| 0 <= i < w implies in_class(#[trigger] number[i], CharClass::Digit) by {
        assert(number[i] == whole[i]);
    }
    assert(number[w] == '.');
    lemma_prefix_len_exact(number, w, CharClass::Digit);
    assert(whole_digits(number) =~= whole);
    assert(fraction_digits(number) =~= fraction);
    lemma_prefix_len_exact(fraction, 2, CharClass::Digit);
    assert(is_decimal_number(number));
    lemma_digits_value_decimal(hundredths / 100);
    assert(digits_value(fraction) == hundredths % 100) by {
        let tens = seq![digit_char((hundredths % 100) / 10)];
        assert(fraction.drop_last() =~= tens);
        assert(tens.drop_last() =~= Seq::<char>::empty());
        assert(digits_value(tens.drop_last()) == 0);
        assert(digits_value(tens) == (hundredths % 100) / 10);
    }
    assert(pow10(2) == 100) by {
        reveal_with_fuel(pow10, 3);
    }
    assert(s.skip(n) =~= name);
    assert((hundredths / 100) * 100 + hundredths % 100 == hundredths);
}

/// What the text of a count is read back as: the count itself below 1024,
/// and else its rounded hundredths of the unit, in bytes, rounded down.
pub proof fn lemma_parse_format_bytes(bytes: nat)
    requires
        bytes < BYTES_LIMIT,
    ensures
        parse_bytes_spec(format_bytes_spec(bytes)) == Ok::<u128, FormatError>(
            if bytes < 1024 {
                bytes as u128
            } else {
                (scaled_hundredths(bytes) * pow1024(unit_index(bytes)) / 100) as u128
            },
        ),
        bytes >= 1024 ==> scaled_hundredths(bytes) * pow1024(unit_index(bytes)) / 100
            <= u128::MAX,
{
    if bytes < 1024 {
        lemma_parse_format_bytes_small(bytes);
    } else {
        let index = unit_index(bytes);
        let unit = pow1024(index);
        let hundredths = scaled_hundredths(bytes);
        lemma_unit_index_limit(bytes);
        lemma_unit_index_bounds(bytes);
        lemma_parse_fixed2(hundredths, index);
        lemma_scaled_hundredths_bounds(bytes);
        let back = hundredths * unit / 100;
        assert(200 * back <= 201 * bytes);
    }
}

/// The rounded hundredths of a count, taken back to bytes, lie within half
/// a hundredth of the unit of the count; rounded down to whole bytes, they
/// lie less than one byte further below.
pub proof fn lemma_scaled_hundredths_bounds(bytes: nat)
    requires
        bytes >= 1,
    ensures
        ({
            let unit = pow1024(unit_index(bytes));
            let back = scaled_hundredths(bytes) * unit / 100;
            &&& 200 * back <= 200 * bytes + unit
            &&& 200 * bytes < 200 * back + unit + 200
            &&& (bytes * 100) % unit == 0 ==> back == bytes
        }),
{
    let unit = pow1024(unit_index(bytes)) as int;
    let h = scaled_hundredths(bytes) as int;
    let q = (bytes * 100) / (unit as nat);
    let r = (bytes * 100) % (unit as nat);
    lemma_unit_index_bounds(bytes);
    vstd::arithmetic::div_mod::lemma_fundamental_div_mod((bytes * 100) as int, unit);
    assert(bytes * 100 == unit * q + r);
    assert(h == q || h == q + 1);
    let product = h * unit;
    assert(product == unit * h) by (nonlinear_arith)
        requires
            product == h * unit,
    ;
    // twice the distance between the rounded and the exact hundredths, in
    // bytes, is no more than the unit
    assert(2 * product <= 200 * bytes + unit && 200 * bytes <= 2 * product + unit) by {
        if h == q {
            assert(2 * r <= unit);
            assert(unit * h == unit * q);
        } else {
            assert(2 * r >= unit);
            assert(unit * h == unit * q + unit) by (nonlinear_arith)
                requires
                    h == q + 1,
            ;
        }
    }
    let back = product / 100;
    vstd::arithmetic::div_mod::lemma_fundamental_div_mod(product, 100);
    assert(product == 100 * back + product % 100);
    assert(scaled_hundredths(bytes) * pow1024(unit_index(bytes)) / 100 == back);
    if r == 0 {
        assert(h == q);
        assert(product == bytes * 100);
    }
}

/// Reading back the text of a byte count gives a count within the rounding
/// of the text: no more than half a hundredth of the unit above, and less
/// than that and one byte below.
pub proof fn lemma_parse_format_close(bytes: nat)
    requires
        bytes < BYTES_LIMIT,
    ensures
        parse_bytes_spec(format_bytes_spec(bytes)) matches Ok(back) && {
            &&& 200 * back <= 200 * bytes + pow1024(unit_index(bytes))
            &&& 200 * bytes < 200 * back + pow1024(unit_index(bytes)) + 200
        },
{
    lemma_parse_format_bytes(bytes);
    if bytes >= 1024 {
        lemma_scaled_hundredths_bounds(bytes);
    }
}

/// Reading back the text of a byte count gives the count itself where the
/// text shows it exactly: below 1024, and where the count is a whole number
/// of hundredths of its unit.
pub proof fn lemma_parse_format_exact(bytes: nat)
    requires
        bytes < BYTES_LIMIT,
        bytes < 1024 || (bytes * 100) % pow1024(unit_index(bytes)) == 0,
    ensures
        parse_bytes_spec(format_bytes_spec(bytes)) == Ok::<u128, FormatError>(bytes as u128),
{
    lemma_parse_format_bytes(bytes);
    if bytes >= 1024 {
        lemma_scaled_hundredths_bounds(bytes);
    }
}

} // verus!
