use pview::human_bytes::{format_bytes, parse_bytes, FormatError};

#[test]
fn format_100b() {
    let actual = format_bytes(100);
    let expected = "100B";

    assert_eq!(actual, expected);
}

#[test]
fn format_1024b() {
    let actual = format_bytes(1024);
    let expected = "1.00KiB";

    assert_eq!(actual, expected);
}

#[test]
fn format_1400b() {
    let actual = format_bytes(1400);
    let expected = "1.37KiB";

    assert_eq!(actual, expected);
}

#[test]
fn format_567kib() {
    let actual = format_bytes(567 * 1024);
    let expected = "567.00KiB";

    assert_eq!(actual, expected);
}

#[test]
fn format_1024kib() {
    let actual = format_bytes(1024 * 1024);
    let expected = "1.00MiB";

    assert_eq!(actual, expected);
}

#[test]
fn format_24mib() {
    let actual = format_bytes(24 * 1024 * 1024);
    let expected = "24.00MiB";

    assert_eq!(actual, expected);
}

#[test]
fn parse_100() {
    let actual = parse_bytes("100");
    let expected = Ok(100);

    assert_eq!(actual, expected);
}

#[test]
fn parse_100b() {
    let actual = parse_bytes("100B");
    let expected = Ok(100);

    assert_eq!(actual, expected);
}

#[test]
fn parse_1024b() {
    let actual = parse_bytes("1024B");
    let expected = Ok(1024);

    assert_eq!(actual, expected);
}

#[test]
fn parse_1400b() {
    let actual = parse_bytes("1400B");
    let expected = Ok(1400);

    assert_eq!(actual, expected);
}

#[test]
fn parse_567kib() {
    let actual = parse_bytes("567KiB");
    let expected = Ok(567 * 1024);

    assert_eq!(actual, expected);
}

#[test]
fn parse_1024kib() {
    let actual = parse_bytes("1024KiB");
    let expected = Ok(1024 * 1024);

    assert_eq!(actual, expected);
}

#[test]
fn parse_24mib() {
    let actual = parse_bytes("24MiB");
    let expected = Ok(24 * 1024 * 1024);

    assert_eq!(actual, expected);
}

fn float_format(bytes: u128) -> String {
    let value = bytes as f64;
    let depth = (value.log2() / 10.0).floor() as usize;
    if depth == 0 {
        return format!("{}B", bytes);
    }
    let units = ["B", "KiB", "MiB", "GiB", "TiB", "PiB", "EiB", "ZiB", "YiB"];
    format!("{:.2}{}", value / 1024.0_f64.powi(depth as i32), units[depth])
}

#[test]
fn format_agrees_with_floating_point_below_a_mebibyte() {
    for bytes in 0..(1u128 << 20) {
        assert_eq!(format_bytes(bytes), float_format(bytes), "{}", bytes);
    }
}

#[test]
fn format_agrees_with_floating_point_on_a_stride() {
    let mut bytes: u128 = 1;
    while bytes < (1u128 << 49) {
        assert_eq!(format_bytes(bytes), float_format(bytes), "{}", bytes);
        assert_eq!(format_bytes(bytes - 1), float_format(bytes - 1), "{}", bytes - 1);
        bytes = bytes * 3 + 1;
    }
    for shift in 0..49u32 {
        let power = 1u128 << shift;
        for bytes in [power, power + 1, power + power / 8, power + power / 8 * 3] {
            assert_eq!(format_bytes(bytes), float_format(bytes), "{}", bytes);
        }
    }
}

#[test]
fn format_rounds_a_tie_to_the_even_digit() {
    assert_eq!(format_bytes(1152), "1.12KiB");
    assert_eq!(format_bytes(1408), "1.38KiB");
}

#[test]
fn format_edges() {
    assert_eq!(format_bytes(0), "0B");
    assert_eq!(format_bytes(1023), "1023B");
    assert_eq!(format_bytes((1 << 20) - 1), "1024.00KiB");
    assert_eq!(format_bytes(1 << 80), "1.00YiB");
    assert_eq!(format_bytes(1 << 70), "1.00ZiB");
    assert_eq!(format_bytes((1 << 90) - 1), "1024.00YiB");
}

#[test]
fn parse_units_in_either_case() {
    let letters = ["k", "m", "g", "t", "p", "e", "z", "y"];
    for (i, letter) in letters.iter().enumerate() {
        let expected = 3u128 << (10 * (i as u32 + 1));
        assert_eq!(parse_bytes(&format!("3{}", letter)), Ok(expected));
        assert_eq!(parse_bytes(&format!("3{}iB", letter.to_uppercase())), Ok(expected));
    }
    assert_eq!(parse_bytes("64K"), Ok(65536));
}

#[test]
fn parse_fractions_round_down() {
    assert_eq!(parse_bytes("1.5G"), Ok(3 << 29));
    assert_eq!(parse_bytes("0.1K"), Ok(102));
    assert_eq!(parse_bytes("1.9"), Ok(1));
    assert_eq!(parse_bytes(".5K"), Ok(512));
    assert_eq!(parse_bytes("2."), Ok(2));
    assert_eq!(parse_bytes("0.0009765625K"), Ok(1));
    assert_eq!(parse_bytes("0.00097656249999999999999999999999999999999999K"), Ok(0));
}

#[test]
fn parse_skips_space_before_the_unit() {
    assert_eq!(parse_bytes("2 K"), Ok(2048));
    assert_eq!(parse_bytes("2 \t M"), Ok(2 << 20));
    assert_eq!(parse_bytes("2 xK"), Ok(2));
}

#[test]
fn parse_space_is_what_the_standard_library_trims() {
    for code in 0..=0x10FFFFu32 {
        if let Some(c) = char::from_u32(code) {
            if c.is_ascii_digit() || c == '.' {
                continue;
            }
            let expected = if c.is_whitespace() { 1024 } else { 1 };
            let text = format!("1{}K", c);
            let by_first = match c.to_ascii_uppercase() {
                'K' => 1024,
                'M' => 1 << 20,
                'G' => 1 << 30,
                'T' => 1 << 40,
                'P' => 1u128 << 50,
                'E' => 1u128 << 60,
                'Z' => 1u128 << 70,
                'Y' => 1u128 << 80,
                _ => expected,
            };
            assert_eq!(parse_bytes(&text), Ok(by_first), "{:?}", c);
        }
    }
}

#[test]
fn parse_rejects_what_is_no_number() {
    assert_eq!(parse_bytes(""), Err(FormatError::Empty));
    assert_eq!(parse_bytes("K"), Err(FormatError::Empty));
    assert_eq!(parse_bytes("-1"), Err(FormatError::Empty));
    assert_eq!(parse_bytes(" 1"), Err(FormatError::Empty));
    assert_eq!(parse_bytes("."), Err(FormatError::Invalid));
    assert_eq!(parse_bytes(".K"), Err(FormatError::Invalid));
    assert_eq!(parse_bytes("1.2.3"), Err(FormatError::Invalid));
    assert_eq!(parse_bytes("1..2"), Err(FormatError::Invalid));
    assert_eq!(parse_bytes("..1K"), Err(FormatError::Invalid));
}

#[test]
fn parse_caps_at_the_largest_count() {
    assert_eq!(
        parse_bytes("340282366920938463463374607431768211455"),
        Ok(u128::MAX)
    );
    assert_eq!(
        parse_bytes("340282366920938463463374607431768211456"),
        Ok(u128::MAX)
    );
    assert_eq!(parse_bytes("999999999999999999999999999999999999999999Y"), Ok(u128::MAX));
    assert_eq!(parse_bytes("281474976710656Y"), Ok(u128::MAX));
    assert_eq!(parse_bytes("281474976710655Y"), Ok(281474976710655u128 << 80));
}

#[test]
fn parse_reads_back_what_format_shows_exactly() {
    for bytes in 0..1024u128 {
        assert_eq!(parse_bytes(&format_bytes(bytes)), Ok(bytes));
    }
    for unit in 1..=8u32 {
        let one = 1u128 << (10 * unit);
        // whole hundredths of the unit: multiples of a quarter
        for quarters in [4u128, 5, 6, 7, 100, 2268, 4095] {
            let bytes = one / 4 * quarters;
            assert_eq!(parse_bytes(&format_bytes(bytes)), Ok(bytes), "{}", bytes);
        }
    }
}

#[test]
fn parse_reads_back_what_format_shows_within_its_rounding() {
    let mut bytes: u128 = 1;
    while bytes < (1u128 << 90) {
        let back = parse_bytes(&format_bytes(bytes)).unwrap();
        let mut unit: u128 = 1;
        while unit * 1024 <= bytes {
            unit *= 1024;
        }
        assert!(200 * back <= 200 * bytes + unit, "{}", bytes);
        assert!(200 * bytes < 200 * back + unit + 200, "{}", bytes);
        bytes = bytes * 5 / 3 + 1;
    }
    assert_eq!(parse_bytes(&format_bytes(1400)), Ok(1402));
    assert_eq!(parse_bytes(&format_bytes((1 << 20) - 1)), Ok(1 << 20));
}
