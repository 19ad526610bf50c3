use health_services::decimal::{format_i64, format_u64, parse_i64};
use health_services::fixed::{format_fixed, parse_fixed};

#[test]
fn format_u64_writes_plain_decimal() {
    assert_eq!(format_u64(0), "0");
    assert_eq!(format_u64(7), "7");
    assert_eq!(format_u64(10000), "10000");
    assert_eq!(format_u64(u64::MAX), "18446744073709551615");
}

#[test]
fn format_i64_writes_the_sign_of_a_negative_number() {
    assert_eq!(format_i64(0), "0");
    assert_eq!(format_i64(42), "42");
    assert_eq!(format_i64(-42), "-42");
    assert_eq!(format_i64(i64::MAX), "9223372036854775807");
    assert_eq!(format_i64(i64::MIN), "-9223372036854775808");
}

#[test]
fn parse_i64_reads_what_the_standard_parser_reads() {
    let cases = [
        "", "0", "7", "42", "-42", "+42", "-0", "+0", "007", "-", "+", "--1", "+-1", "1a", "a1",
        " 1", "1 ", "1.0", "9223372036854775807", "9223372036854775808", "-9223372036854775808",
        "-9223372036854775809", "00000000000000000000000000001", "99999999999999999999999",
        "-99999999999999999999999", "١٢٣", "1é", "é",
    ];
    for text in cases {
        assert_eq!(parse_i64(text), text.parse::<i64>().ok(), "for {:?}", text);
    }
}

#[test]
fn parse_i64_reads_back_what_format_i64_writes() {
    for v in [0, 1, -1, 9, 10, -10, 123456789, i64::MAX, i64::MIN, i64::MIN + 1] {
        assert_eq!(parse_i64(&format_i64(v)), Some(v));
    }
}

#[test]
fn parse_fixed_scales_by_ten_million() {
    assert_eq!(parse_fixed("0"), Some(0));
    assert_eq!(parse_fixed("1"), Some(10_000_000));
    assert_eq!(parse_fixed("37.7946"), Some(377_946_000));
    assert_eq!(parse_fixed("-122.3999"), Some(-1_223_999_000));
    assert_eq!(parse_fixed("4.5"), Some(45_000_000));
    assert_eq!(parse_fixed("0.0000001"), Some(1));
    assert_eq!(parse_fixed("-0.0000001"), Some(-1));
    assert_eq!(parse_fixed("-0"), Some(0));
    assert_eq!(parse_fixed("007.5"), Some(75_000_000));
}

#[test]
fn parse_fixed_rounds_toward_zero() {
    assert_eq!(parse_fixed("0.00000019"), Some(1));
    assert_eq!(parse_fixed("0.00000009"), Some(0));
    assert_eq!(parse_fixed("-0.00000019"), Some(-1));
    assert_eq!(parse_fixed("51.50740000000001"), Some(515_074_000));
    assert_eq!(parse_fixed("1.99999999999999999999999999999999999999999"), Some(19_999_999));
}

#[test]
fn parse_fixed_applies_the_exponent() {
    assert_eq!(parse_fixed("1e0"), Some(10_000_000));
    assert_eq!(parse_fixed("1e1"), Some(100_000_000));
    assert_eq!(parse_fixed("1E1"), Some(100_000_000));
    assert_eq!(parse_fixed("1e+1"), Some(100_000_000));
    assert_eq!(parse_fixed("1e-5"), Some(100));
    assert_eq!(parse_fixed("1e-7"), Some(1));
    assert_eq!(parse_fixed("1e-8"), Some(0));
    assert_eq!(parse_fixed("1.5e-6"), Some(15));
    assert_eq!(parse_fixed("12.5e-1"), Some(12_500_000));
    assert_eq!(parse_fixed("-2.5e2"), Some(-2_500_000_000));
    assert_eq!(parse_fixed("0.000123e3"), Some(1_230_000));
    assert_eq!(parse_fixed("123456e-3"), Some(1_234_560_000));
    assert_eq!(parse_fixed("123456e-13"), Some(0));
    assert_eq!(parse_fixed("123456e-12"), Some(1));
}

#[test]
fn parse_fixed_takes_exponents_of_any_size() {
    assert_eq!(parse_fixed("1e-99999999999999999999999999999999999999999999"), Some(0));
    assert_eq!(parse_fixed("0e99999999999999999999999999999999999999999999"), Some(0));
    assert_eq!(parse_fixed("0.000e99999999999999999999999999999999999999999999"), Some(0));
    assert_eq!(parse_fixed("1e99999999999999999999999999999999999999999999"), None);
    assert_eq!(parse_fixed("1e1000000000000000000000000000000"), None);
    assert_eq!(parse_fixed("1e-1000000000000000000000000000000"), Some(0));
    assert_eq!(parse_fixed("1e30"), None);
    assert_eq!(parse_fixed("0e30"), Some(0));
}

#[test]
fn parse_fixed_stops_at_the_largest_i64() {
    assert_eq!(parse_fixed("922337203685.4775807"), Some(i64::MAX));
    assert_eq!(parse_fixed("922337203685.4775808"), None);
    assert_eq!(parse_fixed("-922337203685.4775807"), Some(-i64::MAX));
    assert_eq!(parse_fixed("-922337203685.4775808"), None);
    assert_eq!(parse_fixed("922337203686"), None);
    assert_eq!(parse_fixed("1e12"), None);
    assert_eq!(parse_fixed("1e11"), Some(1_000_000_000_000_000_000));
}

#[test]
fn parse_fixed_rejects_what_is_no_literal() {
    for text in [
        "", "-", "+1", ".5", "5.", "1.e3", "1e", "1e+", "1e-", "e5", "1 ", " 1", "1,5", "0x10",
        "1.2.3", "1e2e3", "1e2.5", "--1", "NaN", "inf", "١٢٣", "1é",
    ] {
        assert_eq!(parse_fixed(text), None, "for {:?}", text);
    }
}

#[test]
fn format_fixed_writes_seven_digits_after_the_point() {
    assert_eq!(format_fixed(0), "0.0000000");
    assert_eq!(format_fixed(1), "0.0000001");
    assert_eq!(format_fixed(-1), "-0.0000001");
    assert_eq!(format_fixed(377_946_000), "37.7946000");
    assert_eq!(format_fixed(-1_223_999_000), "-122.3999000");
    assert_eq!(format_fixed(i64::MAX), "922337203685.4775807");
    assert_eq!(format_fixed(i64::MIN), "-922337203685.4775808");
}

#[test]
fn parse_fixed_reads_back_what_format_fixed_writes() {
    for v in [0, 1, -1, 9_999_999, 10_000_000, -10_000_001, 377_946_000, i64::MAX, -i64::MAX] {
        assert_eq!(parse_fixed(&format_fixed(v)), Some(v));
    }
}

/// A small generator of numbers that look random.
fn next(state: &mut u64) -> u64 {
    *state = state.wrapping_mul(6364136223846793005).wrapping_add(1442695040888963407);
    *state >> 11
}

#[test]
fn parse_i64_agrees_with_the_standard_parser_on_many_texts() {
    let alphabet: Vec<char> = "0123456789+- .x".chars().collect();
    let mut state = 7u64;
    for _ in 0..20000 {
        let len = (next(&mut state) % 22) as usize;
        let text: String =
            (0..len).map(|_| alphabet[(next(&mut state) % alphabet.len() as u64) as usize]).collect();
        assert_eq!(parse_i64(&text), text.parse::<i64>().ok(), "for {:?}", text);
    }
}

#[test]
fn texts_of_many_numbers_read_back() {
    let mut state = 11u64;
    for _ in 0..20000 {
        let v = (next(&mut state) << 11 | next(&mut state) >> 42) as i64 >> (next(&mut state) % 64);
        assert_eq!(format_i64(v), v.to_string());
        assert_eq!(parse_i64(&format_i64(v)), Some(v));
        if v != i64::MIN {
            assert_eq!(parse_fixed(&format_fixed(v)), Some(v), "for {}", v);
        }
    }
}

#[test]
fn parse_fixed_agrees_with_exact_arithmetic_on_many_literals() {
    let mut state = 13u64;
    for _ in 0..20000 {
        let whole = next(&mut state) % 1000;
        let digits = (next(&mut state) % 12) as u32;
        let fraction = next(&mut state) % 10u64.pow(digits);
        let exponent = (next(&mut state) % 15) as i32 - 7;
        let negative = next(&mut state) % 2 == 0;
        let text = format!(
            "{}{}.{:0width$}e{}",
            if negative { "-" } else { "" },
            whole,
            fraction,
            exponent,
            width = digits.max(1) as usize
        );
        // value = (whole * 10^w + fraction) * 10^(exponent - w + 7), w digits after the point
        let w = digits.max(1) as i32;
        let mantissa = whole as u128 * 10u128.pow(w as u32) + fraction as u128;
        let shift = exponent - w + 7;
        let units = if shift >= 0 {
            mantissa * 10u128.pow(shift as u32)
        } else {
            mantissa / 10u128.pow((-shift) as u32)
        };
        let expected = if units > i64::MAX as u128 {
            None
        } else if negative {
            Some(-(units as i64))
        } else {
            Some(units as i64)
        };
        assert_eq!(parse_fixed(&text), expected, "for {:?}", text);
    }
}
