use flowrs_backend::numeric::{parse_scaled, to_decimal_string, MAX_SCALED, SCALE};
use rust_decimal::Decimal;

#[test]
fn parse_scaled_reads_whole_and_fraction() {
    assert_eq!(parse_scaled("100.00"), Some(10_000_000_000));
    assert_eq!(parse_scaled("1.5"), Some(150_000_000));
    assert_eq!(parse_scaled("0.00000001"), Some(1));
    assert_eq!(parse_scaled("42"), Some(42 * SCALE));
    assert_eq!(parse_scaled("0"), Some(0));
    assert_eq!(parse_scaled("000100.5"), Some(10_050_000_000));
}

#[test]
fn parse_scaled_cuts_extra_digits_off() {
    assert_eq!(parse_scaled("1.123456789"), Some(112_345_678));
    assert_eq!(parse_scaled("0.000000019"), Some(1));
    assert_eq!(parse_scaled("0.999999999999"), Some(99_999_999));
}

#[test]
fn parse_scaled_rejects_other_shapes() {
    assert_eq!(parse_scaled(""), None);
    assert_eq!(parse_scaled("."), None);
    assert_eq!(parse_scaled("1."), None);
    assert_eq!(parse_scaled(".5"), None);
    assert_eq!(parse_scaled("-1.5"), None);
    assert_eq!(parse_scaled("+1.5"), None);
    assert_eq!(parse_scaled("1e5"), None);
    assert_eq!(parse_scaled("1.5e-3"), None);
    assert_eq!(parse_scaled("1.2.3"), None);
    assert_eq!(parse_scaled("12a"), None);
    assert_eq!(parse_scaled(" 1"), None);
    assert_eq!(parse_scaled("1,5"), None);
}

#[test]
fn parse_scaled_rejects_values_from_two_to_the_63() {
    assert_eq!(parse_scaled("92233720368.54775807"), Some(MAX_SCALED));
    assert_eq!(parse_scaled("92233720368.54775808"), None);
    assert_eq!(parse_scaled("92233720369"), None);
    assert_eq!(parse_scaled("184467440737.09551616"), None);
    assert_eq!(parse_scaled("99999999999999999999999999999999"), None);
}

#[test]
fn to_decimal_string_trims_trailing_zeros() {
    assert_eq!(to_decimal_string(10_000_000_000), "100");
    assert_eq!(to_decimal_string(150_000_000), "1.5");
    assert_eq!(to_decimal_string(1), "0.00000001");
    assert_eq!(to_decimal_string(0), "0");
    assert_eq!(to_decimal_string(10_050_000_000), "100.5");
    assert_eq!(to_decimal_string(u64::MAX), "184467440737.09551615");
}

#[test]
fn decimal_string_round_trip() {
    let values = [
        0u64,
        1,
        9,
        10,
        99_999_999,
        100_000_000,
        100_000_001,
        123_456_789_012,
        5_000_010_000_000,
        MAX_SCALED - 1,
        MAX_SCALED,
    ];
    for v in values {
        assert_eq!(parse_scaled(&to_decimal_string(v)), Some(v));
    }
    let mut v: u64 = 1;
    while v < MAX_SCALED / 7 {
        assert_eq!(parse_scaled(&to_decimal_string(v)), Some(v));
        v = v * 7 + 3;
    }
}

#[test]
fn decimal_string_above_the_bound_is_not_read_back() {
    assert_eq!(parse_scaled(&to_decimal_string(MAX_SCALED + 1)), None);
}

#[test]
fn decimal_string_is_the_normalized_decimal() {
    let values = [0u64, 1, 10, 150_000_000, 10_000_000_000, 123_456_789_012, u64::MAX];
    for v in values {
        let d = Decimal::from_i128_with_scale(v as i128, 8).normalize();
        assert_eq!(to_decimal_string(v), d.to_string());
    }
}
