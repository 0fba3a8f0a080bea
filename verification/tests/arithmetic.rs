use easycad::numeric::{format_length, parse_length};
use easycad::units::{
    clamp_coord_i128, clamp_radius_i128, div_floor_i128, div_round_i128, isqrt, isqrt_ceil,
    isqrt_round,
};

#[test]
fn division_rounds_to_nearest_ties_upward() {
    assert_eq!(div_round_i128(7, 2), 4);
    assert_eq!(div_round_i128(-7, 2), -3);
    assert_eq!(div_round_i128(5, 3), 2);
    assert_eq!(div_round_i128(4, 3), 1);
    assert_eq!(div_round_i128(-4, 3), -1);
    assert_eq!(div_round_i128(-5, 3), -2);
    assert_eq!(div_round_i128(0, 9), 0);
    assert_eq!(div_round_i128(12, 4), 3);
    assert_eq!(div_round_i128(-12, 4), -3);
    assert_eq!(div_round_i128(1, 2), 1);
    assert_eq!(div_round_i128(-1, 2), 0);
}

#[test]
fn division_rounds_down() {
    assert_eq!(div_floor_i128(7, 2), 3);
    assert_eq!(div_floor_i128(-7, 2), -4);
    assert_eq!(div_floor_i128(-8, 2), -4);
    assert_eq!(div_floor_i128(0, 5), 0);
    assert_eq!(div_floor_i128(-1, 5), -1);
}

#[test]
fn integer_square_roots() {
    assert_eq!(isqrt(0), 0);
    assert_eq!(isqrt(1), 1);
    assert_eq!(isqrt(24), 4);
    assert_eq!(isqrt(25), 5);
    assert_eq!(isqrt(26), 5);
    assert_eq!(isqrt(u128::MAX), u64::MAX);
    assert_eq!(isqrt(1u128 << 126), 1u64 << 63);
    assert_eq!(isqrt_round(0), 0);
    assert_eq!(isqrt_round(2), 1);
    assert_eq!(isqrt_round(3), 2);
    assert_eq!(isqrt_round(6), 2);
    assert_eq!(isqrt_round(7), 3);
    assert_eq!(isqrt_round(25_000_000), 5_000);
    assert_eq!(isqrt_round(2_000_000), 1_414);
    assert_eq!(isqrt_ceil(0), 0);
    assert_eq!(isqrt_ceil(25), 5);
    assert_eq!(isqrt_ceil(26), 6);
    assert_eq!(isqrt_ceil(2), 2);
}

#[test]
fn clamping() {
    assert_eq!(clamp_coord_i128(5), 5);
    assert_eq!(clamp_coord_i128(1_000_000_001), 1_000_000_000);
    assert_eq!(clamp_coord_i128(-1_000_000_001), -1_000_000_000);
    assert_eq!(clamp_radius_i128(-1), 0);
    assert_eq!(clamp_radius_i128(3_000_000_001), 3_000_000_000);
    assert_eq!(clamp_radius_i128(17), 17);
}

#[test]
fn lengths_are_read_as_decimals() {
    assert_eq!(parse_length("10"), Some(10_000));
    assert_eq!(parse_length("2.5"), Some(2_500));
    assert_eq!(parse_length("0"), Some(0));
    assert_eq!(parse_length("007"), Some(7_000));
    assert_eq!(parse_length("0.001"), Some(1));
    assert_eq!(parse_length(".5"), Some(500));
    assert_eq!(parse_length("5."), Some(5_000));
    assert_eq!(parse_length("12.34"), Some(12_340));
    assert_eq!(parse_length("1.2344"), Some(1_234));
    assert_eq!(parse_length("1.2345"), Some(1_235));
    assert_eq!(parse_length("1.23449999"), Some(1_234));
    assert_eq!(parse_length("0.0005"), Some(1));
    assert_eq!(parse_length("0.0004"), Some(0));
    assert_eq!(parse_length("0.9995"), Some(1_000));
}

#[test]
fn lengths_may_carry_a_sign() {
    assert_eq!(parse_length("+4"), Some(4_000));
    assert_eq!(parse_length("+1"), Some(1_000));
    assert_eq!(parse_length("+.5"), Some(500));
    assert_eq!(parse_length("-1"), Some(-1_000));
    assert_eq!(parse_length("-2.5"), Some(-2_500));
    assert_eq!(parse_length("-0"), Some(0));
    assert_eq!(parse_length("-0.0005"), Some(-1));
}

#[test]
fn lengths_may_carry_an_exponent() {
    assert_eq!(parse_length("1e3"), Some(1_000_000));
    assert_eq!(parse_length("1E3"), Some(1_000_000));
    assert_eq!(parse_length("1e+3"), Some(1_000_000));
    assert_eq!(parse_length("1.5e2"), Some(150_000));
    assert_eq!(parse_length("1.e1"), Some(10_000));
    assert_eq!(parse_length(".5e1"), Some(5_000));
    assert_eq!(parse_length("25e-1"), Some(2_500));
    assert_eq!(parse_length("1e0"), Some(1_000));
    assert_eq!(parse_length("1e-3"), Some(1));
    assert_eq!(parse_length("5e-4"), Some(1));
    assert_eq!(parse_length("4e-4"), Some(0));
    assert_eq!(parse_length("49999e-8"), Some(0));
    assert_eq!(parse_length("50000e-8"), Some(1));
    assert_eq!(parse_length("123456e-3"), Some(123_456));
    assert_eq!(parse_length("1234567e-4"), Some(123_457));
    assert_eq!(parse_length("-1e1"), Some(-10_000));
    assert_eq!(parse_length("+1.25e+1"), Some(12_500));
    assert_eq!(parse_length("1e007"), Some(10_000_000_000));
    assert_eq!(parse_length("9e-99999999999999999999999999"), Some(0));
    assert_eq!(parse_length("0e99999999999999999999999999"), Some(0));
    assert_eq!(parse_length("0.000e99999999999999999999999999"), Some(0));
}

#[test]
fn texts_that_are_no_numbers_are_refused() {
    for text in [
        "", ".", "abc", "+", "-", "+-1", "--1", "1+", "1.2.3", "12a", " 1", "1 ", "1,5", "½", "inf",
        "+inf", "infinity", "nan", "NaN", "e", "e3", ".e3", "+e3", "1e", "1e+", "1e-", "1e3e4",
        "1e3.0", "1e.5", "1e 3", "1e+-3", "0x10", "1_000", "1f",
    ] {
        assert_eq!(parse_length(text), None, "{:?}", text);
    }
}

#[test]
fn huge_lengths_count_as_the_cap() {
    assert_eq!(parse_length("999999999999"), Some(999_999_999_999_000));
    assert_eq!(parse_length("1000000000000"), Some(1_000_000_000_000_000));
    assert_eq!(parse_length("1000000000000.001"), Some(1_000_000_000_000_000));
    assert_eq!(parse_length("123456789012345678901234567890.5"), Some(1_000_000_000_000_000));
    assert_eq!(parse_length("1e12"), Some(1_000_000_000_000_000));
    assert_eq!(parse_length("1e13"), Some(1_000_000_000_000_000));
    assert_eq!(parse_length("0.001e400"), Some(1_000_000_000_000_000));
    assert_eq!(parse_length("1e99999999999999999999999999"), Some(1_000_000_000_000_000));
    assert_eq!(parse_length("-1e99999999999999999999999999"), Some(-1_000_000_000_000_000));
}

#[test]
fn lengths_are_written_with_up_to_three_decimals() {
    assert_eq!(format_length(5_000), "5");
    assert_eq!(format_length(5_500), "5.5");
    assert_eq!(format_length(1_234), "1.234");
    assert_eq!(format_length(1_230), "1.23");
    assert_eq!(format_length(1_001), "1.001");
    assert_eq!(format_length(50), "0.05");
    assert_eq!(format_length(7), "0.007");
    assert_eq!(format_length(0), "0");
    assert_eq!(format_length(1_000_000), "1000");
    assert_eq!(format_length(12_345_678), "12345.678");
    assert_eq!(format_length(u64::MAX), "18446744073709551.615");
}

#[test]
fn written_lengths_read_back() {
    for d in [0u64, 1, 9, 10, 99, 100, 999, 1_000, 1_001, 5_000, 123_456_789] {
        assert_eq!(parse_length(&format_length(d)), Some(d as i64));
    }
}

#[test]
fn characters_of_a_typed_length() {
    for c in "0123456789.".chars() {
        assert!(easycad::numeric::is_entry_char(c));
    }
    for c in "-+e ,/:a٣".chars() {
        assert!(!easycad::numeric::is_entry_char(c));
    }
}
