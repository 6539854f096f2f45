use bank_rust::decimal::integer_text;

#[test]
fn zero_is_a_single_digit() {
    assert_eq!(integer_text(0), "0");
}

#[test]
fn every_digit_has_its_character() {
    let digits = ["0", "1", "2", "3", "4", "5", "6", "7", "8", "9"];
    for (value, text) in digits.iter().enumerate() {
        assert_eq!(integer_text(value as i128), *text);
    }
    assert_eq!(integer_text(1234567890), "1234567890");
    assert_eq!(integer_text(9876543210), "9876543210");
}

#[test]
fn a_positive_number_has_no_sign_and_no_leading_zero() {
    assert_eq!(integer_text(7), "7");
    assert_eq!(integer_text(10), "10");
    assert_eq!(integer_text(1000), "1000");
    assert_eq!(integer_text(2500), "2500");
    assert_eq!(integer_text(100200), "100200");
}

#[test]
fn a_negative_number_starts_with_a_minus_sign() {
    assert_eq!(integer_text(-1), "-1");
    assert_eq!(integer_text(-9), "-9");
    assert_eq!(integer_text(-10), "-10");
    assert_eq!(integer_text(-500), "-500");
    assert_eq!(integer_text(-1000000), "-1000000");
}

#[test]
fn the_largest_and_the_smallest_number_are_written_in_full() {
    assert_eq!(integer_text(i128::MAX), "170141183460469231731687303715884105727");
    assert_eq!(integer_text(i128::MIN), "-170141183460469231731687303715884105728");
    assert_eq!(integer_text(i128::MIN + 1), "-170141183460469231731687303715884105727");
    assert_eq!(integer_text(i64::MAX as i128), "9223372036854775807");
    assert_eq!(integer_text(i64::MIN as i128), "-9223372036854775808");
}

#[test]
fn the_text_is_the_one_that_the_standard_library_writes() {
    let mut value: i128 = 1;
    while value < i128::MAX / 7 {
        assert_eq!(integer_text(value), value.to_string());
        assert_eq!(integer_text(-value), (-value).to_string());
        assert_eq!(integer_text(value - 1), (value - 1).to_string());
        value *= 7;
    }
}
