use cstl::decimal::{append_decimal, to_decimal};

#[test]
fn decimal_of_zero_and_single_digits() {
    assert_eq!(to_decimal(0), "0");
    assert_eq!(to_decimal(7), "7");
    assert_eq!(to_decimal(9), "9");
}

#[test]
fn decimal_of_longer_numbers() {
    assert_eq!(to_decimal(10), "10");
    assert_eq!(to_decimal(1234567890), "1234567890");
    assert_eq!(to_decimal(100200), "100200");
    assert_eq!(to_decimal(usize::MAX), usize::MAX.to_string());
}

#[test]
fn append_decimal_keeps_what_is_there() {
    let mut text = String::from("n = ");
    append_decimal(&mut text, 42);
    append_decimal(&mut text, 0);
    assert_eq!(text, "n = 420");
}
