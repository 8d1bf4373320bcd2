use snake::text::append_decimal;

fn decimal_of(value: u64) -> String {
    let mut out = String::new();
    append_decimal(&mut out, value);
    out
}

#[test]
fn decimal_of_single_digits() {
    assert_eq!(decimal_of(0), "0");
    assert_eq!(decimal_of(7), "7");
    assert_eq!(decimal_of(9), "9");
}

#[test]
fn decimal_of_longer_numbers() {
    assert_eq!(decimal_of(10), "10");
    assert_eq!(decimal_of(405), "405");
    assert_eq!(decimal_of(1234567890), "1234567890");
    assert_eq!(decimal_of(u64::MAX), "18446744073709551615");
}

#[test]
fn decimal_agrees_with_the_standard_formatting() {
    let mut value: u64 = 1;
    for _ in 0..60 {
        assert_eq!(decimal_of(value), format!("{}", value));
        assert_eq!(decimal_of(value.wrapping_sub(1)), format!("{}", value.wrapping_sub(1)));
        value = value.wrapping_mul(3).wrapping_add(7);
    }
}

#[test]
fn decimal_is_appended_to_what_is_there() {
    let mut out = String::from("x = ");
    append_decimal(&mut out, 42);
    append_decimal(&mut out, 0);
    assert_eq!(out, "x = 420");
}
