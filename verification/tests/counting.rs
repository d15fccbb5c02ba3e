use workshop::decimal::to_decimal;

#[test]
fn zero_is_a_single_digit() {
    assert_eq!(to_decimal(0), "0");
}

#[test]
fn single_digits() {
    assert_eq!(to_decimal(1), "1");
    assert_eq!(to_decimal(4), "4");
    assert_eq!(to_decimal(9), "9");
}

#[test]
fn several_digits_come_most_significant_first() {
    assert_eq!(to_decimal(10), "10");
    assert_eq!(to_decimal(42), "42");
    assert_eq!(to_decimal(100), "100");
    assert_eq!(to_decimal(1234567890), "1234567890");
    assert_eq!(to_decimal(9007199254740993), "9007199254740993");
}

#[test]
fn the_largest_count() {
    assert_eq!(to_decimal(usize::MAX), format!("{}", usize::MAX));
}

#[test]
fn decimal_text_agrees_with_the_standard_formatting() {
    let mut n: usize = 0;
    while n < 2000 {
        assert_eq!(to_decimal(n), format!("{}", n));
        n += 7;
    }
}
