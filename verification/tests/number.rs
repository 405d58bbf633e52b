use minishell::number::{decimal_string, parse_i32};

#[test]
fn parse_plain_digits() {
    assert_eq!(parse_i32("0"), Some(0));
    assert_eq!(parse_i32("3"), Some(3));
    assert_eq!(parse_i32("127"), Some(127));
    assert_eq!(parse_i32("0005"), Some(5));
}

#[test]
fn parse_signs() {
    assert_eq!(parse_i32("-1"), Some(-1));
    assert_eq!(parse_i32("+7"), Some(7));
    assert_eq!(parse_i32("-0"), Some(0));
    assert_eq!(parse_i32("+"), None);
    assert_eq!(parse_i32("-"), None);
    assert_eq!(parse_i32("--1"), None);
    assert_eq!(parse_i32("+-1"), None);
    assert_eq!(parse_i32("1-"), None);
}

#[test]
fn parse_limits() {
    assert_eq!(parse_i32("2147483647"), Some(i32::MAX));
    assert_eq!(parse_i32("-2147483648"), Some(i32::MIN));
    assert_eq!(parse_i32("2147483648"), None);
    assert_eq!(parse_i32("-2147483649"), None);
    assert_eq!(parse_i32("99999999999999999999999999"), None);
    assert_eq!(parse_i32("-99999999999999999999999999"), None);
    assert_eq!(parse_i32("000000000000000000000000000000000001"), Some(1));
}

#[test]
fn parse_rejects_other_text() {
    assert_eq!(parse_i32(""), None);
    assert_eq!(parse_i32("abc"), None);
    assert_eq!(parse_i32("12a"), None);
    assert_eq!(parse_i32("1 2"), None);
    assert_eq!(parse_i32(" 1"), None);
    assert_eq!(parse_i32("1 "), None);
    assert_eq!(parse_i32("٣"), None);
    assert_eq!(parse_i32("0x10"), None);
}

#[test]
fn parse_agrees_with_std() {
    for s in [
        "", "0", "-", "+", "+0", "-0", "42", "-42", "+42", "4 2", "2147483647", "2147483648",
        "-2147483648", "-2147483649", "00", "1e3", "１２", "/", ":", "9", "0",
    ] {
        assert_eq!(parse_i32(s), s.parse::<i32>().ok(), "{:?}", s);
    }
}

#[test]
fn decimal_of_small_numbers() {
    assert_eq!(decimal_string(0), "0");
    assert_eq!(decimal_string(5), "5");
    assert_eq!(decimal_string(10), "10");
    assert_eq!(decimal_string(127), "127");
    assert_eq!(decimal_string(777), "777");
    assert_eq!(decimal_string(-5), "-5");
    assert_eq!(decimal_string(-100), "-100");
}

#[test]
fn decimal_of_limits() {
    assert_eq!(decimal_string(i32::MAX), "2147483647");
    assert_eq!(decimal_string(i32::MIN), "-2147483648");
}

#[test]
fn parse_undoes_decimal() {
    for n in [0, 1, -1, 9, 10, 99, 100, 255, 256, 777, -777, 65535, i32::MAX, i32::MIN] {
        assert_eq!(parse_i32(&decimal_string(n)), Some(n));
        assert_eq!(decimal_string(n), n.to_string());
    }
}
