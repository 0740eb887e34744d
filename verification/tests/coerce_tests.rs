use rust_transform::coerce::{normalize_number, normalize_integer};

fn nn(s: &str) -> String {
    String::from_utf8(normalize_number(s.as_bytes())).unwrap()
}

fn nn_f64(s: &str) -> f64 {
    nn(s).parse::<f64>().unwrap()
}

#[test]
fn number_thousands_separator_with_dot() {
    assert_eq!(nn("1,234.56"), "1234.56");
    assert_eq!(nn_f64("1,234.56"), 1234.56);
}

#[test]
fn number_european_decimal_comma() {
    assert_eq!(nn("12,34"), "12.34");
    assert_eq!(nn_f64("12,34"), 12.34);
}

#[test]
fn number_empty_is_zero() {
    assert_eq!(nn(""), "0");
    assert_eq!(nn_f64(""), 0.0);
}

#[test]
fn number_unparsable_is_zero() {
    assert_eq!(nn("abc"), "0");
    assert_eq!(nn_f64("abc"), 0.0);
    assert_eq!(nn("1.2.3"), "0");
    assert_eq!(nn("--5"), "0");
    assert_eq!(nn("5-6"), "0");
}

#[test]
fn number_currency_symbols_stripped() {
    assert_eq!(nn("$ 19.99"), "19.99");
    assert_eq!(nn("AED 1,500"), "1500");
}

#[test]
fn number_long_comma_groups_are_thousands() {
    assert_eq!(nn("1,234,567"), "1234567");
    assert_eq!(nn("12,345"), "12345");
}

#[test]
fn number_trailing_comma() {
    assert_eq!(nn_f64("123,"), 123.0);
}

#[test]
fn number_canonical_form() {
    assert_eq!(nn("007"), "7");
    assert_eq!(nn("1.50"), "1.5");
    assert_eq!(nn("0.0"), "0");
    assert_eq!(nn("-0"), "0");
    assert_eq!(nn("-12.5"), "-12.5");
    assert_eq!(nn(".5"), "0.5");
    assert_eq!(nn("5."), "5");
}

#[test]
fn integer_first_digit_run() {
    assert_eq!(normalize_integer(b"Qty: 42 units"), 42);
    assert_eq!(normalize_integer(b""), 0);
    assert_eq!(normalize_integer(b"abc"), 0);
    assert_eq!(normalize_integer(b"12x34"), 12);
    assert_eq!(normalize_integer(b"-5"), 5);
    assert_eq!(normalize_integer(b"3.9"), 3);
}

#[test]
fn integer_overflow_is_zero() {
    assert_eq!(normalize_integer(b"99999999999999999999"), 0);
    assert_eq!(normalize_integer(b"9223372036854775807"), i64::MAX);
    assert_eq!(normalize_integer(b"9223372036854775808"), 0);
}

#[test]
fn coercion_is_reproducible() {
    let a = normalize_number(b"1,234.56");
    let b = normalize_number(b"1,234.56");
    assert_eq!(a, b);
    assert_eq!(normalize_integer(b"qty 7"), normalize_integer(b"qty 7"));
}
