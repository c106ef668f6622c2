use todo_list::number::{parse_index, push_decimal};

fn decimal(n: usize) -> String {
    let mut out = String::new();
    push_decimal(&mut out, n);
    out
}

#[test]
fn push_decimal_writes_the_digits() {
    assert_eq!(decimal(0), "0");
    assert_eq!(decimal(7), "7");
    assert_eq!(decimal(9), "9");
    assert_eq!(decimal(10), "10");
    assert_eq!(decimal(99), "99");
    assert_eq!(decimal(100), "100");
    assert_eq!(decimal(1234567890), "1234567890");
    assert_eq!(decimal(usize::MAX), usize::MAX.to_string());
}

#[test]
fn push_decimal_appends_to_what_is_there() {
    let mut out = String::from("no. ");
    push_decimal(&mut out, 42);
    assert_eq!(out, "no. 42");
    push_decimal(&mut out, 0);
    assert_eq!(out, "no. 420");
}

#[test]
fn parse_index_reads_digits() {
    assert_eq!(parse_index("0"), Some(0));
    assert_eq!(parse_index("1"), Some(1));
    assert_eq!(parse_index("42"), Some(42));
    assert_eq!(parse_index("007"), Some(7));
    assert_eq!(parse_index("1234567890"), Some(1234567890));
}

#[test]
fn parse_index_takes_one_plus_sign() {
    assert_eq!(parse_index("+5"), Some(5));
    assert_eq!(parse_index("+0"), Some(0));
    assert_eq!(parse_index("+"), None);
    assert_eq!(parse_index("++5"), None);
    assert_eq!(parse_index("5+"), None);
    assert_eq!(parse_index("+-5"), None);
}

#[test]
fn parse_index_refuses_what_is_no_number() {
    assert_eq!(parse_index(""), None);
    assert_eq!(parse_index("-"), None);
    assert_eq!(parse_index("-1"), None);
    assert_eq!(parse_index("-0"), None);
    assert_eq!(parse_index("two"), None);
    assert_eq!(parse_index("2nd"), None);
    assert_eq!(parse_index("x2"), None);
    assert_eq!(parse_index(" 2"), None);
    assert_eq!(parse_index("2 "), None);
    assert_eq!(parse_index("2.0"), None);
    assert_eq!(parse_index("1_000"), None);
    assert_eq!(parse_index("0x10"), None);
    assert_eq!(parse_index("\u{663}"), None);
    assert_eq!(parse_index("\u{ff11}"), None);
}

#[test]
fn parse_index_refuses_what_does_not_fit() {
    let max = usize::MAX.to_string();
    assert_eq!(parse_index(&max), Some(usize::MAX));
    assert_eq!(parse_index(&format!("+000{}", max)), Some(usize::MAX));
    let mut past = max.clone();
    let last = past.pop().unwrap();
    past.push(char::from_digit(last.to_digit(10).unwrap() + 1, 10).unwrap());
    assert_eq!(parse_index(&past), None);
    assert_eq!(parse_index(&format!("{}0", max)), None);
    assert_eq!(parse_index("99999999999999999999999999999999999999999999"), None);
    assert_eq!(parse_index("99999999999999999999999999999999999999999999x"), None);
}

#[test]
fn parse_index_agrees_with_the_standard_library() {
    let samples = [
        "", "+", "-", "0", "00", "+0", "-0", "1", "+1", "-1", "++1", "+-1", "1+", "12", "12a",
        "a12", " 12", "12 ", "1 2", "18446744073709551615", "18446744073709551616",
        "4294967295", "4294967296", "000000000000000000000000000001", "\u{663}", "1\n",
    ];
    for text in samples {
        assert_eq!(parse_index(text), text.parse::<usize>().ok(), "for {:?}", text);
    }
}

#[test]
fn parse_index_reads_back_what_push_decimal_wrote() {
    for n in [0, 1, 9, 10, 11, 99, 100, 101, 65535, 65536, usize::MAX - 1, usize::MAX] {
        assert_eq!(parse_index(&decimal(n)), Some(n));
    }
}
