use usbmount::text::{copy_strings, decimal_string, parse_u64, same_text};

#[test]
fn decimal_string_writes_plain_numerals() {
    assert_eq!(decimal_string(0), "0");
    assert_eq!(decimal_string(7), "7");
    assert_eq!(decimal_string(10), "10");
    assert_eq!(decimal_string(2048), "2048");
    assert_eq!(decimal_string(1000000), "1000000");
    assert_eq!(decimal_string(u64::MAX), "18446744073709551615");
}

#[test]
fn decimal_string_agrees_with_the_standard_formatter() {
    let mut n: u64 = 1;
    for _ in 0..64 {
        assert_eq!(decimal_string(n), format!("{}", n));
        assert_eq!(decimal_string(n - 1), format!("{}", n - 1));
        n = n.wrapping_mul(2);
    }
}

#[test]
fn parse_u64_reads_decimal_numbers() {
    assert_eq!(parse_u64("0"), Some(0));
    assert_eq!(parse_u64("2048"), Some(2048));
    assert_eq!(parse_u64("0002048"), Some(2048));
    assert_eq!(parse_u64("+17"), Some(17));
    assert_eq!(parse_u64("18446744073709551615"), Some(u64::MAX));
}

#[test]
fn parse_u64_refuses_what_is_no_number() {
    assert_eq!(parse_u64(""), None);
    assert_eq!(parse_u64("+"), None);
    assert_eq!(parse_u64("-1"), None);
    assert_eq!(parse_u64("++1"), None);
    assert_eq!(parse_u64("12a"), None);
    assert_eq!(parse_u64(" 12"), None);
    assert_eq!(parse_u64("12\n"), None);
    assert_eq!(parse_u64("1_000"), None);
    assert_eq!(parse_u64("٣"), None);
}

#[test]
fn parse_u64_refuses_numbers_beyond_64_bits() {
    assert_eq!(parse_u64("18446744073709551616"), None);
    assert_eq!(parse_u64("184467440737095516150"), None);
    assert_eq!(parse_u64("99999999999999999999999999"), None);
}

#[test]
fn parse_u64_agrees_with_the_standard_parser() {
    let samples = vec![
        "", "0", "+0", "-0", "+", "007", "42", "4 2", "18446744073709551615",
        "18446744073709551616", "+18446744073709551615", "1e3", "0x10", "１２",
    ];
    for text in samples {
        assert_eq!(parse_u64(text), text.parse::<u64>().ok(), "{:?}", text);
    }
}

#[test]
fn parse_u64_undoes_decimal_string() {
    for n in vec![0u64, 1, 9, 10, 99, 100, 12345, u64::MAX / 10, u64::MAX] {
        assert_eq!(parse_u64(&decimal_string(n)), Some(n));
    }
}

#[test]
fn same_text_compares_whole_strings() {
    assert!(same_text(&String::from("usb"), "usb"));
    assert!(!same_text(&String::from("usb"), "usb "));
    assert!(!same_text(&String::from("usb"), "USB"));
    assert!(same_text(&String::new(), ""));
}

#[test]
fn copy_strings_keeps_order_and_content() {
    let list = vec![String::from("/a"), String::from(""), String::from("/b c")];
    assert_eq!(copy_strings(&list), list);
    assert_eq!(copy_strings(&Vec::new()), Vec::<String>::new());
}
