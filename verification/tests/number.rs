use webserver_base::number::{decimal, digits, parse_port};

#[test]
fn decimal_text_of_integers() {
    assert_eq!(decimal(0), "0");
    assert_eq!(decimal(7), "7");
    assert_eq!(decimal(10), "10");
    assert_eq!(decimal(2024), "2024");
    assert_eq!(decimal(-1), "-1");
    assert_eq!(decimal(-120), "-120");
    assert_eq!(decimal(i32::MAX), "2147483647");
    assert_eq!(decimal(i32::MIN), "-2147483648");
}

#[test]
fn decimal_text_agrees_with_the_standard_library() {
    for value in [0, 1, 9, 10, 11, 99, 100, 101, 1998, 2026, 65535, -5, -10, -999] {
        assert_eq!(decimal(value), value.to_string());
    }
    for value in [0u32, 5, 10, 4294967295] {
        assert_eq!(digits(value), value.to_string());
    }
}

#[test]
fn ports_that_parse() {
    assert_eq!(parse_port("8080"), Some(8080));
    assert_eq!(parse_port("0"), Some(0));
    assert_eq!(parse_port("65535"), Some(65535));
    assert_eq!(parse_port("+80"), Some(80));
    assert_eq!(parse_port("00080"), Some(80));
    assert_eq!(parse_port("0000000000000000000001"), Some(1));
}

#[test]
fn ports_that_do_not_parse() {
    assert_eq!(parse_port(""), None);
    assert_eq!(parse_port("+"), None);
    assert_eq!(parse_port("-1"), None);
    assert_eq!(parse_port("65536"), None);
    assert_eq!(parse_port("99999999999999999999"), None);
    assert_eq!(parse_port("80a"), None);
    assert_eq!(parse_port(" 80"), None);
    assert_eq!(parse_port("80 "), None);
    assert_eq!(parse_port("++80"), None);
    assert_eq!(parse_port("8+0"), None);
    assert_eq!(parse_port("٨٠"), None);
}

#[test]
fn ports_agree_with_the_standard_library() {
    for sample in ["", "+", "-", "1", "+1", "-0", "0", "65535", "65536", "1e3", "0x10", "12345"] {
        assert_eq!(parse_port(sample), sample.parse::<u16>().ok());
    }
}
