use port_scanner::text::{parse_decimal, render_decimal};

#[test]
fn renders_decimal() {
    assert_eq!(render_decimal(0), "0");
    assert_eq!(render_decimal(7), "7");
    assert_eq!(render_decimal(10), "10");
    assert_eq!(render_decimal(8081), "8081");
    assert_eq!(render_decimal(65535), "65535");
    assert_eq!(render_decimal(u64::MAX), "18446744073709551615");
}

#[test]
fn parses_decimal() {
    assert_eq!(parse_decimal("0", 65535), Some(0));
    assert_eq!(parse_decimal("80", 65535), Some(80));
    assert_eq!(parse_decimal("65535", 65535), Some(65535));
    assert_eq!(parse_decimal("+443", 65535), Some(443));
    assert_eq!(parse_decimal("00080", 65535), Some(80));
    assert_eq!(parse_decimal("0000000000000000000000000000080", 65535), Some(80));
    assert_eq!(parse_decimal("18446744073709551615", u64::MAX), Some(u64::MAX));
}

#[test]
fn refuses_what_is_no_number() {
    assert_eq!(parse_decimal("", 65535), None);
    assert_eq!(parse_decimal("+", 65535), None);
    assert_eq!(parse_decimal("++1", 65535), None);
    assert_eq!(parse_decimal("1+", 65535), None);
    assert_eq!(parse_decimal("-1", 65535), None);
    assert_eq!(parse_decimal("80a", 65535), None);
    assert_eq!(parse_decimal(" 80", 65535), None);
    assert_eq!(parse_decimal("8 0", 65535), None);
    assert_eq!(parse_decimal("٣", 65535), None);
}

#[test]
fn refuses_what_is_too_large() {
    assert_eq!(parse_decimal("65536", 65535), None);
    assert_eq!(parse_decimal("99999999999999999999999999", 65535), None);
    assert_eq!(parse_decimal("18446744073709551616", u64::MAX), None);
    assert_eq!(parse_decimal("6", 5), None);
    assert_eq!(parse_decimal("5", 5), Some(5));
}

#[test]
fn parse_undoes_render() {
    for n in [0u64, 1, 9, 10, 99, 100, 8081, 65535] {
        assert_eq!(parse_decimal(&render_decimal(n), 65535), Some(n));
    }
}
