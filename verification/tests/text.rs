use monitor_probe::text::{decimal_string, join_with_space, parse_hex_byte, trim_str};

#[test]
fn trims_unicode_white_space() {
    assert_eq!(trim_str("\u{3000} ab c\u{85}\t"), "ab c");
    assert_eq!(trim_str("   "), "");
    assert_eq!(trim_str("x"), "x");
    assert_eq!(trim_str("\u{2003}\u{a0}y\u{202f}"), "y");
}

#[test]
fn trim_matches_std() {
    for s in ["  a b  ", "\n\r\x0b\x0cq\u{2028}", "", "\u{200b}z\u{200b}", "é "] {
        assert_eq!(trim_str(s), s.trim());
    }
}

#[test]
fn hex_bytes() {
    assert_eq!(parse_hex_byte(&"0a".chars().collect()), Some(10));
    assert_eq!(parse_hex_byte(&"FF".chars().collect()), Some(255));
    assert_eq!(parse_hex_byte(&"7".chars().collect()), Some(7));
    assert_eq!(parse_hex_byte(&"100".chars().collect()), None);
    assert_eq!(parse_hex_byte(&"".chars().collect()), None);
    assert_eq!(parse_hex_byte(&"g1".chars().collect()), None);
}

#[test]
fn decimals_and_joins() {
    assert_eq!(decimal_string(0), "0");
    assert_eq!(decimal_string(1990), "1990");
    assert_eq!(decimal_string(u64::MAX), u64::MAX.to_string());
    assert_eq!(join_with_space(&vec!["a".to_string(), "bc".to_string()]), "a bc");
    assert_eq!(join_with_space(&vec![]), "");
}

#[test]
fn trimming_twice_is_trimming_once() {
    for s in ["  a ", "\u{3000}b\u{3000}", "", " ", "c"] {
        let once = trim_str(s);
        assert_eq!(trim_str(&once), once);
    }
}
