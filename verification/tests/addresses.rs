use dynamic_dns::ip::{
    is_digit_char, is_ipv4_address, is_space_char, read_response, trim, truncate_bytes,
    MAX_RESPONSE_BYTES,
};

#[test]
fn dotted_decimal_addresses_are_accepted() {
    assert!(is_ipv4_address("203.0.113.5"));
    assert!(is_ipv4_address("1.2.3.4"));
    assert!(is_ipv4_address("0.0.0.0"));
    assert!(is_ipv4_address("255.255.255.255"));
    assert!(is_ipv4_address("10.20.30.249"));
}

#[test]
fn wrong_number_of_parts_is_refused() {
    assert!(!is_ipv4_address(""));
    assert!(!is_ipv4_address("1"));
    assert!(!is_ipv4_address("1.2.3"));
    assert!(!is_ipv4_address("1.2.3.4.5"));
    assert!(!is_ipv4_address("1.2.3."));
    assert!(!is_ipv4_address(".1.2.3"));
    assert!(!is_ipv4_address("1..2.3"));
    assert!(!is_ipv4_address("1.2.3.4."));
    assert!(!is_ipv4_address("..."));
}

#[test]
fn parts_out_of_range_are_refused() {
    assert!(!is_ipv4_address("256.0.0.1"));
    assert!(!is_ipv4_address("1.2.3.256"));
    assert!(!is_ipv4_address("1.2.3.999"));
    assert!(!is_ipv4_address("1.2.3.1000"));
    assert!(!is_ipv4_address("1234.1.1.1"));
}

#[test]
fn leading_zeros_are_refused() {
    assert!(!is_ipv4_address("01.2.3.4"));
    assert!(!is_ipv4_address("1.2.3.04"));
    assert!(!is_ipv4_address("1.00.3.4"));
    assert!(!is_ipv4_address("1.2.3.000"));
}

#[test]
fn other_characters_are_refused() {
    assert!(!is_ipv4_address(" 1.2.3.4"));
    assert!(!is_ipv4_address("1.2.3.4\n"));
    assert!(!is_ipv4_address("1.2.3.a"));
    assert!(!is_ipv4_address("1.2.-3.4"));
    assert!(!is_ipv4_address("+1.2.3.4"));
    assert!(!is_ipv4_address("1.2.3.\u{664}"));
    assert!(!is_ipv4_address("::1"));
    assert!(!is_ipv4_address("localhost"));
}

#[test]
fn shortened_and_foreign_notations_are_refused() {
    assert!(!is_ipv4_address("127.1"));
    assert!(!is_ipv4_address("0x7f.0.0.1"));
    assert!(!is_ipv4_address("1.2.3.4/24"));
    assert!(!is_ipv4_address("192.168.001.1"));
    assert!(is_ipv4_address("192.168.1.1"));
    assert!(is_ipv4_address("249.250.251.252"));
    assert!(is_ipv4_address("99.100.199.200"));
}

#[test]
fn digits_are_told_from_other_characters() {
    assert!(is_digit_char('0'));
    assert!(is_digit_char('5'));
    assert!(is_digit_char('9'));
    assert!(!is_digit_char('/'));
    assert!(!is_digit_char(':'));
    assert!(!is_digit_char('.'));
    assert!(!is_digit_char('a'));
    assert!(!is_digit_char('\u{664}'));
}

#[test]
fn white_space_is_told_from_other_characters() {
    for c in ['\t', '\n', '\u{b}', '\u{c}', '\r', ' ', '\u{85}', '\u{a0}', '\u{1680}', '\u{2000}',
        '\u{2003}', '\u{200a}', '\u{2028}', '\u{2029}', '\u{202f}', '\u{205f}', '\u{3000}'] {
        assert!(is_space_char(c), "{:?}", c);
        assert!(c.is_whitespace());
    }
    for c in ['\u{8}', '\u{e}', '\u{1f}', '!', '0', '.', 'a', '\u{84}', '\u{86}', '\u{200b}',
        '\u{180e}', '\u{2060}', '\u{feff}', '\u{3001}'] {
        assert!(!is_space_char(c), "{:?}", c);
        assert!(!c.is_whitespace());
    }
}

#[test]
fn trim_takes_white_space_off_both_ends() {
    assert_eq!(trim("  1.2.3.4\r\n"), "1.2.3.4");
    assert_eq!(trim("1.2.3.4"), "1.2.3.4");
    assert_eq!(trim("\u{2003}a b\u{a0}"), "a b");
    assert_eq!(trim("   "), "");
    assert_eq!(trim(""), "");
    assert_eq!(trim(" \u{fc} x "), "\u{fc} x");
}

#[test]
fn truncate_bytes_keeps_the_first_bytes() {
    assert_eq!(truncate_bytes("1.2.3.4", 16), Some("1.2.3.4"));
    assert_eq!(truncate_bytes("0123456789abcdef", 16), Some("0123456789abcdef"));
    assert_eq!(truncate_bytes("0123456789abcdefg", 16), Some("0123456789abcdef"));
    assert_eq!(truncate_bytes("0123456789abcd\u{fc}X", 16), Some("0123456789abcd\u{fc}"));
    assert_eq!(truncate_bytes("", 0), Some(""));
    assert_eq!(truncate_bytes("abc", 0), Some(""));
}

#[test]
fn truncate_bytes_does_not_cut_a_character_in_two() {
    assert_eq!(truncate_bytes("0123456789abcde\u{fc}", 16), None);
    assert_eq!(truncate_bytes("\u{20ac}uro", 1), None);
    assert_eq!(truncate_bytes("\u{20ac}uro", 2), None);
    assert_eq!(truncate_bytes("\u{20ac}uro", 3), Some("\u{20ac}"));
}

#[test]
fn address_is_read_out_of_an_answer() {
    assert_eq!(MAX_RESPONSE_BYTES, 16);
    assert_eq!(read_response("203.0.113.5"), Some("203.0.113.5".to_string()));
    assert_eq!(read_response("203.0.113.5\n"), Some("203.0.113.5".to_string()));
    assert_eq!(read_response("  1.2.3.4  "), Some("1.2.3.4".to_string()));
    assert_eq!(read_response("255.255.255.255"), Some("255.255.255.255".to_string()));
    assert_eq!(read_response("255.255.255.255\n"), Some("255.255.255.255".to_string()));
    assert_eq!(read_response("\u{2003}1.2.3.4\u{a0}"), Some("1.2.3.4".to_string()));
}

#[test]
fn only_the_first_bytes_of_an_answer_count() {
    assert_eq!(read_response(" 1.2.3.4           x"), Some("1.2.3.4".to_string()));
    assert_eq!(read_response("255.255.255.255 and more"), Some("255.255.255.255".to_string()));
    assert_eq!(read_response("255.255.255.2551"), None);
    assert_eq!(read_response("                 1.2.3.4"), None);
    assert_eq!(read_response("           1.2.3.45"), None);
    assert_eq!(read_response("         1.2.3.45"), Some("1.2.3.4".to_string()));
}

#[test]
fn answer_without_an_address_gives_none() {
    assert_eq!(read_response(""), None);
    assert_eq!(read_response("   "), None);
    assert_eq!(read_response("<html>busy</html>"), None);
    assert_eq!(read_response("1.2.3"), None);
    assert_eq!(read_response("1.2.3.4 5"), None);
    assert_eq!(read_response("1.2.3.4        \u{fc}"), None);
}
