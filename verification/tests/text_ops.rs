use moesif_exproc::text::{
    eq_ignore_ascii_case, from_utf8, from_utf8_lossy, into_bytes, parse_usize,
    replace_all, split_char, starts_with_char, str_eq, to_lowercase, trim, usize_to_decimal,
};

#[test]
fn trim_drops_surrounding_whitespace() {
    assert_eq!(trim("  10.0.0.1 \t"), "10.0.0.1");
    assert_eq!(trim(""), "");
    assert_eq!(trim("   "), "");
    assert_eq!(trim("a b"), "a b");
}

#[test]
fn split_char_keeps_empty_pieces() {
    assert_eq!(split_char("outbound|443||api.moesif.net", '|'), vec!["outbound", "443", "", "api.moesif.net"]);
    assert_eq!(split_char("", ','), vec![""]);
    assert_eq!(split_char("a,", ','), vec!["a", ""]);
}

#[test]
fn ascii_case_insensitive_comparison() {
    assert!(eq_ignore_ascii_case("X-Moesif-Config-Etag", "x-moesif-config-etag"));
    assert!(!eq_ignore_ascii_case("etag", "etags"));
    assert!(!eq_ignore_ascii_case("É", "é"));
}

#[test]
fn replace_all_replaces_every_occurrence() {
    assert_eq!(replace_all("{{a}}-{{a}}", "{{a}}", "x"), "x-x");
    assert_eq!(replace_all("aaa", "aa", "b"), "ba");
    assert_eq!(replace_all("abc", "z", "y"), "abc");
}

#[test]
fn parse_usize_reads_plain_decimals_only() {
    assert_eq!(parse_usize("200"), Some(200));
    assert_eq!(parse_usize("0"), Some(0));
    assert_eq!(parse_usize("+7"), Some(7));
    assert_eq!(parse_usize(""), None);
    assert_eq!(parse_usize("12a"), None);
    assert_eq!(parse_usize("-1"), None);
    assert_eq!(parse_usize(" 1"), None);
    assert_eq!(parse_usize("99999999999999999999999999"), None);
}

#[test]
fn usize_to_decimal_writes_digits() {
    assert_eq!(usize_to_decimal(0), "0");
    assert_eq!(usize_to_decimal(1234), "1234");
    assert_eq!(usize_to_decimal(usize::MAX), usize::MAX.to_string());
}

#[test]
fn lower_casing_uses_unicode_rules() {
    assert_eq!(to_lowercase("X-Forwarded-For"), "x-forwarded-for");
    assert_eq!(to_lowercase("ÉTÉ"), "été");
}

#[test]
fn utf8_decoding() {
    assert_eq!(from_utf8_lossy(b"hello"), "hello");
    assert_eq!(from_utf8_lossy(&[0x61, 0xff, 0x62]), "a\u{FFFD}b");
    assert_eq!(from_utf8(b"ok"), Some("ok".to_string()));
    assert_eq!(from_utf8(&[0xc3]), None);
    assert_eq!(into_bytes("é".to_string()), vec![0xc3, 0xa9]);
}

#[test]
fn small_string_helpers() {
    assert_eq!(moesif_exproc::text::concat("https://", "api.moesif.net"), "https://api.moesif.net");
    assert!(str_eq("a", "a"));
    assert!(!str_eq("a", "A"));
    assert!(starts_with_char(":path", ':'));
    assert!(!starts_with_char("", ':'));
}
