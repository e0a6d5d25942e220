use moesif_exproc::external::{
    base64_encode, new_uuid_v4, now_instant, now_rfc3339, parse_instant, parses_as_ip,
    parses_as_json, regex_search,
};

#[test]
fn regex_search_reports_match_and_bad_patterns() {
    assert_eq!(regex_search("^/api/.*", "/api/users"), Some(true));
    assert_eq!(regex_search("^/api/.*", "/health"), Some(false));
    assert_eq!(regex_search("(unclosed", "x"), None);
}

#[test]
fn uuid_has_version_four_shape() {
    let a = new_uuid_v4();
    let b = new_uuid_v4();
    assert_eq!(a.len(), 36);
    let cs: Vec<char> = a.chars().collect();
    for i in [8, 13, 18, 23] {
        assert_eq!(cs[i], '-');
    }
    assert_eq!(cs[14], '4');
    assert!("89ab".contains(cs[19]));
    assert_ne!(a, b);
}

#[test]
fn time_parsing_and_clock() {
    assert_eq!(parse_instant("2024-01-01T00:00:00Z"), Some((1704067200, 0)));
    assert_eq!(parse_instant("2024-01-01T00:00:00.5+01:00"), Some((1704063600, 500_000_000)));
    assert_eq!(parse_instant("yesterday"), None);
    let (secs, nanos) = now_instant();
    assert!(secs > 1_600_000_000);
    assert!(nanos < 2_000_000_000);
    assert!(parse_instant(&now_rfc3339()).is_some());
}

#[test]
fn base64_standard_alphabet_with_padding() {
    assert_eq!(base64_encode(b"hello"), "aGVsbG8=");
    assert_eq!(base64_encode(b""), "");
    assert_eq!(base64_encode(&[0xfb, 0xff]), "+/8=");
    assert_eq!(base64_encode(b"abc"), "YWJj");
}

#[test]
fn json_and_ip_recognition() {
    assert!(parses_as_json(br#"{"a": [1, 2]}"#));
    assert!(!parses_as_json(b"{not json"));
    assert!(parses_as_ip("10.0.0.1"));
    assert!(parses_as_ip("::1"));
    assert!(!parses_as_ip("10.0.0.256"));
    assert!(!parses_as_ip(" 10.0.0.1"));
}
