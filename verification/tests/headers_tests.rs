use moesif_exproc::headers::{
    extract_status_and_id, get_client_ip, get_header, header_list_to_map, headers_from_pairs,
    message_header_map,
};
use moesif_exproc::http_callback;
use moesif_exproc::map::StringMap;
use moesif_exproc::proto::{HeaderMap, HeaderValue, HttpHeaders};

fn hv(k: &str, v: &str) -> HeaderValue {
    HeaderValue { key: k.to_string(), value: v.to_string(), raw_value: Vec::new() }
}

fn msg(hs: Vec<HeaderValue>) -> HttpHeaders {
    HttpHeaders { headers: Some(HeaderMap { headers: hs }), end_of_stream: false }
}

#[test]
fn header_list_to_map_lowercases_and_later_wins() {
    let m = header_list_to_map(Some(HeaderMap {
        headers: vec![hv("Content-Type", "text/plain"), hv("X-A", "1"), hv("content-type", "application/json")],
    }));
    assert_eq!(m.len(), 2);
    assert_eq!(m.key_at(0), "content-type");
    assert_eq!(m.get("content-type"), Some(&"application/json".to_string()));
    assert_eq!(m.get("x-a"), Some(&"1".to_string()));
    assert!(header_list_to_map(None).is_empty());
}

#[test]
fn message_header_map_matches_header_list_to_map() {
    let h = msg(vec![hv(":Path", "/x"), hv("Host", "h")]);
    let m = message_header_map(&h);
    assert_eq!(m.get(":path"), Some(&"/x".to_string()));
    assert_eq!(m.get("host"), Some(&"h".to_string()));
    let none = HttpHeaders { headers: None, end_of_stream: true };
    assert!(message_header_map(&none).is_empty());
}

#[test]
fn headers_from_pairs_lowercases() {
    let m = headers_from_pairs(vec![("A".to_string(), "1".to_string()), ("a".to_string(), "2".to_string())]);
    assert_eq!(m.len(), 1);
    assert_eq!(m.get("a"), Some(&"2".to_string()));
}

#[test]
fn get_header_ignores_ascii_case_and_takes_first() {
    let hs = vec![
        ("x-moesif-config-etag".to_string(), "abc".to_string()),
        ("X-Moesif-Config-Etag".to_string(), "def".to_string()),
    ];
    assert_eq!(get_header(&hs, "X-Moesif-Config-Etag"), Some("abc".to_string()));
    assert_eq!(get_header(&hs, "X-Moesif-Rules-Etag"), None);
    assert_eq!(http_callback::get_header(&hs, "X-MOESIF-CONFIG-ETAG"), Some("abc".to_string()));
}

#[test]
fn client_ip_first_valid_piece_of_first_listed_header() {
    let mut h = StringMap::new();
    h.insert("x-forwarded-for".to_string(), "unknown, 203.0.113.7 , 10.0.0.1".to_string());
    h.insert("x-real-ip".to_string(), "198.51.100.2".to_string());
    assert_eq!(get_client_ip(&h), Some("203.0.113.7".to_string()));

    let mut h2 = StringMap::new();
    h2.insert("x-client-ip".to_string(), "garbage".to_string());
    h2.insert("x-real-ip".to_string(), " 2001:db8::1".to_string());
    assert_eq!(get_client_ip(&h2), Some("2001:db8::1".to_string()));

    let mut h3 = StringMap::new();
    h3.insert("X-Forwarded-For".to_string(), "10.0.0.1".to_string());
    assert_eq!(get_client_ip(&h3), None);
}

#[test]
fn status_and_id_are_read_ignoring_ascii_case() {
    let h = msg(vec![hv(":status", "404"), hv("X-Moesif-Gloo-ID", "abc")]);
    let (status, id) = extract_status_and_id(&h);
    assert_eq!(status, "404");
    assert_eq!(id, "abc");
    let h2 = msg(vec![hv(":status", "404"), hv("x-moesif-gloo-id", "abc")]);
    assert_eq!(extract_status_and_id(&h2), ("404".to_string(), "abc".to_string()));
    let h4 = msg(vec![hv(":STATUS", "500"), hv(":status", "201")]);
    assert_eq!(extract_status_and_id(&h4).0, "201");
    let h5 = msg(vec![hv(":STATUS", "500")]);
    assert_eq!(extract_status_and_id(&h5).0, "0");
    let h3 = msg(vec![hv("x-other", "abc")]);
    let (status3, id3) = extract_status_and_id(&h3);
    assert_eq!(status3, "0");
    assert_eq!(id3, "");
}
