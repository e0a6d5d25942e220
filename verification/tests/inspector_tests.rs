use moesif_exproc::inspector::{
    connection_timeout, default_base_uri, default_batch_max_size, default_batch_max_wait,
    default_debug, env_config, parse_upstream_url, process_message, processing_request_to_json,
};
use moesif_exproc::proto::{HeaderMap, HeaderValue, HttpHeaders, HttpTrailers, ProcessingRequest, Request};

fn raw(k: &str, v: &[u8]) -> HeaderValue {
    HeaderValue { key: k.to_string(), value: String::new(), raw_value: v.to_vec() }
}

fn msg(r: Request) -> ProcessingRequest {
    ProcessingRequest { request: Some(r), observability_mode: false }
}

#[test]
fn inspector_defaults() {
    assert_eq!(default_batch_max_size(), 100);
    assert_eq!(default_batch_max_wait(), 2000);
    assert_eq!(default_base_uri(), "https://api.moesif.net");
    assert!(!default_debug());
    assert_eq!(connection_timeout(), 5000);
}

#[test]
fn upstream_scheme_follows_the_port() {
    assert_eq!(parse_upstream_url("outbound|443||api.moesif.net"), Ok("https://api.moesif.net".to_string()));
    assert_eq!(parse_upstream_url("outbound|8080||localhost"), Ok("http://localhost".to_string()));
    assert_eq!(parse_upstream_url("moesif_api"), Err("Invalid UPSTREAM format".to_string()));
}

#[test]
fn inspector_settings() {
    let c = env_config(None);
    assert_eq!(c.upstream, "outbound|443||api.moesif.net");
    assert_eq!(c.base_uri, "https://api.moesif.net");
    assert_eq!(c.batch_max_size, 100);
    assert_eq!(c.batch_max_wait, 2000);
    assert_eq!(c.connection_timeout, 5000);
    assert!(!c.debug);
    assert!(c.user_id_header.is_none());
    let c2 = env_config(Some("custom".to_string()));
    assert_eq!(c2.upstream, "custom");
    assert_eq!(c2.base_uri, "https://api.moesif.net");
    let c3 = env_config(Some("outbound|80||h".to_string()));
    assert_eq!(c3.base_uri, "http://h");
}

#[test]
fn plain_view_of_request_headers() {
    let m = msg(Request::RequestHeaders(HttpHeaders {
        headers: Some(HeaderMap { headers: vec![raw(":path", b"/x"), raw(":method", b"GET"), raw("Bin", &[0xff]), raw(":path", b"/y")] }),
        end_of_stream: false,
    }));
    let c = processing_request_to_json(&m);
    let rh = c.request_headers.unwrap();
    assert_eq!(rh.len(), 3);
    assert_eq!(rh.get(":path"), Some(&"/y".to_string()));
    assert_eq!(rh.get("Bin"), Some(&"\u{FFFD}".to_string()));
    assert!(c.response_headers.is_none());
    assert_eq!(c.path.as_deref(), Some("/x"));
    assert_eq!(c.method.as_deref(), Some("GET"));
}

#[test]
fn plain_view_of_other_messages() {
    let m = msg(Request::ResponseHeaders(HttpHeaders { headers: None, end_of_stream: true }));
    let c = processing_request_to_json(&m);
    assert!(c.request_headers.is_none());
    assert!(c.response_headers.unwrap().is_empty());
    assert!(c.path.is_none() && c.method.is_none());
    let t = msg(Request::RequestTrailers(HttpTrailers { trailers: None }));
    let c2 = processing_request_to_json(&t);
    assert!(c2.request_headers.is_none() && c2.response_headers.is_none());
}

#[test]
fn printed_header_lists() {
    let m = msg(Request::RequestHeaders(HttpHeaders {
        headers: Some(HeaderMap { headers: vec![raw("a", b"1"), raw("a", b"2")] }),
        end_of_stream: false,
    }));
    let (label, hs) = process_message(&m).unwrap();
    assert_eq!(label, "Client-to-Server");
    assert_eq!(hs, vec![("a".to_string(), b"1".to_vec()), ("a".to_string(), b"2".to_vec())]);
    let r = msg(Request::ResponseHeaders(HttpHeaders { headers: None, end_of_stream: false }));
    let (label2, hs2) = process_message(&r).unwrap();
    assert_eq!(label2, "Server-to-Client");
    assert!(hs2.is_empty());
    assert!(process_message(&ProcessingRequest { request: None, observability_mode: false }).is_none());
}
