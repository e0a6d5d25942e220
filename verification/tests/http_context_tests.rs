use moesif_exproc::config::{Config, EnvConfig};
use moesif_exproc::event::BodyValue;
use moesif_exproc::http_context::EventHttpContext;

fn config(user: Option<&str>, company: Option<&str>) -> Config {
    let mut env = EnvConfig::empty();
    env.user_id_header = user.map(|s| s.to_string());
    env.company_id_header = company.map(|s| s.to_string());
    Config { env, event_queue_id: 0 }
}

fn pairs(hs: Vec<(&str, &str)>) -> Vec<(String, String)> {
    hs.into_iter().map(|(k, v)| (k.to_string(), v.to_string())).collect()
}

#[test]
fn request_headers_fill_the_event() {
    let mut c = EventHttpContext::new(config(Some("X-User"), Some("x-company")));
    c.on_http_request_headers_at(
        pairs(vec![(":path", "/a"), (":method", "DELETE"), ("X-User", "u1"), ("X-Real-IP", "9.9.9.9")]),
        "T".to_string(),
    );
    let e = &c.event;
    assert_eq!(e.direction, "Incoming");
    assert_eq!(e.request.time, "T");
    assert_eq!(e.request.uri, "/a");
    assert_eq!(e.request.verb, "DELETE");
    assert_eq!(e.request.headers.len(), 2);
    assert_eq!(e.request.ip_address.as_deref(), Some("9.9.9.9"));
    assert_eq!(e.user_id.as_deref(), Some("u1"));
    assert!(e.company_id.is_none());

    let mut c2 = EventHttpContext::new(config(None, None));
    c2.on_http_request_headers(pairs(vec![]));
    assert_eq!(c2.event.request.verb, "GET");
    assert!(!c2.event.request.time.is_empty());
}

#[test]
fn request_body_chunks_join() {
    let mut c = EventHttpContext::new(config(None, None));
    c.on_http_request_headers_at(pairs(vec![("Content-Type", "application/json")]), "T".to_string());
    c.on_http_request_body(b"{\"a\":".to_vec(), false);
    assert!(matches!(c.event.request.body, BodyValue::Null));
    assert_eq!(c.request_body, b"{\"a\":".to_vec());
    c.on_http_request_body(b"1}".to_vec(), true);
    assert!(c.request_body.is_empty());
    match &c.event.request.body {
        BodyValue::Json(b) => assert_eq!(b, &b"{\"a\":1}".to_vec()),
        _ => panic!("expected a JSON body"),
    }
}

#[test]
fn response_headers_and_body() {
    let mut c = EventHttpContext::new(config(None, None));
    c.on_http_request_headers_at(pairs(vec![("X-Forwarded-For", "1.1.1.1, 2.2.2.2")]), "T".to_string());
    c.on_http_response_body(b"early".to_vec(), true);
    assert!(c.event.response.is_none());
    assert_eq!(c.response_body, b"early".to_vec());
    c.on_http_response_headers_at(pairs(vec![(":status", "404"), ("Content-Type", "text/plain")]), "T2".to_string());
    {
        let r = c.event.response.as_ref().unwrap();
        assert_eq!(r.status, 0);
        assert_eq!(r.time, "T2");
        assert_eq!(r.headers.len(), 1);
        assert_eq!(r.ip_address.as_deref(), Some("1.1.1.1, 2.2.2.2"));
    }
    c.on_http_response_body(b" body".to_vec(), true);
    assert!(c.response_body.is_empty());
    match &c.event.response.as_ref().unwrap().body {
        BodyValue::Text(s) => assert_eq!(s, "early body"),
        _ => panic!("expected text"),
    }
    c.on_http_response_headers(pairs(vec![]));
    assert!(!c.event.response.as_ref().unwrap().time.is_empty());
}

#[test]
fn many_request_chunks_join() {
    let mut c = EventHttpContext::new(config(None, None));
    c.on_http_request_headers_at(pairs(vec![("content-type", "text/plain")]), "T".to_string());
    for chunk in [b"ab".to_vec(), Vec::new(), b"c".to_vec()] {
        c.on_http_request_body(chunk, false);
        assert!(matches!(c.event.request.body, BodyValue::Null));
    }
    c.on_http_request_body(b"d".to_vec(), true);
    match &c.event.request.body {
        BodyValue::Text(s) => assert_eq!(s, "abcd"),
        _ => panic!("expected text"),
    }
    assert!(c.request_body.is_empty());
}
