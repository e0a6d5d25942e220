use moesif_exproc::config::{Config, EnvConfig};
use moesif_exproc::event::{BodyValue, Event};
use moesif_exproc::map::StringMap;
use moesif_exproc::processing::{
    add_env_headers_to_event, continue_response, generate_moesif_gloo_id, handle_message, log_message_event,
    message_event, process_request_headers, process_response_headers, read_request_headers,
    record_response_headers, response_with_headers, simplified_response,
};
use moesif_exproc::proto::{
    HeaderAppendAction, HeaderMap, HeaderValue, HttpBody, HttpHeaders, HttpTrailers, ProcessingRequest,
    ProcessingResponse, Request, Response,
};
use moesif_exproc::root_context::EventRootContext;

fn hv(k: &str, v: &str) -> HeaderValue {
    HeaderValue { key: k.to_string(), value: v.to_string(), raw_value: Vec::new() }
}

fn headers(hs: Vec<(&str, &str)>) -> HttpHeaders {
    HttpHeaders { headers: Some(HeaderMap { headers: hs.into_iter().map(|(k, v)| hv(k, v)).collect() }), end_of_stream: false }
}

fn config(user: Option<&str>, company: Option<&str>) -> Config {
    let mut env = EnvConfig::empty();
    env.batch_max_size = 10;
    env.batch_max_wait = 2000;
    env.user_id_header = user.map(|s| s.to_string());
    env.company_id_header = company.map(|s| s.to_string());
    Config { env, event_queue_id: 0 }
}

fn added(r: &ProcessingResponse) -> Option<Vec<(String, String)>> {
    match &r.response {
        Some(Response::RequestHeaders(hr)) => match &hr.response {
            None => Some(vec![]),
            Some(c) => c.header_mutation.as_ref().map(|m| {
                assert!(m.remove_headers.is_empty());
                m.set_headers
                    .iter()
                    .map(|o| {
                        assert_eq!(o.append, Some(false));
                        assert!(matches!(o.append_action, HeaderAppendAction::AddIfAbsent));
                        assert!(o.keep_empty_value);
                        let h = o.header.as_ref().unwrap();
                        assert!(h.raw_value.is_empty());
                        (h.key.clone(), h.value.clone())
                    })
                    .collect()
            }),
        },
        _ => None,
    }
}

#[test]
fn gloo_id_is_fresh_and_stored() {
    let mut h = StringMap::new();
    h.insert("X-Moesif-Gloo-ID".to_string(), "old".to_string());
    let id = generate_moesif_gloo_id(&mut h);
    assert_eq!(id.len(), 36);
    assert_eq!(h.len(), 1);
    assert_eq!(h.get("X-Moesif-Gloo-ID"), Some(&id));
}

#[test]
fn request_headers_are_read_into_the_event() {
    let mut e = Event::new();
    e.request.time = "T".to_string();
    read_request_headers(&mut e, &headers(vec![
        (":path", "/api/v1"),
        (":Method", "PUT"),
        ("X-Forwarded-For", "1.2.3.4"),
        ("X-API-Version", "2"),
        ("Transfer-Encoding", "chunked"),
    ]));
    assert_eq!(e.direction, "Incoming");
    assert_eq!(e.request.time, "T");
    assert_eq!(e.request.uri, "/api/v1");
    assert_eq!(e.request.verb, "PUT");
    assert_eq!(e.request.headers.len(), 3);
    assert!(!e.request.headers.contains_key(":path"));
    assert_eq!(e.request.ip_address.as_deref(), Some("1.2.3.4"));
    assert_eq!(e.request.api_version.as_deref(), Some("2"));
    assert_eq!(e.request.transfer_encoding.as_deref(), Some("chunked"));

    let mut e2 = Event::new();
    read_request_headers(&mut e2, &HttpHeaders { headers: None, end_of_stream: true });
    assert_eq!(e2.request.uri, "");
    assert_eq!(e2.request.verb, "GET");
    assert!(e2.request.ip_address.is_none());
}

#[test]
fn user_and_company_headers_with_defaults() {
    let cfg = config(Some("x-user"), Some("x-company"));
    let mut e = Event::new();
    e.request.headers.insert("x-user".to_string(), "u-42".to_string());
    let mut rh = StringMap::new();
    add_env_headers_to_event(&cfg, &mut e, &mut rh);
    assert_eq!(e.user_id.as_deref(), Some("u-42"));
    assert_eq!(e.company_id.as_deref(), Some("default_company_id"));
    assert_eq!(e.request.headers.get("x-company"), Some(&"default_company_id".to_string()));
    assert_eq!(rh.len(), 2);
    assert_eq!(rh.get("x-user"), Some(&"u-42".to_string()));

    let mut e2 = Event::new();
    let mut rh2 = StringMap::new();
    add_env_headers_to_event(&config(None, None), &mut e2, &mut rh2);
    assert!(e2.user_id.is_none() && e2.company_id.is_none());
    assert!(rh2.is_empty());

    let mut e3 = Event::new();
    let mut rh3 = StringMap::new();
    add_env_headers_to_event(&config(Some("x-user"), None), &mut e3, &mut rh3);
    assert_eq!(e3.user_id.as_deref(), Some("default_user_id"));
}

#[test]
fn request_headers_are_kept_until_the_response() {
    let cfg = config(Some("x-user"), None);
    let mut ctx = EventRootContext::new(cfg);
    let cfg2 = config(Some("x-user"), None);
    let mut e = Event::new();
    let mut rh = StringMap::new();
    process_request_headers(&mut ctx, &cfg2, &mut e, &headers(vec![(":path", "/p"), ("X-User", "alice")]), &mut rh);
    assert_eq!(e.moesif_gloo_id.len(), 36);
    assert_eq!(e.user_id.as_deref(), Some("alice"));
    assert_eq!(rh.key_at(0), "X-Moesif-Gloo-ID");
    assert_eq!(rh.value_at(0), &e.moesif_gloo_id);
    assert_eq!(rh.get("x-user"), Some(&"alice".to_string()));
    assert_eq!(e.request.headers.get("X-Moesif-Gloo-ID"), Some(&e.moesif_gloo_id));
    let kept = ctx.noresponse_yet_events_buffer.get(&e.moesif_gloo_id).unwrap();
    assert_eq!(kept.request.uri, "/p");

    let id = e.moesif_gloo_id.clone();
    let r = record_response_headers(&mut ctx, &headers(vec![(":status", "201"), ("X-Moesif-Gloo-ID", id.as_str())]), "T2".to_string());
    let (matched, done) = r.unwrap();
    assert!(matched);
    assert_eq!(done.request.uri, "/p");
    let resp = done.response.unwrap();
    assert_eq!(resp.status, 201);
    assert_eq!(resp.time, "T2");
    assert!(resp.ip_address.is_none());
    assert!(matches!(resp.body, BodyValue::Null));
    assert_eq!(resp.headers.get(":status"), Some(&"201".to_string()));
    assert!(ctx.noresponse_yet_events_buffer.is_empty());
}

#[test]
fn responses_without_id_or_status() {
    let mut ctx = EventRootContext::new(config(None, None));
    assert!(record_response_headers(&mut ctx, &headers(vec![(":status", "200")]), "T".to_string()).is_none());
    let (matched, e) = record_response_headers(&mut ctx, &headers(vec![("X-Moesif-Gloo-ID", "zz"), (":status", "abc")]), "T".to_string()).unwrap();
    assert!(!matched);
    assert_eq!(e.moesif_gloo_id, "zz");
    assert_eq!(e.response.unwrap().status, 0);
    let (_, e2) = process_response_headers(&mut ctx, &headers(vec![("X-Moesif-Gloo-ID", "yy")])).unwrap();
    assert_eq!(e2.response.unwrap().status, 0);
}

#[test]
fn answers_to_envoy() {
    assert_eq!(added(&simplified_response()), Some(vec![]));
    assert_eq!(added(&response_with_headers(StringMap::new())), Some(vec![]));
    let mut h = StringMap::new();
    h.insert("X-Moesif-Gloo-ID".to_string(), "id".to_string());
    h.insert("x-user".to_string(), "".to_string());
    assert_eq!(
        added(&response_with_headers(h)),
        Some(vec![("X-Moesif-Gloo-ID".to_string(), "id".to_string()), ("x-user".to_string(), "".to_string())])
    );
}

#[test]
fn one_stream_request_then_response() {
    let cfg = config(None, Some("x-org"));
    let mut ctx = EventRootContext::new(config(None, Some("x-org")));
    let req = ProcessingRequest { request: Some(Request::RequestHeaders(headers(vec![(":path", "/o"), ("x-org", "acme")]))), observability_mode: false };
    let (answer, done) = handle_message(&mut ctx, &cfg, &req);
    assert!(done.is_none());
    let hs = added(&answer).unwrap();
    assert_eq!(hs.len(), 2);
    assert_eq!(hs[0].0, "X-Moesif-Gloo-ID");
    assert_eq!(hs[1], ("x-org".to_string(), "acme".to_string()));
    let id = hs[0].1.clone();
    let stored = ctx.noresponse_yet_events_buffer.get(&id).unwrap();
    assert_eq!(stored.company_id.as_deref(), Some("acme"));
    assert!(!stored.request.time.is_empty());

    let resp = ProcessingRequest { request: Some(Request::ResponseHeaders(headers(vec![(":status", "200"), ("X-Moesif-Gloo-ID", id.as_str())]))), observability_mode: false };
    let (answer2, done2) = handle_message(&mut ctx, &cfg, &resp);
    assert!(matches!(&answer2.response, Some(Response::ResponseHeaders(hr)) if hr.response.is_none()));
    let (matched, e) = done2.unwrap();
    assert!(matched);
    assert_eq!(e.request.uri, "/o");
    assert_eq!(e.response.unwrap().status, 200);
    assert!(ctx.noresponse_yet_events_buffer.is_empty());

    let body = ProcessingRequest { request: Some(Request::RequestBody(HttpBody { body: b"x".to_vec(), end_of_stream: true })), observability_mode: false };
    let (answer3, done3) = handle_message(&mut ctx, &cfg, &body);
    assert!(matches!(&answer3.response, Some(Response::RequestBody(b)) if b.response.is_none()));
    assert!(done3.is_none());
}

#[test]
fn messages_logged_on_their_own() {
    let req = ProcessingRequest { request: Some(Request::RequestHeaders(headers(vec![(":method", "POST"), ("Host", "h")]))), observability_mode: false };
    let e = message_event(&req, "T".to_string());
    assert_eq!(e.direction, "Incoming");
    assert_eq!(e.request.time, "T");
    assert_eq!(e.request.verb, "POST");
    assert!(e.response.is_none());

    let resp = ProcessingRequest { request: Some(Request::ResponseHeaders(headers(vec![(":status", "503"), ("Server", "s")]))), observability_mode: false };
    let e2 = message_event(&resp, "T".to_string());
    assert_eq!(e2.direction, "");
    let r = e2.response.unwrap();
    assert_eq!(r.status, 503);
    assert_eq!(r.time, "T");
    assert_eq!(r.headers.len(), 1);
    assert_eq!(r.headers.get("server"), Some(&"s".to_string()));

    let none = ProcessingRequest { request: None, observability_mode: false };
    let e3 = log_message_event(&none);
    assert!(e3.response.is_none());
    assert_eq!(e3.request.time, "");
    let e4 = log_message_event(&req);
    assert!(!e4.request.time.is_empty());
}

#[test]
fn configured_header_names_match_ignoring_case() {
    let cfg = config(Some("X-User-Example-Header"), None);
    let mut ctx = EventRootContext::new(config(Some("X-User-Example-Header"), None));
    let mut e = Event::new();
    let mut rh = StringMap::new();
    process_request_headers(&mut ctx, &cfg, &mut e, &headers(vec![("x-user-example-header", "alice")]), &mut rh);
    assert_eq!(e.user_id.as_deref(), Some("alice"));
    assert_eq!(rh.get("X-User-Example-Header"), Some(&"alice".to_string()));
}

#[test]
fn every_message_kind_gets_its_own_answer() {
    let kinds = vec![
        Request::ResponseHeaders(headers(vec![])),
        Request::RequestBody(HttpBody { body: vec![], end_of_stream: true }),
        Request::ResponseBody(HttpBody { body: vec![], end_of_stream: true }),
        Request::RequestTrailers(HttpTrailers { trailers: None }),
        Request::ResponseTrailers(HttpTrailers { trailers: None }),
    ];
    let mut seen = Vec::new();
    for k in kinds {
        let m = ProcessingRequest { request: Some(k), observability_mode: false };
        let r = continue_response(&m);
        seen.push(match r.response {
            Some(Response::ResponseHeaders(h)) if h.response.is_none() => "response headers",
            Some(Response::RequestBody(b)) if b.response.is_none() => "request body",
            Some(Response::ResponseBody(b)) if b.response.is_none() => "response body",
            Some(Response::RequestTrailers(t)) if t.header_mutation.is_none() => "request trailers",
            Some(Response::ResponseTrailers(t)) if t.header_mutation.is_none() => "response trailers",
            _ => "other",
        });
    }
    assert_eq!(seen, vec!["response headers", "request body", "response body", "request trailers", "response trailers"]);
    let none = continue_response(&ProcessingRequest { request: None, observability_mode: false });
    assert_eq!(added(&none), Some(vec![]));
}

#[test]
fn exact_header_name_wins_over_case_insensitive_match() {
    let cfg = config(Some("x-user"), None);
    let mut e = Event::new();
    e.request.headers.insert("X-USER".to_string(), "a".to_string());
    e.request.headers.insert("x-user".to_string(), "b".to_string());
    let mut rh = StringMap::new();
    add_env_headers_to_event(&cfg, &mut e, &mut rh);
    assert_eq!(e.user_id.as_deref(), Some("b"));

    let cfg2 = config(Some("X-User"), None);
    let mut e2 = Event::new();
    e2.request.headers.insert("x-user".to_string(), "c".to_string());
    let mut rh2 = StringMap::new();
    add_env_headers_to_event(&cfg2, &mut e2, &mut rh2);
    assert_eq!(e2.user_id.as_deref(), Some("c"));
}

#[test]
fn pairing_id_survives_a_configured_id_header() {
    let cfg = config(Some("X-Moesif-Gloo-ID"), None);
    let mut ctx = EventRootContext::new(config(Some("X-Moesif-Gloo-ID"), None));
    let mut e = Event::new();
    let mut rh = StringMap::new();
    process_request_headers(&mut ctx, &cfg, &mut e, &headers(vec![("x-moesif-gloo-id", "evil")]), &mut rh);
    assert_eq!(e.moesif_gloo_id.len(), 36);
    assert_eq!(e.user_id.as_deref(), Some(e.moesif_gloo_id.as_str()));
    assert_eq!(e.request.headers.get("X-Moesif-Gloo-ID"), Some(&e.moesif_gloo_id));
    assert_eq!(rh.get("X-Moesif-Gloo-ID"), Some(&e.moesif_gloo_id));
}
