use moesif_exproc::config::{Config, EnvConfig};
use moesif_exproc::event::{BodyValue, Event, ResponseInfo};
use moesif_exproc::map::StringMap;
use moesif_exproc::root_context::{generate_curl_command, EventRootContext};

fn config(max: usize) -> Config {
    let mut env = EnvConfig::empty();
    env.batch_max_size = max;
    env.batch_max_wait = 2000;
    env.base_uri = "https://api.moesif.net".to_string();
    env.moesif_application_id = "app-id".to_string();
    Config { env, event_queue_id: 0 }
}

fn response(time: &str, status: usize) -> ResponseInfo {
    ResponseInfo { time: time.to_string(), status, headers: StringMap::new(), ip_address: None, body: BodyValue::Null }
}

fn request_event(time: &str, uri: &str) -> Event {
    let mut e = Event::new();
    e.request.time = time.to_string();
    e.request.uri = uri.to_string();
    e
}

#[test]
fn events_json_is_a_comma_separated_array() {
    assert_eq!(EventRootContext::write_events_json(vec![]), b"[]".to_vec());
    assert_eq!(EventRootContext::write_events_json(vec![b"{}".to_vec()]), b"[{}]".to_vec());
    assert_eq!(
        EventRootContext::write_events_json(vec![b"{\"a\":1}".to_vec(), b"{}".to_vec(), b"2".to_vec()]),
        b"[{\"a\":1},{},2]".to_vec()
    );
}

#[test]
fn draining_sends_every_event_once_in_batches() {
    let mut ctx = EventRootContext::new(config(2));
    for b in [b"1", b"2", b"3", b"4", b"5"] {
        ctx.process_event(b.to_vec());
    }
    let bodies = ctx.drain_batches(1);
    assert_eq!(bodies, vec![b"[1,2]".to_vec(), b"[3,4]".to_vec(), b"[5]".to_vec()]);
    assert!(ctx.event_byte_buffer.is_empty());

    let mut ctx2 = EventRootContext::new(config(10));
    for b in [b"1", b"2", b"3"] {
        ctx2.process_event(b.to_vec());
    }
    assert!(ctx2.drain_batches(4).is_empty());
    assert_eq!(ctx2.event_byte_buffer.len(), 3);
    assert_eq!(ctx2.drain_batches(3), vec![b"[1,2,3]".to_vec()]);
}

#[test]
fn first_event_and_full_buffer_trigger_a_send() {
    let mut ctx = EventRootContext::new(config(3));
    assert!(ctx.is_start);
    assert_eq!(ctx.add_event(b"a".to_vec()), vec![b"[a]".to_vec()]);
    assert!(!ctx.is_start);
    assert!(ctx.add_event(b"b".to_vec()).is_empty());
    assert!(ctx.add_event(b"c".to_vec()).is_empty());
    assert_eq!(ctx.event_byte_buffer.len(), 2);
    assert_eq!(ctx.add_event(b"d".to_vec()), vec![b"[b,c,d]".to_vec()]);
    assert!(ctx.event_byte_buffer.is_empty());
}

#[test]
fn stored_request_is_completed_by_its_response() {
    let mut ctx = EventRootContext::new(config(3));
    ctx.store_event("id-1".to_string(), request_event("2024-01-01T00:00:00Z", "/a"));
    ctx.store_event("id-2".to_string(), request_event("2024-01-01T00:00:00Z", "/b"));
    let (matched, e) = ctx.match_response("id-1".to_string(), response("2024-01-01T00:00:01Z", 201));
    assert!(matched);
    assert_eq!(e.request.uri, "/a");
    assert_eq!(e.response.as_ref().map(|r| r.status), Some(201));
    assert!(!ctx.noresponse_yet_events_buffer.contains_key("id-1"));
    assert!(ctx.noresponse_yet_events_buffer.contains_key("id-2"));

    let (matched2, e2) = ctx.match_response("id-1".to_string(), response("t", 500));
    assert!(!matched2);
    assert_eq!(e2.moesif_gloo_id, "id-1");
    assert_eq!(e2.request.uri, "");
    assert_eq!(e2.response.as_ref().map(|r| r.status), Some(500));
}

#[test]
fn response_without_id_gets_a_fresh_one() {
    let mut ctx = EventRootContext::new(config(3));
    ctx.store_event("known".to_string(), request_event("t", "/k"));
    let (matched, e) = ctx.match_and_store_response(None, response("t", 200));
    assert!(!matched);
    assert_eq!(e.moesif_gloo_id.len(), 36);
    assert!(ctx.noresponse_yet_events_buffer.contains_key("known"));
    let (matched2, e2) = ctx.match_and_store_response(Some("known".to_string()), response("t", 204));
    assert!(matched2);
    assert_eq!(e2.request.uri, "/k");
    assert!(ctx.noresponse_yet_events_buffer.is_empty());
}

#[test]
fn stale_events_are_taken_out_in_order() {
    let mut ctx = EventRootContext::new(config(3));
    ctx.store_event("old".to_string(), request_event("2024-01-01T00:00:00Z", "/old"));
    ctx.store_event("new".to_string(), request_event("2024-01-01T00:00:09Z", "/new"));
    ctx.store_event("bad-time".to_string(), request_event("not a time", "/bad"));
    let mut answered = request_event("2024-01-01T00:00:09Z", "/answered");
    answered.response = Some(response("2024-01-01T00:00:01Z", 200));
    ctx.store_event("answered".to_string(), answered);
    // now = 00:00:10, wait = 2000 ms: cutoff 00:00:08
    let moved = ctx.take_stale_events(2000, (1704067210, 0));
    let ids: Vec<&str> = moved.iter().map(|(k, _)| k.as_str()).collect();
    assert_eq!(ids, vec!["old", "answered"]);
    assert_eq!(ctx.noresponse_yet_events_buffer.len(), 2);
    assert_eq!(ctx.noresponse_yet_events_buffer.key_at(0), "new");
    assert_eq!(ctx.noresponse_yet_events_buffer.key_at(1), "bad-time");

    let mut ctx2 = EventRootContext::new(config(3));
    ctx2.store_event("x".to_string(), request_event("2000-01-01T00:00:00Z", "/x"));
    ctx2.store_event("y".to_string(), request_event("2999-01-01T00:00:00Z", "/y"));
    let moved2 = ctx2.cleanup_temporary_buffer(2000);
    assert_eq!(moved2.len(), 1);
    assert_eq!(moved2[0].0, "x");
}

#[test]
fn periodic_round_drains_then_collects_stale_events() {
    let mut ctx = EventRootContext::new(config(2));
    ctx.process_event(b"1".to_vec());
    ctx.process_event(b"2".to_vec());
    ctx.process_event(b"3".to_vec());
    ctx.store_event("s".to_string(), request_event("2001-01-01T00:00:00Z", "/s"));
    let (bodies, stale) = ctx.periodic_send();
    assert_eq!(bodies, vec![b"[1,2]".to_vec(), b"[3]".to_vec()]);
    assert_eq!(stale.len(), 1);
    assert!(ctx.noresponse_yet_events_buffer.is_empty());
}

#[test]
fn api_requests_are_described_fully() {
    let ctx = EventRootContext::new(config(2));
    assert_eq!(ctx.api_url("/v1/events/batch"), "https://api.moesif.net/v1/events/batch");
    let h = ctx.api_headers();
    assert_eq!(h, vec![
        ("content-type".to_string(), "application/json".to_string()),
        ("x-moesif-application-id".to_string(), "app-id".to_string()),
    ]);
    let u = ctx.upstream_request_headers("POST", "/v1/events/batch", 1234);
    assert_eq!(u.len(), 7);
    assert_eq!(u[0], (":method".to_string(), "POST".to_string()));
    assert_eq!(u[2], (":authority".to_string(), "https://api.moesif.net".to_string()));
    assert_eq!(u[5], ("content-length".to_string(), "1234".to_string()));
    assert_eq!(u[6], ("x-moesif-application-id".to_string(), "app-id".to_string()));
}

#[test]
fn curl_command_lists_headers_and_body() {
    let hs = vec![("content-type".to_string(), "application/json".to_string())];
    assert_eq!(
        generate_curl_command("POST", "https://x/y", &hs, Some(&b"[1]".to_vec())),
        "curl -v -X POST 'https://x/y' -H 'content-type: application/json' --data '[1]'"
    );
    assert_eq!(generate_curl_command("GET", "u", &vec![], None), "curl -v -X GET 'u'");
    assert_eq!(generate_curl_command("GET", "u", &vec![], Some(&vec![0xff])), "curl -v -X GET 'u' --data ''");
}
