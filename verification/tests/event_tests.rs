use moesif_exproc::event::{body_bytes_to_value, BodyValue, Event, RequestInfo};

#[test]
fn empty_body_is_null() {
    assert!(matches!(body_bytes_to_value(Vec::new(), Some(&"application/json".to_string())), BodyValue::Null));
    assert!(matches!(body_bytes_to_value(Vec::new(), None), BodyValue::Null));
}

#[test]
fn json_body_is_kept_as_json() {
    let ct = "application/json".to_string();
    match body_bytes_to_value(br#"{"a":1}"#.to_vec(), Some(&ct)) {
        BodyValue::Json(b) => assert_eq!(b, br#"{"a":1}"#.to_vec()),
        _ => panic!("expected a JSON body"),
    }
}

#[test]
fn invalid_json_body_is_base64_text() {
    let ct = "application/json".to_string();
    match body_bytes_to_value(b"hello".to_vec(), Some(&ct)) {
        BodyValue::Text(s) => assert_eq!(s, "aGVsbG8="),
        _ => panic!("expected base64 text"),
    }
}

#[test]
fn other_bodies_are_text() {
    let ct = "text/plain".to_string();
    match body_bytes_to_value(vec![0x68, 0x69, 0xff], Some(&ct)) {
        BodyValue::Text(s) => assert_eq!(s, "hi\u{FFFD}"),
        _ => panic!("expected text"),
    }
    let ct2 = "application/json; charset=utf-8".to_string();
    match body_bytes_to_value(br#"{"a":1}"#.to_vec(), Some(&ct2)) {
        BodyValue::Text(s) => assert_eq!(s, r#"{"a":1}"#),
        _ => panic!("expected text"),
    }
}

#[test]
fn new_event_is_empty() {
    let e = Event::new();
    assert_eq!(e.direction, "");
    assert_eq!(e.moesif_gloo_id, "");
    assert!(e.response.is_none());
    assert!(e.user_id.is_none());
    assert!(matches!(e.metadata, BodyValue::Null));
    let r = RequestInfo::new();
    assert_eq!(r.verb, "");
    assert!(r.headers.is_empty());
    let d = e.duplicate();
    assert_eq!(d.request.time, e.request.time);
}
