use moesif_exproc::proto::{BodySendMode, HeaderSendMode, ProcessingMode};

#[test]
fn header_modes_round_trip() {
    assert!(matches!(HeaderSendMode::from_i32(0), Some(HeaderSendMode::Default)));
    assert!(matches!(HeaderSendMode::from_i32(1), Some(HeaderSendMode::Send)));
    assert!(matches!(HeaderSendMode::from_i32(2), Some(HeaderSendMode::Skip)));
    assert!(HeaderSendMode::from_i32(3).is_none());
    assert_eq!(HeaderSendMode::Skip.as_i32(), 2);
}

#[test]
fn body_modes_round_trip() {
    assert!(matches!(BodySendMode::from_i32(0), Some(BodySendMode::NoBody)));
    assert!(matches!(BodySendMode::from_i32(3), Some(BodySendMode::BufferedPartial)));
    assert!(BodySendMode::from_i32(-1).is_none());
    assert_eq!(BodySendMode::Buffered.as_i32(), 2);
}

#[test]
fn unknown_numbers_read_as_defaults() {
    let m = ProcessingMode {
        request_header_mode: 1,
        response_header_mode: 9,
        request_body_mode: 2,
        response_body_mode: 7,
        request_trailer_mode: 2,
        response_trailer_mode: 0,
    };
    assert!(matches!(m.request_header_mode(), HeaderSendMode::Send));
    assert!(matches!(m.response_header_mode(), HeaderSendMode::Default));
    assert!(matches!(m.request_body_mode(), BodySendMode::Buffered));
    assert!(matches!(m.response_body_mode(), BodySendMode::NoBody));
    assert!(matches!(m.request_trailer_mode(), HeaderSendMode::Skip));
    assert!(matches!(m.response_trailer_mode(), HeaderSendMode::Default));
}
