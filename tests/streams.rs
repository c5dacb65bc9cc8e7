use ntex_h2_bridge::emit::{ControlAction, ControlKind, ControlService};
use ntex_h2_bridge::headers::HeaderMap;
use ntex_h2_bridge::payload::{PayloadChannel, PayloadError, PayloadRead};
use ntex_h2_bridge::publish::{
    build_request, is_head_request, Dispatch, H2Error, MessageKind, PseudoField, PseudoHeaders,
    PublishService, StreamEof,
};

fn pseudo(method: Option<&str>, path: Option<&str>, scheme: Option<&str>, authority: Option<&str>) -> PseudoHeaders {
    PseudoHeaders {
        method: method.map(|s| s.to_string()),
        path: path.map(|s| s.to_string()),
        scheme: scheme.map(|s| s.to_string()),
        authority: authority.map(|s| s.to_string()),
    }
}

fn headers_event(eof: bool) -> MessageKind {
    MessageKind::Headers { pseudo: pseudo(Some("POST"), Some("/up"), None, None), headers: HeaderMap::new(), eof }
}

fn read_all(mut c: PayloadChannel) -> (Vec<u8>, Vec<u32>, Option<PayloadError>) {
    let mut bytes = Vec::new();
    let mut credits = Vec::new();
    loop {
        match c.read() {
            PayloadRead::Chunk(d, cr) => {
                bytes.extend_from_slice(&d);
                credits.push(cr);
            }
            PayloadRead::Done => return (bytes, credits, None),
            PayloadRead::Failed(e) => return (bytes, credits, Some(e)),
            PayloadRead::Pending => panic!("channel still open"),
        }
    }
}

fn drain(svc: &mut PublishService, id: u32) -> (Vec<u8>, Vec<u32>, Option<PayloadError>) {
    let mut bytes = Vec::new();
    let mut credits = Vec::new();
    loop {
        match svc.read(id) {
            Some(PayloadRead::Chunk(d, cr)) => {
                bytes.extend_from_slice(&d);
                credits.push(cr);
            }
            Some(PayloadRead::Done) => return (bytes, credits, None),
            Some(PayloadRead::Failed(e)) => return (bytes, credits, Some(e)),
            Some(PayloadRead::Pending) => panic!("channel still open"),
            None => panic!("no channel"),
        }
    }
}

#[test]
fn data_events_keep_order() {
    let mut svc = PublishService::new();
    assert!(matches!(svc.call(1, headers_event(false)), Dispatch::Request(Ok(_))));
    assert!(svc.has_stream(1));
    svc.call(1, MessageKind::Data(b"ab".to_vec(), 2));
    svc.call(1, MessageKind::Data(b"cd".to_vec(), 3));
    assert!(matches!(svc.call(1, MessageKind::Eof(StreamEof::Data(b"e".to_vec()))), Dispatch::Handled));
    assert!(!svc.has_stream(1));
    let (bytes, credits, err) = drain(&mut svc, 1);
    assert_eq!(bytes, b"abcde".to_vec());
    assert_eq!(credits, vec![2, 3, 0]);
    assert_eq!(err, None);
    assert!(svc.read(1).is_none());
}

#[test]
fn eof_for_unknown_stream_is_noop() {
    let mut svc = PublishService::new();
    svc.call(3, headers_event(false));
    svc.call(3, MessageKind::Data(b"x".to_vec(), 1));
    assert!(matches!(svc.call(5, MessageKind::Eof(StreamEof::Data(Vec::new()))), Dispatch::Handled));
    assert!(svc.has_stream(3));
    assert!(!svc.has_stream(5));
    svc.call(3, MessageKind::Eof(StreamEof::Trailers(HeaderMap::new())));
    assert_eq!(drain(&mut svc, 3).0, b"x".to_vec());
}

#[test]
fn data_for_unknown_stream_is_dropped() {
    let mut svc = PublishService::new();
    assert!(matches!(svc.call(9, MessageKind::Data(b"x".to_vec(), 1)), Dispatch::Handled));
    assert!(!svc.has_stream(9));
    assert!(matches!(svc.call(9, MessageKind::Other), Dispatch::Handled));
}

#[test]
fn headers_with_end_open_no_channel() {
    let mut svc = PublishService::new();
    match svc.call(7, headers_event(true)) {
        Dispatch::Request(Ok(req)) => {
            assert!(!req.has_payload);
            assert!(!req.is_head);
            assert_eq!(req.uri, "/up");
            assert_eq!(req.method, "POST");
        }
        _ => panic!("expected a request"),
    }
    assert!(!svc.has_stream(7));
}

#[test]
fn error_end_fails_channel() {
    let mut svc = PublishService::new();
    svc.call(1, headers_event(false));
    svc.call(1, MessageKind::Data(b"ab".to_vec(), 2));
    svc.call(1, MessageKind::Eof(StreamEof::Error(PayloadError { reason: 8 })));
    assert_eq!(drain(&mut svc, 1).2, Some(PayloadError { reason: 8 }));
    assert!(svc.read(1).is_none());
}

#[test]
fn channel_ignores_calls_after_end() {
    let mut c = PayloadChannel::new();
    assert!(matches!(c.read(), PayloadRead::Pending));
    c.feed_data(b"a".to_vec(), 1);
    c.feed_eof(Vec::new());
    assert!(c.is_terminated());
    c.feed_data(b"b".to_vec(), 1);
    c.set_error(PayloadError { reason: 2 });
    c.feed_eof(b"c".to_vec());
    assert_eq!(read_all(c), (b"a".to_vec(), vec![1], None));
}

#[test]
fn request_uri_from_pseudo_headers() {
    let r = build_request(pseudo(Some("GET"), Some("/x?y=1"), Some("https"), Some("example.com")), HeaderMap::new(), false);
    assert_eq!(r.unwrap().uri, "https://example.com/x?y=1");
    let r = build_request(pseudo(Some("GET"), Some("/x"), None, None), HeaderMap::new(), false);
    assert_eq!(r.unwrap().uri, "/x");
}

#[test]
fn request_missing_pseudo_headers() {
    let e = |p| build_request(p, HeaderMap::new(), false).err();
    assert_eq!(e(pseudo(Some("GET"), None, None, None)), Some(H2Error::MissingPseudoHeader(PseudoField::Path)));
    assert_eq!(e(pseudo(None, Some("/"), None, None)), Some(H2Error::MissingPseudoHeader(PseudoField::Method)));
    assert_eq!(e(pseudo(None, None, None, None)), Some(H2Error::MissingPseudoHeader(PseudoField::Path)));
    assert_eq!(
        e(pseudo(Some("GET"), Some("/"), None, Some("example.com"))),
        Some(H2Error::MissingPseudoHeader(PseudoField::Scheme))
    );
}

#[test]
fn request_malformed_uri() {
    let e = build_request(pseudo(Some("GET"), Some("/a b"), None, None), HeaderMap::new(), false).err();
    assert_eq!(e, Some(H2Error::MalformedUri));
    let e = build_request(pseudo(Some("GET"), Some("/"), Some("https"), Some("exa mple")), HeaderMap::new(), false).err();
    assert_eq!(e, Some(H2Error::MalformedUri));
}

#[test]
fn head_request_marked() {
    let r = build_request(pseudo(Some("HEAD"), Some("/"), None, None), HeaderMap::new(), false).unwrap();
    assert!(r.is_head);
}

#[test]
fn head_method_detected() {
    assert!(is_head_request(&"HEAD".to_string()));
    assert!(!is_head_request(&"GET".to_string()));
    assert!(!is_head_request(&"head".to_string()));
}

#[test]
fn control_events_are_acknowledged() {
    let c = ControlService::new();
    assert!(c.poll_ready());
    for k in [ControlKind::AppError, ControlKind::ConnectionError, ControlKind::GoAway, ControlKind::PeerGone, ControlKind::Terminated] {
        assert_eq!(c.call(k), ControlAction::Ack);
    }
}

#[test]
fn body_read_while_stream_open() {
    let mut svc = PublishService::new();
    assert!(svc.read(4).is_none());
    svc.call(4, headers_event(false));
    assert!(matches!(svc.read(4), Some(PayloadRead::Pending)));
    svc.call(4, MessageKind::Data(b"ab".to_vec(), 2));
    svc.call(4, MessageKind::Data(b"cd".to_vec(), 3));
    match svc.read(4) {
        Some(PayloadRead::Chunk(d, c)) => assert_eq!((d, c), (b"ab".to_vec(), 2)),
        _ => panic!("expected a chunk"),
    }
    assert!(svc.has_stream(4));
    svc.call(4, MessageKind::Eof(StreamEof::Data(Vec::new())));
    assert_eq!(drain(&mut svc, 4), (b"cd".to_vec(), vec![3], None));
    assert!(svc.read(4).is_none());
}
