use scapi::domain::fetch::config::{default_max_content_size, FetchConfig};
use scapi::domain::fetch::error::{transport_error, FailureKind, FetchError};
use scapi::infra::http::streaming::{
    check_declared_length, initial_capacity, open_stream, BufferedBody, ResponseStream, StreamStep, Upstream,
};

fn chunk(n: usize) -> Upstream {
    Upstream::Chunk(vec![b'x'; n])
}

#[test]
fn one_byte_over_cap_fails_and_stops() {
    let mut s = ResponseStream::new(10);
    assert!(matches!(s.advance(chunk(4)), StreamStep::Deliver(ref c) if c.len() == 4));
    assert!(matches!(s.advance(chunk(4)), StreamStep::Deliver(_)));
    assert!(matches!(s.advance(chunk(3)), StreamStep::Fail(FetchError::ContentTooLarge(_))));
    assert!(s.is_finished());
    assert!(s.is_size_exceeded());
    assert_eq!(s.bytes_received(), 11);
    assert!(matches!(s.advance(chunk(1)), StreamStep::Done));
    assert!(matches!(s.advance(Upstream::End), StreamStep::Done));
}

#[test]
fn single_chunk_one_byte_over_cap() {
    let mut s = ResponseStream::new(0);
    assert!(matches!(s.advance(chunk(1)), StreamStep::Fail(FetchError::ContentTooLarge(_))));
    assert!(matches!(s.advance(chunk(0)), StreamStep::Done));
}

#[test]
fn body_at_cap_is_delivered() {
    let mut s = ResponseStream::new(5);
    assert!(matches!(s.advance(chunk(5)), StreamStep::Deliver(_)));
    assert!(!s.is_size_exceeded());
    assert!(matches!(s.advance(Upstream::End), StreamStep::Done));
    assert!(s.is_finished());
}

#[test]
fn transport_failure_is_terminal() {
    let mut s = ResponseStream::new(100);
    let e = transport_error(FailureKind::Timeout, "read timed out".to_string());
    assert!(matches!(s.advance(Upstream::Failed(e)), StreamStep::Fail(FetchError::Timeout(ref m)) if m == "read timed out"));
    assert!(matches!(s.advance(chunk(1)), StreamStep::Done));
}

#[test]
fn declared_length_over_cap_fails_before_reading() {
    assert!(matches!(open_stream(200, Some(10), 5), Err(FetchError::ContentTooLarge(_))));
    assert!(matches!(check_declared_length(Some(10), 5), Err(FetchError::ContentTooLarge(_))));
    assert!(check_declared_length(Some(5), 5).is_ok());
    assert!(check_declared_length(None, 5).is_ok());
}

#[test]
fn non_success_status_is_server_error() {
    assert!(matches!(open_stream(404, Some(1), 5), Err(FetchError::ServerError(_))));
    assert!(matches!(open_stream(500, None, 5), Err(FetchError::ServerError(_))));
    let s = open_stream(204, None, 5).unwrap();
    assert_eq!(s.bytes_received(), 0);
    assert!(!s.is_finished());
}

#[test]
fn transport_failures_map_onto_the_taxonomy() {
    assert!(matches!(transport_error(FailureKind::Redirect, "r".to_string()), FetchError::TooManyRedirects(_)));
    assert!(matches!(transport_error(FailureKind::BadUrl, "u".to_string()), FetchError::InvalidUrl(_)));
    assert!(matches!(transport_error(FailureKind::Tls, "t".to_string()), FetchError::TlsError(_)));
    assert!(matches!(transport_error(FailureKind::Network, "n".to_string()), FetchError::NetworkError(_)));
}

#[test]
fn buffer_capacity_follows_the_length_hint() {
    assert_eq!(initial_capacity(Some(10), 5), 5);
    assert_eq!(initial_capacity(Some(3), 5), 3);
    assert_eq!(initial_capacity(None, 5), 65536);
}

#[test]
fn buffered_body_decodes_text() {
    let s = ResponseStream::new(100);
    let mut b = BufferedBody::new(s, None);
    assert!(b.feed(Upstream::Chunk("héllo ".as_bytes().to_vec())).is_ok());
    assert!(b.feed(Upstream::Chunk(b"world".to_vec())).is_ok());
    assert!(b.feed(Upstream::End).is_ok());
    assert!(b.is_finished());
    let (text, meta) = b.finish(200, "http://example.com/".to_string()).unwrap();
    assert_eq!(text, "héllo world");
    assert_eq!(meta.length, 12);
    assert_eq!(meta.status_code, 200);
    assert_eq!(meta.final_url, "http://example.com/");
}

#[test]
fn buffered_body_rejects_invalid_utf8() {
    let mut b = BufferedBody::new(ResponseStream::new(100), Some(2));
    assert!(b.feed(Upstream::Chunk(vec![0xff, 0xfe])).is_ok());
    assert!(matches!(b.finish(200, String::new()), Err(FetchError::EncodingError(_))));
}

#[test]
fn buffered_body_stops_at_the_cap() {
    let mut b = BufferedBody::new(ResponseStream::new(3), None);
    assert!(b.feed(chunk(2)).is_ok());
    assert!(matches!(b.feed(chunk(2)), Err(FetchError::ContentTooLarge(_))));
    assert!(b.is_finished());
    assert!(b.feed(chunk(1)).is_ok());
}

#[test]
fn fetch_config_defaults() {
    let c = FetchConfig::default();
    assert_eq!(c.timeout_ms, 30000);
    assert_eq!(c.user_agent, "SCAPI/1.0");
    assert_eq!(c.max_redirects, 5);
    assert_eq!(c.max_content_size, 100 * 1024 * 1024);
    assert_eq!(default_max_content_size(), 104857600);
    assert_eq!(c.streaming_threshold, 5 * 1024 * 1024);
    assert_eq!(c.stream_buffer_size, 64 * 1024);
}
