use gateway_sdk::sse::detect::{is_event_stream_content_type, is_server_events_response};
use http::{HeaderMap, HeaderValue};

#[test]
fn detects_event_stream() {
    let mut headers = HeaderMap::new();
    headers.insert(
        http::header::CONTENT_TYPE,
        HeaderValue::from_static("text/event-stream"),
    );
    assert!(is_server_events_response(&headers));
}

#[test]
fn detects_event_stream_with_charset() {
    let mut headers = HeaderMap::new();
    headers.insert(
        http::header::CONTENT_TYPE,
        HeaderValue::from_static("text/event-stream; charset=utf-8"),
    );
    assert!(is_server_events_response(&headers));
}

#[test]
fn rejects_json() {
    let mut headers = HeaderMap::new();
    headers.insert(
        http::header::CONTENT_TYPE,
        HeaderValue::from_static("application/json"),
    );
    assert!(!is_server_events_response(&headers));
}

#[test]
fn rejects_missing_content_type() {
    let headers = HeaderMap::new();
    assert!(!is_server_events_response(&headers));
}

#[test]
fn header_name_is_found_in_any_case() {
    let mut headers = HeaderMap::new();
    headers.insert(
        http::header::HeaderName::from_bytes(b"Content-Type").unwrap(),
        HeaderValue::from_static("text/event-stream"),
    );
    assert!(is_server_events_response(&headers));
}

#[test]
fn first_content_type_value_decides() {
    let mut headers = HeaderMap::new();
    headers.append(
        http::header::CONTENT_TYPE,
        HeaderValue::from_static("application/json"),
    );
    headers.append(
        http::header::CONTENT_TYPE,
        HeaderValue::from_static("text/event-stream"),
    );
    assert!(!is_server_events_response(&headers));
}

#[test]
fn other_headers_do_not_count() {
    let mut headers = HeaderMap::new();
    headers.insert(http::header::ACCEPT, HeaderValue::from_static("text/event-stream"));
    assert!(!is_server_events_response(&headers));
}

#[test]
fn value_that_is_no_text_is_rejected() {
    let mut headers = HeaderMap::new();
    headers.insert(
        http::header::CONTENT_TYPE,
        HeaderValue::from_bytes(b"text/event-stream; x=\xff").unwrap(),
    );
    assert!(!is_server_events_response(&headers));
}

#[test]
fn content_type_values() {
    assert!(is_event_stream_content_type(b"text/event-stream"));
    assert!(is_event_stream_content_type(b"text/event-stream;charset=utf-8"));
    assert!(is_event_stream_content_type(b"text/event-streaming"));
    assert!(!is_event_stream_content_type(b"text/event-strea"));
    assert!(!is_event_stream_content_type(b" text/event-stream"));
    assert!(is_event_stream_content_type(b"Text/Event-Stream"));
    assert!(is_event_stream_content_type(b"TEXT/EVENT-STREAM; charset=utf-8"));
    assert!(is_event_stream_content_type(b"tExT/eVeNt-StReAm"));
    // only the case of letters is set aside
    assert!(!is_event_stream_content_type(b"text/event_stream"));
    assert!(!is_event_stream_content_type(b"text\x0fevent-stream"));
    assert!(!is_event_stream_content_type(b"TEXT/EVENT-STREA"));
    assert!(!is_event_stream_content_type(b"text/event\rstream"));
    assert!(!is_event_stream_content_type(b""));
    assert!(!is_event_stream_content_type(b"text/event-stream\x7f"));
    assert!(is_event_stream_content_type(b"text/event-stream\t"));
}

#[test]
fn media_type_is_matched_without_regard_to_case() {
    for value in ["Text/Event-Stream", "TEXT/EVENT-STREAM", "text/Event-stream;charset=UTF-8"] {
        let mut headers = HeaderMap::new();
        headers.insert(
            http::header::CONTENT_TYPE,
            HeaderValue::from_str(value).unwrap(),
        );
        assert!(is_server_events_response(&headers), "value {value}");
    }
    let mut headers = HeaderMap::new();
    headers.insert(
        http::header::CONTENT_TYPE,
        HeaderValue::from_static("Application/Json"),
    );
    assert!(!is_server_events_response(&headers));
}
