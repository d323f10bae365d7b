use bytes::Bytes;
use gateway_sdk::error::StreamingError;
use gateway_sdk::ws::message::{WebSocketCloseFrame, WebSocketMessage};
use gateway_sdk::ws::stream::{
    body_chunk, closing_message, is_last, message_for_chunk, receive, receive_all, sent,
    BodyStep, Received, WebSocketStream,
};

fn broken() -> StreamingError {
    StreamingError::WebSocketBridge {
        detail: "connection reset".to_owned(),
    }
}

#[test]
fn ping_pong_text_close_yields_one_item() {
    let out: Vec<Result<WebSocketMessage, StreamingError>> = receive_all(vec![
        Ok(WebSocketMessage::Ping(vec![1])),
        Ok(WebSocketMessage::Pong(vec![2])),
        Ok(WebSocketMessage::Text("data".to_owned())),
        Ok(WebSocketMessage::Close(None)),
    ]);
    assert_eq!(out, vec![Ok(WebSocketMessage::Text("data".to_owned()))]);
}

#[test]
fn nothing_is_received_after_close() {
    let out: Vec<Result<WebSocketMessage, StreamingError>> = receive_all(vec![
        Ok(WebSocketMessage::Binary(vec![1, 2])),
        Ok(WebSocketMessage::Close(Some(WebSocketCloseFrame {
            code: 1000,
            reason: "bye".to_owned(),
        }))),
        Ok(WebSocketMessage::Text("late".to_owned())),
    ]);
    assert_eq!(out, vec![Ok(WebSocketMessage::Binary(vec![1, 2]))]);
}

#[test]
fn a_failure_of_the_connection_is_handed_on_once_and_ends_the_sequence() {
    let out: Vec<Result<WebSocketMessage, StreamingError>> = receive_all(vec![
        Ok(WebSocketMessage::Text("a".to_owned())),
        Err(broken()),
        Ok(WebSocketMessage::Text("b".to_owned())),
        Err(broken()),
    ]);
    assert_eq!(out, vec![Ok(WebSocketMessage::Text("a".to_owned())), Err(broken())]);
}

#[test]
fn an_empty_connection_yields_nothing() {
    let out: Vec<Result<WebSocketMessage, StreamingError>> = receive_all(vec![]);
    assert!(out.is_empty());
    let out: Vec<Result<WebSocketMessage, StreamingError>> =
        receive_all(vec![Ok(WebSocketMessage::Ping(vec![])), Ok(WebSocketMessage::Pong(vec![]))]);
    assert!(out.is_empty());
}

#[test]
fn one_pull_at_a_time() {
    assert!(matches!(receive::<WebSocketMessage>(None), Received::End));
    assert!(matches!(
        receive::<WebSocketMessage>(Some(Ok(WebSocketMessage::Ping(vec![])))),
        Received::Skip
    ));
    assert!(matches!(
        receive::<WebSocketMessage>(Some(Ok(WebSocketMessage::Pong(vec![])))),
        Received::Skip
    ));
    assert!(matches!(
        receive::<WebSocketMessage>(Some(Ok(WebSocketMessage::Close(None)))),
        Received::End
    ));
    assert!(matches!(
        receive::<WebSocketMessage>(Some(Err(broken()))),
        Received::Item(Err(e)) if e == broken()
    ));
    assert!(matches!(
        receive::<WebSocketMessage>(Some(Ok(WebSocketMessage::Text("x".to_owned())))),
        Received::Item(Ok(WebSocketMessage::Text(t))) if t == "x"
    ));
    assert!(is_last(&None));
    assert!(is_last(&Some(Err(broken()))));
    assert!(is_last(&Some(Ok(WebSocketMessage::Close(None)))));
    assert!(!is_last(&Some(Ok(WebSocketMessage::Ping(vec![])))));
    assert!(!is_last(&Some(Ok(WebSocketMessage::Text(String::new())))));
}

#[test]
fn control_frames() {
    assert!(WebSocketMessage::Ping(vec![]).is_control());
    assert!(WebSocketMessage::Pong(vec![]).is_control());
    assert!(WebSocketMessage::Close(None).is_control());
    assert!(!WebSocketMessage::Text(String::new()).is_control());
    assert!(!WebSocketMessage::Binary(vec![]).is_control());
}

#[test]
fn duplicates_are_equal() {
    for msg in [
        WebSocketMessage::Text("t\u{20ac}".to_owned()),
        WebSocketMessage::Binary(vec![0, 255]),
        WebSocketMessage::Ping(vec![1]),
        WebSocketMessage::Pong(vec![2]),
        WebSocketMessage::Close(None),
        WebSocketMessage::Close(Some(WebSocketCloseFrame {
            code: 1001,
            reason: "going away".to_owned(),
        })),
    ] {
        assert_eq!(msg.duplicate(), msg);
    }
}

#[test]
fn a_failed_send_is_reported_as_a_bridge_error() {
    assert_eq!(sent(Ok(())), Ok(()));
    assert_eq!(
        sent(Err(StreamingError::Stream("sink closed".to_owned()))),
        Err(StreamingError::WebSocketBridge {
            detail: "stream error: sink closed".to_owned()
        })
    );
    assert_eq!(
        sent(Err(broken())),
        Err(StreamingError::WebSocketBridge {
            detail: "WebSocket bridge error: connection reset".to_owned()
        })
    );
}

#[test]
fn closing_sends_a_close_frame_without_code_or_reason() {
    assert_eq!(closing_message(), WebSocketMessage::Close(None));
    let ws: WebSocketStream<&str, (), WebSocketMessage> = WebSocketStream::new("sink", ());
    let (sink, last) = ws.close();
    assert_eq!(sink, "sink");
    assert_eq!(last, WebSocketMessage::Close(None));
}

#[test]
fn body_chunks_become_text_where_they_are_text() {
    assert_eq!(
        message_for_chunk(&Bytes::from_static(b"hello")),
        WebSocketMessage::Text("hello".to_owned())
    );
    assert_eq!(
        message_for_chunk(&Bytes::from("caf\u{e9} \u{1f44d}".to_owned())),
        WebSocketMessage::Text("caf\u{e9} \u{1f44d}".to_owned())
    );
    assert_eq!(
        message_for_chunk(&Bytes::new()),
        WebSocketMessage::Text(String::new())
    );
    assert_eq!(
        message_for_chunk(&Bytes::from_static(b"\xFFhello")),
        WebSocketMessage::Binary(b"\xFFhello".to_vec())
    );
    // a character that the chunk cuts off makes the chunk binary
    assert_eq!(
        message_for_chunk(&Bytes::from_static(b"price \xE2\x82")),
        WebSocketMessage::Binary(b"price \xE2\x82".to_vec())
    );
}

#[test]
fn messages_become_body_chunks() {
    let chunk = |step: BodyStep| match step {
        BodyStep::Chunk(bytes) => bytes,
        _ => panic!("expected a chunk"),
    };
    assert_eq!(
        chunk(body_chunk(Some(Ok(WebSocketMessage::Text("t\u{20ac}".to_owned()))))).as_ref(),
        "t\u{20ac}".as_bytes()
    );
    assert_eq!(
        chunk(body_chunk(Some(Ok(WebSocketMessage::Binary(vec![0, 1, 255]))))).as_ref(),
        &[0u8, 1, 255]
    );
    assert!(matches!(
        body_chunk(Some(Ok(WebSocketMessage::Ping(vec![1])))),
        BodyStep::Skip
    ));
    assert!(matches!(
        body_chunk(Some(Ok(WebSocketMessage::Pong(vec![1])))),
        BodyStep::Skip
    ));
    assert!(matches!(
        body_chunk(Some(Ok(WebSocketMessage::Close(None)))),
        BodyStep::End
    ));
    assert!(matches!(body_chunk(None), BodyStep::End));
    assert!(matches!(
        body_chunk(Some(Err(broken()))),
        BodyStep::Fail(e) if e == broken()
    ));
}
