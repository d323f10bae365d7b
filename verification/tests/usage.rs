//! How the streaming tools are used: events from a byte source, typed
//! events, and the WebSocket bridge over a connection held in memory.

use gateway_sdk::codec::{
    event_json, event_payload, event_value, json_message, message_json, message_payload,
    message_value, Json,
};
use gateway_sdk::error::StreamingError;
use gateway_sdk::sse::detect::is_server_events_response;
use gateway_sdk::sse::event::ServerEvent;
use gateway_sdk::sse::parser::parse_server_events;
use gateway_sdk::sse::stream::{convert_item, FromServerEvent};
use gateway_sdk::ws::message::WebSocketMessage;
use gateway_sdk::ws::stream::{
    receive_all, FromWebSocketMessage, Received, WebSocketStream, WebSocketStreamReceiver,
};

/// The chunks of a body, one frame for each string.
fn body(chunks: Vec<&str>) -> Vec<Result<Vec<u8>, String>> {
    chunks
        .into_iter()
        .map(|s| Ok(s.as_bytes().to_vec()))
        .collect()
}

/// The typed events of a body.
fn typed_events<T: FromServerEvent>(chunks: Vec<&str>) -> Vec<Result<T, StreamingError>> {
    parse_server_events(&body(chunks))
        .into_iter()
        .map(convert_item::<T>)
        .collect()
}

#[test]
fn sse_stream_raw_events() {
    let collected: Vec<ServerEvent> = typed_events::<ServerEvent>(vec![
        "data: message 0\n\n",
        "data: message 1\n\n",
        "data: message 2\n\n",
    ])
    .into_iter()
    .map(|r| r.unwrap())
    .collect();

    assert_eq!(collected.len(), 3);
    assert_eq!(collected[0].data, "message 0");
    assert_eq!(collected[1].data, "message 1");
    assert_eq!(collected[2].data, "message 2");

    // Simple data-only events have no id, event type, or retry.
    for ev in &collected {
        assert_eq!(ev.event, None);
        assert_eq!(ev.id, None);
        assert_eq!(ev.retry, None);
    }
}

#[test]
fn sse_stream_typed_events_with_all_fields() {
    let collected: Vec<ServerEvent> = typed_events::<ServerEvent>(vec![
        "id: 1\nevent: status\nretry: 5000\ndata: connected\n\n",
        "id: 2\nevent: update\ndata: {\"count\":42}\n\n",
        "id: 3\nevent: done\ndata: finished\n\n",
    ])
    .into_iter()
    .map(|r| r.unwrap())
    .collect();

    assert_eq!(collected.len(), 3);

    // First event: status with retry
    assert_eq!(collected[0].event.as_deref(), Some("status"));
    assert_eq!(collected[0].id.as_deref(), Some("1"));
    assert_eq!(collected[0].retry, Some(5000));
    assert_eq!(collected[0].data, "connected");

    // Second event: JSON data
    assert_eq!(collected[1].event.as_deref(), Some("update"));
    assert_eq!(collected[1].id.as_deref(), Some("2"));
    let json: serde_json::Value = serde_json::from_str(&collected[1].data).unwrap();
    assert_eq!(json["count"], 42);

    // Third event
    assert_eq!(collected[2].event.as_deref(), Some("done"));
    assert_eq!(collected[2].data, "finished");
}

#[test]
fn sse_stream_openai_chat_format() {
    let events = typed_events::<ServerEvent>(vec![
        "data: {\"choices\":[{\"delta\":{\"role\":\"assistant\",\"content\":\"Hello\"}}]}\n\n",
        "data: {\"choices\":[{\"delta\":{\"content\":\" from\"}}]}\n\n",
        "data: {\"choices\":[{\"delta\":{\"content\":\" the\"}}]}\n\n",
        "data: {\"choices\":[{\"delta\":{\"content\":\" stream\"}}]}\n\n",
        "data: {\"choices\":[{\"delta\":{},\"finish_reason\":\"stop\"}]}\n\n",
        "data: [DONE]\n\n",
    ]);

    let mut text = String::new();
    for result in events {
        let ev = result.unwrap();

        // The end of the stream is signalled with data: [DONE]
        if ev.data == "[DONE]" {
            break;
        }

        let chunk: serde_json::Value = serde_json::from_str(&ev.data).unwrap();
        if let Some(content) = chunk["choices"][0]["delta"]["content"].as_str() {
            text.push_str(content);
        }
    }

    assert_eq!(text, "Hello from the stream");
}

/// A typed event whose data is parsed as any JSON value.
fn json_event(item: Result<ServerEvent, StreamingError>) -> Result<Json<serde_json::Value>, StreamingError> {
    match item {
        Ok(event) => event_value(serde_json::from_str(&event_payload(event))),
        Err(e) => Err(e),
    }
}

#[test]
fn sse_stream_typed_json() {
    // event 1: data = "connected"       (NOT valid JSON)
    // event 2: data = {"count": 42}     (valid)
    // event 3: data = "finished"        (NOT valid JSON)
    let mut events = parse_server_events(&body(vec![
        "id: 1\nevent: status\nretry: 5000\ndata: connected\n\n",
        "id: 2\nevent: update\ndata: {\"count\":42}\n\n",
        "id: 3\nevent: done\ndata: finished\n\n",
    ]))
    .into_iter()
    .map(json_event);

    let first = events.next().expect("stream ended");
    assert!(first.is_err(), "\"connected\" is not valid JSON");
    let expected = serde_json::from_str::<serde_json::Value>("connected")
        .unwrap_err()
        .to_string();
    assert!(matches!(first, Err(StreamingError::ServerEventsParse { detail }) if detail == expected));

    // A payload that fails to parse does not end the stream.
    let second = events.next().expect("stream ended").unwrap();
    assert_eq!(second.get()["count"].as_u64(), Some(42));
    assert_eq!(second.into_inner()["count"], 42);

    assert!(events.next().expect("stream ended").is_err());
    assert!(events.next().is_none());
}

#[derive(Debug)]
struct ChatChunk {
    content: Option<String>,
}

impl FromServerEvent for ChatChunk {
    fn from_server_event(event: ServerEvent) -> Result<Self, StreamingError> {
        let wire: serde_json::Value =
            serde_json::from_str(&event.data).map_err(|e| StreamingError::ServerEventsParse {
                detail: e.to_string(),
            })?;
        let choices = wire["choices"]
            .as_array()
            .ok_or_else(|| StreamingError::ServerEventsParse {
                detail: "missing choices".to_owned(),
            })?;
        Ok(ChatChunk {
            content: choices
                .first()
                .and_then(|c| c["delta"]["content"].as_str().map(str::to_owned)),
        })
    }
}

#[test]
fn sse_stream_typed_manual_impl() {
    let events = typed_events::<ChatChunk>(vec![
        "data: {\"choices\":[{\"delta\":{\"role\":\"assistant\",\"content\":\"Hello\"}}]}\n\n",
        "data: {\"choices\":[{\"delta\":{\"content\":\" from\"}}]}\n\n",
        "data: {\"choices\":[{\"delta\":{\"content\":\" the\"}}]}\n\n",
        "data: {\"choices\":[{\"delta\":{\"content\":\" stream\"}}]}\n\n",
        "data: {\"choices\":[{\"delta\":{},\"finish_reason\":\"stop\"}]}\n\n",
        "data: [DONE]\n\n",
    ]);

    let mut text = String::new();
    for result in events {
        match result {
            Ok(chunk) => {
                if let Some(content) = &chunk.content {
                    text.push_str(content);
                }
            }
            Err(_) => break, // [DONE] → parse error
        }
    }
    assert_eq!(text, "Hello from the stream");
}

#[test]
fn sse_stream_dispatch_pattern() {
    // --- event stream → streaming path
    let mut sse = http::HeaderMap::new();
    sse.insert("content-type", http::HeaderValue::from_static("text/event-stream"));
    assert!(is_server_events_response(&sse));
    let first = typed_events::<ServerEvent>(vec!["id: 1\nevent: status\ndata: connected\n\n"])
        .into_iter()
        .next()
        .expect("stream ended")
        .unwrap();
    assert_eq!(first.event.as_deref(), Some("status"));
    assert_eq!(first.data, "connected");

    // --- anything else → fallback path
    let mut json = http::HeaderMap::new();
    json.insert("content-type", http::HeaderValue::from_static("application/json"));
    assert!(!is_server_events_response(&json));
}

#[test]
fn sse_via_gateway_client() {
    let mut events = typed_events::<ServerEvent>(vec![
        "data: {\"status\":\"processing\"}\n\n",
        "data: {\"status\":\"complete\"}\n\n",
    ])
    .into_iter();

    let first = events.next().expect("stream ended").unwrap();
    assert_eq!(first.data, r#"{"status":"processing"}"#);

    let second = events.next().expect("stream ended").unwrap();
    assert_eq!(second.data, r#"{"status":"complete"}"#);
}

#[test]
fn websocket_stream_filters_ping_pong() {
    let incoming: Vec<Result<WebSocketMessage, StreamingError>> = vec![
        Ok(WebSocketMessage::Ping(vec![])),
        Ok(WebSocketMessage::Pong(vec![])),
        Ok(WebSocketMessage::Text("data".into())),
        Ok(WebSocketMessage::Close(None)),
    ];
    let mut pulls = incoming.into_iter();
    let mut ws: WebSocketStream<(), (), WebSocketMessage> = WebSocketStream::new((), ());

    // Only the Text frame is yielded.
    let msg = loop {
        match ws.accept(pulls.next()) {
            Received::Item(r) => break r.unwrap(),
            Received::Skip => continue,
            Received::End => panic!("stream ended"),
        }
    };
    assert_eq!(msg, WebSocketMessage::Text("data".into()));

    // Close terminates the stream.
    assert!(matches!(ws.accept(pulls.next()), Received::End));
    assert!(ws.ended);
    assert!(matches!(ws.accept(pulls.next()), Received::End));
}

#[test]
fn websocket_stream_close_terminates() {
    let out: Vec<Result<WebSocketMessage, StreamingError>> =
        receive_all(vec![Ok(WebSocketMessage::Close(None))]);
    assert!(out.is_empty());

    let mut ws: WebSocketStream<(), (), WebSocketMessage> = WebSocketStream::new((), ());
    assert!(matches!(
        ws.accept(Some(Ok(WebSocketMessage::Close(None)))),
        Received::End
    ));
}

#[test]
fn websocket_json_roundtrip() {
    let outgoing = Json(vec!["hello".to_owned()]);
    let raw = json_message(serde_json::to_string(&outgoing.0).unwrap());
    assert!(matches!(&raw, WebSocketMessage::Text(t) if t.contains("hello")));

    let text = message_payload(raw.clone()).unwrap();
    let parsed: Json<Vec<String>> = message_value(serde_json::from_str(&text)).unwrap();
    assert_eq!(parsed.into_inner(), vec!["hello".to_owned()]);

    let parsed: Json<Vec<String>> =
        message_json(raw, |text| serde_json::from_str(&text)).unwrap();
    assert_eq!(parsed, outgoing);
}

#[test]
fn websocket_json_roundtrip_of_several_values() {
    let values = vec![
        serde_json::Value::Null,
        serde_json::Value::Bool(true),
        serde_json::Value::from(42u64),
        serde_json::Value::from(-1.5f64),
        serde_json::Value::from("text with \"quotes\" and \u{20ac}"),
        serde_json::Value::from(vec!["a", "b"]),
    ];
    for value in values {
        let raw = json_message(serde_json::to_string(&value).unwrap());
        let parsed: Json<serde_json::Value> =
            message_json(raw, |text| serde_json::from_str(&text)).unwrap();
        assert_eq!(parsed.into_inner(), value);
    }
}

#[test]
fn json_failures_carry_the_text_of_the_json_error() {
    let expected = serde_json::from_str::<u64>("not json").unwrap_err().to_string();
    let failed: Result<Json<u64>, StreamingError> = message_json(
        WebSocketMessage::Text("not json".to_owned()),
        |text| serde_json::from_str(&text),
    );
    assert_eq!(
        failed,
        Err(StreamingError::WebSocketBridge { detail: expected.clone() })
    );
    let failed: Result<Json<u64>, StreamingError> = event_json(
        ServerEvent {
            data: "not json".to_owned(),
            ..Default::default()
        },
        |data| serde_json::from_str(&data),
    );
    assert_eq!(
        failed,
        Err(StreamingError::ServerEventsParse { detail: expected.clone() })
    );
    assert!(!expected.is_empty());
    let parsed: Json<u64> = event_json(
        ServerEvent {
            data: "7".to_owned(),
            ..Default::default()
        },
        |data| serde_json::from_str(&data),
    )
    .unwrap();
    assert_eq!(parsed.into_inner(), 7);
}

#[test]
fn a_message_that_is_no_text_is_rejected_before_anything_is_parsed() {
    for msg in [
        WebSocketMessage::Binary(b"7".to_vec()),
        WebSocketMessage::Ping(vec![]),
        WebSocketMessage::Close(None),
    ] {
        let r: Result<Json<u64>, StreamingError> =
            message_json(msg, |_| panic!("nothing is parsed"));
        assert_eq!(
            r,
            Err(StreamingError::WebSocketBridge {
                detail: "expected Text message for JSON deserialization, got Binary".to_owned()
            })
        );
    }
}

#[test]
fn websocket_json_rejects_binary() {
    let binary_msg = WebSocketMessage::Binary(vec![0, 1, 2]);
    let err = message_payload(binary_msg).unwrap_err();

    assert!(
        matches!(&err, StreamingError::WebSocketBridge { detail } if detail.contains("Text")),
        "expected WebSocketBridge mentioning Text, got {err:?}"
    );
    assert_eq!(
        err.to_string(),
        "WebSocket bridge error: expected Text message for JSON deserialization, got Binary"
    );
}

#[test]
fn websocket_stream_as_futures_stream() {
    let messages: Vec<WebSocketMessage> = receive_all::<WebSocketMessage>(vec![
        Ok(WebSocketMessage::Text("a".into())),
        Ok(WebSocketMessage::Text("b".into())),
        Ok(WebSocketMessage::Text("c".into())),
        Ok(WebSocketMessage::Close(None)),
    ])
    .into_iter()
    .collect::<Result<Vec<_>, _>>()
    .unwrap();

    assert_eq!(messages.len(), 3);
    assert_eq!(messages[0], WebSocketMessage::Text("a".into()));
    assert_eq!(messages[1], WebSocketMessage::Text("b".into()));
    assert_eq!(messages[2], WebSocketMessage::Text("c".into()));
}

#[test]
fn websocket_stream_split() {
    let sent: Vec<WebSocketMessage> = Vec::new();
    let incoming: Vec<Result<WebSocketMessage, StreamingError>> = vec![
        Ok(WebSocketMessage::Text("received".into())),
        Ok(WebSocketMessage::Close(None)),
    ];
    let ws: WebSocketStream<Vec<WebSocketMessage>, std::vec::IntoIter<_>, WebSocketMessage> =
        WebSocketStream::new(sent, incoming.into_iter());

    let (mut sender, mut stream_receiver) = ws.split();

    // Send via the sender half.
    let raw = sender.outgoing(&WebSocketMessage::Text("sent".into()));
    sender.sink.push(raw);
    assert_eq!(sender.sink, vec![WebSocketMessage::Text("sent".into())]);

    // Receive via the receiver half.
    let item = stream_receiver.receiver.next();
    let received = match stream_receiver.accept(item) {
        Received::Item(r) => r.unwrap(),
        _ => panic!("stream ended"),
    };
    assert_eq!(received, WebSocketMessage::Text("received".into()));

    // Close terminates.
    let item = stream_receiver.receiver.next();
    assert!(matches!(stream_receiver.accept(item), Received::End));
    assert!(stream_receiver.ended);
}

#[test]
fn websocket_receiver_half_alone() {
    let mut half: WebSocketStreamReceiver<(), WebSocketMessage> = WebSocketStreamReceiver::new(());
    assert!(matches!(
        half.accept(Some(Ok(WebSocketMessage::Binary(vec![1, 2])))),
        Received::Item(Ok(WebSocketMessage::Binary(_)))
    ));
    assert!(!half.ended);
    assert!(matches!(half.accept(None), Received::End));
    assert!(half.ended);
}

#[test]
fn websocket_identity_conversion() {
    let msg = WebSocketMessage::Binary(vec![9, 8]);
    assert_eq!(msg.to_ws_message(), msg);
    assert_eq!(WebSocketMessage::from_ws_message(msg.clone()).unwrap(), msg);
}
