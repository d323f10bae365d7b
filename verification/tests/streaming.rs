//! What holds of the streaming tools for every input, tried on chosen
//! inputs, and held against the standard library where it has the same
//! operation.

use gateway_sdk::error::{ServiceGatewayError, StreamingError};
use gateway_sdk::sse::event::ServerEvent;
use gateway_sdk::sse::parse::{
    extract_events, normalize_line_endings, parse_line, parse_retry_value,
};
use gateway_sdk::sse::parser::{parse_server_events, ParserStep, ServerEventsParser};
use gateway_sdk::utf8::{
    decode_prefix, decode_text, invalid_sequence_len_of, is_incomplete_tail,
};

type Output = Vec<Result<ServerEvent, StreamingError>>;

fn parse_chunks(chunks: &[&[u8]]) -> Output {
    let items: Vec<Result<Vec<u8>, String>> = chunks.iter().map(|c| Ok(c.to_vec())).collect();
    parse_server_events(&items)
}

fn data_event(data: &str) -> ServerEvent {
    ServerEvent {
        data: data.to_owned(),
        ..Default::default()
    }
}

/// True when cutting `stream` at `k` separates a `\r` from its `\n`.
fn cuts_line_ending(stream: &[u8], k: usize) -> bool {
    k > 0 && k < stream.len() && stream[k - 1] == b'\r' && stream[k] == b'\n'
}

const STREAM: &str = "\u{feff}: welcome\n\nid: 1\nevent: price\ndata: \u{20ac}99\ndata: \u{1f44d}\n\n\n\n\
retry: 3000\r\ndata: caf\u{e9}\r\rdata:  two\nid: a\0b\ndata\n\ndata: trailing \u{1f44d}";

#[test]
fn one_cut_anywhere_changes_nothing() {
    let stream = STREAM.as_bytes();
    let whole = parse_chunks(&[stream]);
    assert_eq!(whole.len(), 4);
    assert!(whole.iter().all(|r| r.is_ok()));
    for k in 0..=stream.len() {
        if cuts_line_ending(stream, k) {
            continue;
        }
        assert_eq!(parse_chunks(&[&stream[..k], &stream[k..]]), whole, "cut at {k}");
    }
}

#[test]
fn two_cuts_anywhere_change_nothing() {
    let stream = STREAM.as_bytes();
    let whole = parse_chunks(&[stream]);
    for j in 0..=stream.len() {
        for k in j..=stream.len() {
            if cuts_line_ending(stream, j) || cuts_line_ending(stream, k) {
                continue;
            }
            assert_eq!(
                parse_chunks(&[&stream[..j], &stream[j..k], &stream[k..]]),
                whole,
                "cuts at {j} and {k}"
            );
        }
    }
}

#[test]
fn byte_by_byte_changes_nothing() {
    let stream = "id: 1\ndata: \u{20ac}\u{1f44d}\n\n\n: c\n\ndata: x\ndata: y\n\nevent: end".as_bytes();
    let whole = parse_chunks(&[stream]);
    let bytes: Vec<&[u8]> = stream.chunks(1).collect();
    assert_eq!(parse_chunks(&bytes), whole);
    assert_eq!(whole.len(), 3);
}

#[test]
fn a_cut_between_cr_and_lf_makes_two_line_endings() {
    let whole = parse_chunks(&[b"data: a\r\ndata: b\n\n"]);
    assert_eq!(whole, vec![Ok(data_event("a\nb"))]);
    let cut = parse_chunks(&[b"data: a\r", b"\ndata: b\n\n"]);
    assert_eq!(cut, vec![Ok(data_event("a")), Ok(data_event("b"))]);
}

#[test]
fn three_byte_character_split_at_any_offset() {
    let euro = "\u{20ac}".as_bytes();
    assert_eq!(euro.len(), 3);
    for k in 0..=3 {
        let mut first = b"data: price ".to_vec();
        first.extend_from_slice(&euro[..k]);
        let mut second = euro[k..].to_vec();
        second.extend_from_slice(b"99\n\n");
        assert_eq!(
            parse_chunks(&[&first, &second]),
            vec![Ok(data_event("price \u{20ac}99"))],
            "split at {k}"
        );
    }
}

#[test]
fn four_byte_character_split_at_any_offsets() {
    let emoji = "\u{1f44d}".as_bytes();
    assert_eq!(emoji.len(), 4);
    for j in 0..=4 {
        for k in j..=4 {
            let mut first = b"data: ".to_vec();
            first.extend_from_slice(&emoji[..j]);
            let second = emoji[j..k].to_vec();
            let mut third = emoji[k..].to_vec();
            third.extend_from_slice(b"\n\n");
            assert_eq!(
                parse_chunks(&[&first, &second, &third]),
                vec![Ok(data_event("\u{1f44d}"))],
                "split at {j} and {k}"
            );
        }
    }
}

#[test]
fn byte_order_mark_cut_in_two_is_still_stripped() {
    assert_eq!(
        parse_chunks(&[b"\xEF", b"\xBB", b"\xBFdata: hello\n\n"]),
        vec![Ok(data_event("hello"))]
    );
    // only the first text of the stream loses its mark
    assert_eq!(
        parse_chunks(&[b"data: a\n\n", b"\xEF\xBB\xBFdata: b\n\n"]),
        vec![Ok(data_event("a"))]
    );
}

#[test]
fn comment_only_stream_yields_nothing() {
    assert_eq!(parse_chunks(&[b": comment\n\n"]), vec![]);
    assert_eq!(parse_chunks(&[b": comment"]), vec![]);
    assert_eq!(parse_chunks(&[b"\n\n\n\n"]), vec![]);
    assert_eq!(parse_chunks(&[b" \t \n  "]), vec![]);
}

#[test]
fn a_cut_off_character_at_the_end_of_the_stream_is_dropped() {
    assert_eq!(
        parse_chunks(&[b"data: x\n\ndata: y\xE2\x82"]),
        vec![Ok(data_event("x")), Ok(data_event("y"))]
    );
}

#[test]
fn malformed_bytes_end_the_stream_with_one_error() {
    let out = parse_chunks(&[b"data: a\n\ndata: b", b"\xFF\xFE", b"data: c\n\n"]);
    assert_eq!(out.len(), 2);
    assert_eq!(out[0], Ok(data_event("a")));
    assert_eq!(
        out[1],
        Err(StreamingError::ServerEventsParse {
            detail: "invalid UTF-8: invalid utf-8 sequence of 1 bytes from index 0".to_owned()
        })
    );
}

#[test]
fn malformed_bytes_after_a_cut_off_character() {
    // the kept byte counts in the index of the error
    let out = parse_chunks(&[b"data: \xE2", b"\x82A\n\n"]);
    assert_eq!(
        out,
        vec![Err(StreamingError::ServerEventsParse {
            detail: "invalid UTF-8: invalid utf-8 sequence of 2 bytes from index 0".to_owned()
        })]
    );
}

#[test]
fn decode_error_detail_is_that_of_the_standard_library() {
    let samples: [&[u8]; 12] = [
        b"\xFF",
        b"ab\x80",
        b"abc\xC0\x80",
        b"\xE0\x80\x80",
        b"\xE2\x82A",
        b"\xED\xA0\x80",
        b"\xF0\x9F\x91A",
        b"\xF0\x9FA",
        b"\xF4\x90\x80\x80",
        b"\xF5\x80\x80\x80",
        b"caf\xC3\xA9 \xF8",
        b"\xC3\xA9\xE2\x82\xAC\xF0\x9F\x91\x8D\xC3(",
    ];
    for bytes in samples {
        let expected = format!(
            "invalid UTF-8: {}",
            std::str::from_utf8(bytes).expect_err("the sample is malformed")
        );
        assert_eq!(
            parse_chunks(&[bytes]),
            vec![Err(StreamingError::ServerEventsParse { detail: expected })],
            "bytes {bytes:?}"
        );
    }
}

/// What the decoder says of `bytes`, in the terms of the standard library:
/// how far the bytes are valid, and the length of the invalid sequence
/// after that, `None` for a sequence that was cut off.
fn verdict(bytes: &[u8]) -> Result<String, (usize, Option<usize>)> {
    let (text, valid_up_to) = decode_prefix(bytes);
    let text: String = text.into_iter().collect();
    let rest = &bytes[valid_up_to..];
    if rest.is_empty() {
        Ok(text)
    } else if is_incomplete_tail(rest) {
        Err((valid_up_to, None))
    } else {
        Err((valid_up_to, Some(invalid_sequence_len_of(rest))))
    }
}

fn std_verdict(bytes: &[u8]) -> Result<String, (usize, Option<usize>)> {
    match std::str::from_utf8(bytes) {
        Ok(text) => Ok(text.to_owned()),
        Err(e) => Err((e.valid_up_to(), e.error_len())),
    }
}

#[test]
fn decoder_agrees_with_the_standard_library_on_short_sequences() {
    for a in 0..=255u8 {
        assert_eq!(verdict(&[a]), std_verdict(&[a]), "{a:02x}");
        for b in 0..=255u8 {
            assert_eq!(verdict(&[a, b]), std_verdict(&[a, b]), "{a:02x} {b:02x}");
        }
    }
}

#[test]
fn decoder_agrees_with_the_standard_library_on_long_sequences() {
    let edges: [u8; 20] = [
        0x00, 0x41, 0x7F, 0x80, 0x8F, 0x90, 0x9F, 0xA0, 0xBF, 0xC0, 0xC1, 0xC2, 0xDF, 0xE0, 0xED,
        0xEF, 0xF0, 0xF4, 0xF5, 0xFF,
    ];
    for a in 0xC0..=0xFFu8 {
        for &b in &edges {
            for &c in &edges {
                assert_eq!(verdict(&[a, b, c]), std_verdict(&[a, b, c]));
                for &d in &edges {
                    assert_eq!(verdict(&[a, b, c, d]), std_verdict(&[a, b, c, d]));
                    assert_eq!(verdict(&[0x41, a, b, c, d, 0x42]), std_verdict(&[0x41, a, b, c, d, 0x42]));
                }
            }
        }
    }
}

#[test]
fn decoder_decodes_every_scalar_value() {
    let mut text = String::new();
    for c in ['\0', 'a', '\u{7f}', '\u{80}', '\u{7ff}', '\u{800}', '\u{d7ff}', '\u{e000}', '\u{feff}', '\u{ffff}', '\u{10000}', '\u{10ffff}'] {
        text.push(c);
        let mut buf = [0u8; 4];
        let bytes = c.encode_utf8(&mut buf).as_bytes();
        assert_eq!(decode_text(bytes), Some(vec![c]));
        for k in 1..bytes.len() {
            assert!(is_incomplete_tail(&bytes[..k]));
            assert_eq!(decode_text(&bytes[..k]), None);
        }
        assert!(!is_incomplete_tail(bytes));
    }
    assert_eq!(decode_text(text.as_bytes()), Some(text.chars().collect()));
    assert_eq!(decode_text(b""), Some(vec![]));
    assert!(!is_incomplete_tail(b""));
}

#[test]
fn retry_values_are_those_of_the_standard_library() {
    for value in [
        "", "0", "7", "007", "3000", "+5", "+", "++5", "-0", "-5", "+-5", " 5", "5 ", "5x", "x5",
        "1e3", "1.0", "0x10", "18446744073709551615", "18446744073709551616",
        "+18446744073709551615", "99999999999999999999999999", "00000000000000000000000001",
        "\u{0661}", "1\u{0662}", "\u{ff11}",
    ] {
        let chars: Vec<char> = value.chars().collect();
        assert_eq!(parse_retry_value(&chars), value.parse::<u64>().ok(), "value {value:?}");
    }
    assert_eq!(parse_retry_value(&['+', '5']), Some(5));
    assert_eq!(parse_retry_value(&['0']), Some(0));
}

#[test]
fn retry_zero_is_a_value() {
    let out = parse_chunks(&[b"retry: 0\n\n"]);
    assert_eq!(
        out,
        vec![Ok(ServerEvent {
            retry: Some(0),
            ..Default::default()
        })]
    );
}

#[test]
fn line_endings_are_normalized_as_by_two_replacements() {
    for text in [
        "", "a", "\r", "\n", "\r\n", "\n\r", "\r\r", "\r\r\n", "\r\n\r\n", "\r\n\n", "a\rb\nc\r\nd",
        "data: x\r\n\r\ndata: y\r\r", "\u{20ac}\r\u{1f44d}\r\n",
    ] {
        assert_eq!(
            normalize_line_endings(text),
            text.replace("\r\n", "\n").replace('\r', "\n"),
            "text {text:?}"
        );
    }
}

#[test]
fn lines_are_applied_one_by_one() {
    let mut event = ServerEvent::default();
    parse_line("data: first", &mut event);
    parse_line(": comment", &mut event);
    parse_line("data", &mut event);
    parse_line("data:second", &mut event);
    parse_line("event: a", &mut event);
    parse_line("event: b", &mut event);
    parse_line("id: 1", &mut event);
    parse_line("id: bad\0", &mut event);
    parse_line("retry: 10", &mut event);
    parse_line("retry: ten", &mut event);
    parse_line("unknown: x", &mut event);
    parse_line("", &mut event);
    parse_line("Data: x", &mut event);
    parse_line("data : x", &mut event);
    assert_eq!(
        event,
        ServerEvent {
            id: Some("1".to_owned()),
            event: Some("b".to_owned()),
            data: "first\n\nsecond".to_owned(),
            retry: Some(10),
        }
    );
    assert!(!event.is_empty());
    assert!(ServerEvent::default().is_empty());
}

#[test]
fn id_may_be_empty_and_values_keep_their_colons() {
    let mut event = ServerEvent::default();
    parse_line("id", &mut event);
    assert_eq!(event.id.as_deref(), Some(""));
    assert!(!event.is_empty());
    parse_line("data: a: b:c", &mut event);
    assert_eq!(event.data, "a: b:c");
}

#[test]
fn extraction_takes_completed_blocks_and_leaves_the_rest() {
    let mut buf = "data: a\n\n: c\n\n\n\ndata: b\ndata: c\n\ndata: part".to_owned();
    let events = extract_events(&mut buf);
    assert_eq!(
        events.into_iter().collect::<Vec<_>>(),
        vec![data_event("a"), data_event("b\nc")]
    );
    assert_eq!(buf, "data: part");

    let mut buf = "data: a\n".to_owned();
    assert!(extract_events(&mut buf).is_empty());
    assert_eq!(buf, "data: a\n");

    let mut buf = "\n\n\ndata: a\n\n\n".to_owned();
    assert_eq!(
        extract_events(&mut buf).into_iter().collect::<Vec<_>>(),
        vec![data_event("a")]
    );
    assert_eq!(buf, "");
}

#[test]
fn a_block_is_read_line_by_line_as_by_the_standard_library() {
    // the buffer of the parser never holds a `\r`; extraction alone reads
    // it as a part of the line ending before a `\n`, and as text elsewhere
    for block in ["data: a\r\ndata: b\r", "data: a\r\r\ndata: b", "data: x\rdata: y", "\ndata: a"] {
        let mut expected = ServerEvent::default();
        for line in block.lines() {
            parse_line(line, &mut expected);
        }
        let mut buf = format!("{block}\n\n");
        assert_eq!(
            extract_events(&mut buf).into_iter().collect::<Vec<_>>(),
            vec![expected],
            "block {block:?}"
        );
    }
}

#[test]
fn parser_asks_for_chunks_and_delivers_in_order() {
    let mut parser = ServerEventsParser::new();
    assert!(matches!(parser.next_step(), ParserStep::NeedChunk));
    assert_eq!(parser.on_chunk(b"data: a\n\ndata: b\n\ndata: c"), Ok(()));
    assert!(matches!(parser.next_step(), ParserStep::Event(e) if e.data == "a"));
    assert!(matches!(parser.next_step(), ParserStep::Event(e) if e.data == "b"));
    assert!(matches!(parser.next_step(), ParserStep::NeedChunk));
    assert!(matches!(parser.next_step(), ParserStep::NeedChunk));
    assert_eq!(parser.on_chunk(b""), Ok(()));
    assert!(matches!(parser.next_step(), ParserStep::NeedChunk));
    parser.on_end();
    assert!(matches!(parser.next_step(), ParserStep::Event(e) if e.data == "c"));
    assert!(matches!(parser.next_step(), ParserStep::Finished));
    assert!(matches!(parser.next_step(), ParserStep::Finished));
    // a parser that has ended takes no more chunks
    assert_eq!(parser.on_chunk(b"data: d\n\n"), Ok(()));
    assert!(matches!(parser.next_step(), ParserStep::Finished));
}

#[test]
fn parser_stops_after_malformed_bytes() {
    let mut parser = ServerEventsParser::new();
    assert_eq!(parser.on_chunk(b"data: a"), Ok(()));
    assert!(parser.on_chunk(b"\xFF").is_err());
    assert!(matches!(parser.next_step(), ParserStep::Finished));
    assert_eq!(parser.on_chunk(b"\n\n"), Ok(()));
    parser.on_end();
    assert!(matches!(parser.next_step(), ParserStep::Finished));
}

#[test]
fn source_failure_is_handed_on_and_the_rest_is_flushed() {
    let items: Vec<Result<Vec<u8>, String>> = vec![
        Ok(b"data: a\n\ndata: b".to_vec()),
        Err("connection reset".to_owned()),
        Ok(b"data: never read\n\n".to_vec()),
    ];
    assert_eq!(
        parse_server_events(&items),
        vec![
            Ok(data_event("a")),
            Err(StreamingError::Stream("connection reset".to_owned())),
            Ok(data_event("b")),
        ]
    );
}

#[test]
fn streaming_error_messages() {
    assert_eq!(
        StreamingError::ServerEventsParse { detail: "d".into() }.to_string(),
        "SSE parse error: d"
    );
    assert_eq!(StreamingError::Stream("d".into()).to_string(), "stream error: d");
    assert_eq!(
        StreamingError::WebSocketConnect { detail: "d".into() }.to_string(),
        "WebSocket connect error: d"
    );
    assert_eq!(
        StreamingError::WebSocketBridge { detail: "d".into() }.to_string(),
        "WebSocket bridge error: d"
    );
    assert_eq!(
        StreamingError::bridge(&StreamingError::Stream("closed".into())),
        StreamingError::WebSocketBridge { detail: "stream error: closed".into() }
    );
}

#[test]
fn gateway_error_messages() {
    let instance = || "/x".to_owned();
    let detail = || "the detail".to_owned();
    for (error, message) in [
        (ServiceGatewayError::ValidationError { detail: detail(), instance: instance() }, "the detail"),
        (
            ServiceGatewayError::MissingTargetHost { instance: instance() },
            "target host header required for multi-endpoint upstream",
        ),
        (
            ServiceGatewayError::InvalidTargetHost { instance: instance() },
            "invalid target host header format",
        ),
        (ServiceGatewayError::UnknownTargetHost { detail: detail(), instance: instance() }, "the detail"),
        (ServiceGatewayError::AuthenticationFailed { detail: detail(), instance: instance() }, "the detail"),
        (
            ServiceGatewayError::NotFound { entity: "route".to_owned(), instance: instance() },
            "route not found",
        ),
        (ServiceGatewayError::RouteNotFound { instance: instance() }, "no matching route found"),
        (ServiceGatewayError::PayloadTooLarge { detail: detail(), instance: instance() }, "the detail"),
        (
            ServiceGatewayError::RateLimitExceeded {
                detail: detail(),
                instance: instance(),
                retry_after_secs: Some(3),
            },
            "the detail",
        ),
        (ServiceGatewayError::SecretNotFound { detail: detail(), instance: instance() }, "the detail"),
        (ServiceGatewayError::DownstreamError { detail: detail(), instance: instance() }, "the detail"),
        (ServiceGatewayError::ProtocolError { detail: detail(), instance: instance() }, "the detail"),
        (ServiceGatewayError::UpstreamDisabled { detail: detail(), instance: instance() }, "the detail"),
        (ServiceGatewayError::ConnectionTimeout { detail: detail(), instance: instance() }, "the detail"),
        (ServiceGatewayError::RequestTimeout { detail: detail(), instance: instance() }, "the detail"),
    ] {
        assert_eq!(error.to_string(), message);
    }
}
