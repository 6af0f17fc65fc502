use claurst::json::JsonText;
use claurst::transport::{
    check_status, checked_headers, create_transport, document_line, event_body, message_body, message_line, parse_sse_frames, react,
    select_transport_type, to_ndjson, AnyTransport, Connection, HybridTransport, LoopStart, LoopVerdict, SseEvent, SseFrame,
    SseReaction, SseTransport, TransportError, TransportState, TransportType, UrlError,
    WebSocketTransport, WsEvent, WsReaction, KEEP_ALIVE_FRAME,
};

fn text(s: &str) -> String {
    s.to_string()
}

fn connect(ws: &WebSocketTransport) -> Result<(String, Vec<(String, String)>), TransportError> {
    let url = ws.connect_url()?;
    Ok((url, checked_headers(&ws.headers)?))
}

fn frame(event: Option<&str>, id: Option<&str>, data: Option<&str>) -> SseFrame {
    SseFrame { event: event.map(text), id: id.map(text), data: data.map(text) }
}

#[test]
fn test_parse_sse_frames() {
    let buffer = "event: sdk_event\nid: 42\ndata: {\"hello\":\"world\"}\n\n";
    let (frames, remaining) = parse_sse_frames(buffer);
    assert_eq!(frames.len(), 1);
    assert_eq!(frames[0].event, Some("sdk_event".to_string()));
    assert_eq!(frames[0].id, Some("42".to_string()));
    assert_eq!(frames[0].data, Some(r#"{"hello":"world"}"#.to_string()));
    assert!(remaining.is_empty());
}

#[test]
fn test_parse_sse_keepalive() {
    let buffer = ":keepalive\n\n";
    let (frames, _) = parse_sse_frames(buffer);
    assert!(frames.is_empty());
}

#[test]
fn test_parse_sse_multiline_data() {
    let buffer = "event: test\ndata: line1\ndata: line2\n\n";
    let (frames, _) = parse_sse_frames(buffer);
    assert_eq!(frames.len(), 1);
    assert_eq!(frames[0].data, Some("line1\nline2".to_string()));
}

#[test]
fn test_ndjson_escaping() {
    let mut fields = serde_json::Map::new();
    fields.insert("type".to_string(), serde_json::Value::from("text_delta"));
    fields.insert(
        "text".to_string(),
        serde_json::Value::from("line\u{2028}sep\u{2029}para"),
    );
    fields.insert("message_id".to_string(), serde_json::Value::from("test"));
    fields.insert("index".to_string(), serde_json::Value::Null);
    let msg = serde_json::Value::Object(fields);
    let json = to_ndjson(&serde_json::to_string(&msg).unwrap());
    assert!(json.contains("\\u2028"));
    assert!(json.contains("\\u2029"));
}

#[test]
fn test_ws_url_to_post_url() {
    let post = HybridTransport::ws_url_to_post_url(
        "wss://api.example.com/v1/session_ingress/ws/session_123",
    )
    .unwrap();
    assert_eq!(post, "https://api.example.com/v1/session_ingress/events/session_123");

    let post =
        HybridTransport::ws_url_to_post_url("ws://localhost:8080/v2/session_ingress/ws/abc")
            .unwrap();
    assert_eq!(post, "http://localhost:8080/v2/session_ingress/events/abc");
}

#[test]
fn open_lines_and_last_frames() {
    let (frames, remaining) = parse_sse_frames("data: one\n\ndata: two\n");
    assert_eq!(frames, vec![frame(None, None, Some("one")), frame(None, None, Some("two"))]);
    assert_eq!(remaining, "");

    let (frames, remaining) = parse_sse_frames("data: one\ndata: tw");
    assert_eq!(frames, vec![frame(None, None, Some("one"))]);
    assert_eq!(remaining, "data: tw");

    let (frames, remaining) = parse_sse_frames("");
    assert!(frames.is_empty());
    assert_eq!(remaining, "");
}

#[test]
fn fields_lose_one_space_and_carriage_returns() {
    let (frames, _) = parse_sse_frames("event:a\r\nid:  7\r\nretry: 10\r\nnothing\r\n\r\n");
    assert_eq!(frames, vec![frame(Some("a"), Some(" 7"), None)]);
}

#[test]
fn later_fields_win_but_data_joins() {
    let (frames, _) = parse_sse_frames("id: 1\nid: 2\ndata:\ndata: x:y\n\n");
    assert_eq!(frames, vec![frame(None, Some("2"), Some("\nx:y"))]);
}

#[test]
fn comments_and_blank_lines_change_nothing() {
    let (plain, _) = parse_sse_frames("event: e\ndata: d\n\n");
    let (noisy, _) = parse_sse_frames("\n\n:ping\nevent: e\n: x\ndata: d\n\n\n");
    assert_eq!(plain, noisy);
}

#[test]
fn complete_frames_read_apart_or_together() {
    let a = "event: e\nid: 1\n\n";
    let b = "data: d\n\n";
    let (mut apart, _) = parse_sse_frames(a);
    apart.extend(parse_sse_frames(b).0);
    let (together, _) = parse_sse_frames(&format!("{}{}", a, b));
    assert_eq!(apart, together);
}

#[test]
fn ndjson_leaves_other_text_alone() {
    assert_eq!(to_ndjson("{\"a\":\"b\u{e9}\"}"), "{\"a\":\"b\u{e9}\"}");
    assert_eq!(to_ndjson("a\u{2028}\u{2029}b"), "a\\u2028\\u2029b");
}

#[test]
fn event_bodies() {
    let body = event_body("{ \"type\" : \"keep_alive\" }", 1_700_000_000_123).unwrap();
    assert_eq!(body, "{\"event\":{\"type\":\"keep_alive\"},\"ts\":1700000000123}");
    assert_eq!(event_body("1", -5).unwrap(), "{\"event\":1,\"ts\":-5}");
    assert!(event_body("{", 0).is_err());
}

#[test]
fn json_documents() {
    let doc = JsonText::parse("{\"a\" : {\"b\": [1, 2]}, \"s\": \"x\\ny\"}").unwrap();
    assert_eq!(doc.as_text(), "{\"a\":{\"b\":[1,2]},\"s\":\"x\\ny\"}");
    assert_eq!(doc.get("a").unwrap().as_text(), "{\"b\":[1,2]}");
    assert_eq!(doc.get("s").unwrap().as_str(), Some("x\ny".to_string()));
    assert!(doc.get("missing").is_none());
    assert!(doc.as_str().is_none());
    assert!(JsonText::parse("nope").is_err());
}

#[test]
fn post_urls() {
    let post = HybridTransport::ws_url_to_post_url("wss://h:443/ws/ws/a").unwrap();
    assert_eq!(post, "https://h/events/ws/a");
    let post = HybridTransport::ws_url_to_post_url("https://h/a").unwrap();
    assert_eq!(post, "http://h/a");
    assert!(matches!(
        HybridTransport::ws_url_to_post_url("not a url"),
        Err(UrlError::Invalid(_))
    ));
    assert!(matches!(
        HybridTransport::ws_url_to_post_url("data:text/plain,x"),
        Err(UrlError::MissingHost)
    ));

    let hybrid = HybridTransport::new(
        text("wss://h/v1/ws/s"),
        text("wss://h/v1/ws/s"),
        text("t"),
        vec![],
    );
    assert_eq!(hybrid.message_post_url().unwrap(), "https://h/v1/events/s/events");
}

#[test]
fn dropped_posts_are_counted() {
    let mut hybrid = HybridTransport::new(text("ws://h/"), text("ws://h/"), text("t"), vec![]);
    hybrid.record_post(true);
    hybrid.record_post(false);
    hybrid.record_post(false);
    assert_eq!(hybrid.dropped_count, 2);
    hybrid.dropped_count = usize::MAX;
    hybrid.record_post(false);
    assert_eq!(hybrid.dropped_count, 0);
}

#[test]
fn transport_types() {
    assert_eq!(select_transport_type("wss://e/ws", false, false), TransportType::WebSocket);
    assert_eq!(select_transport_type("ws://e/ws", false, false), TransportType::WebSocket);
    assert_eq!(select_transport_type("https://e/api", false, false), TransportType::Sse);
    assert_eq!(select_transport_type("http://e/api", false, false), TransportType::Sse);
    assert_eq!(select_transport_type("ftp://e", false, false), TransportType::WebSocket);
    assert_eq!(select_transport_type("wss://e/ws", true, true), TransportType::Sse);
    assert_eq!(select_transport_type("wss://e/ws", false, true), TransportType::Hybrid);
    assert_eq!(select_transport_type("https://e/ws", false, true), TransportType::Sse);
}

#[test]
fn created_transports() {
    let headers = vec![(text("a"), text("b"))];
    match create_transport(TransportType::WebSocket, text("ws://e"), text("t"), headers.clone()) {
        AnyTransport::WebSocket(ws) => {
            assert_eq!(ws.url, "ws://e");
            assert_eq!(ws.headers, headers);
            assert_eq!(ws.connection.state.label(), "idle");
        }
        other => panic!("{:?}", other),
    }
    match create_transport(TransportType::Sse, text("http://e"), text("t"), headers.clone()) {
        AnyTransport::Sse(sse) => {
            assert_eq!(sse.session_url, "http://e");
            assert_eq!(sse.auth_token, "t");
        }
        other => panic!("{:?}", other),
    }
    match create_transport(TransportType::Hybrid, text("ws://e"), text("t"), headers) {
        AnyTransport::Hybrid(hybrid) => {
            assert_eq!(hybrid.ws_transport.url, "ws://e");
            assert_eq!(hybrid.session_url, "ws://e");
        }
        other => panic!("{:?}", other),
    }
}

#[test]
fn connections_back_off() {
    let mut c = Connection::new();
    c.last_sequence_num = 3;
    let mut delays = vec![];
    for _ in 0..8 {
        match c.after_run(Some(None)) {
            LoopVerdict::Retry { delay_ms } => delays.push(delay_ms),
            other => panic!("{:?}", other),
        }
    }
    assert_eq!(delays, vec![1000, 2000, 4000, 8000, 16000, 30000, 30000, 30000]);
    assert_eq!(c.reconnect_attempts, 8);
    assert_eq!(c.last_sequence_num, 3);
    assert_eq!(c.state, TransportState::Reconnecting);
    c.on_connected();
    assert_eq!(c.reconnect_attempts, 0);
    assert!(c.connected);
    assert_eq!(c.after_run(None), LoopVerdict::Stop);
}

#[test]
fn connections_give_up() {
    let mut c = Connection::new();
    c.on_connected();
    assert_eq!(c.before_run(true, 0), LoopStart::Stop);
    assert_eq!(c.before_run(false, 600_000_000_000), LoopStart::Connect);
    assert!(c.connected);
    assert_eq!(c.before_run(false, 600_000_000_001), LoopStart::GiveUp { code: 0 });
    assert!(!c.connected);
}

#[test]
fn state_labels() {
    let labels: Vec<&str> = vec![
        TransportState::Idle.label(),
        TransportState::Connected.label(),
        TransportState::Reconnecting.label(),
        TransportState::Closing.label(),
        TransportState::Closed.label(),
    ];
    assert_eq!(labels, vec!["idle", "connected", "reconnecting", "closing", "closed"]);
    let mut c = Connection::new();
    c.close();
    assert_eq!(c.state.label(), "closing");
    c.last_sequence_num = 9;
    c.reset_state();
    assert_eq!(c.state.label(), "idle");
    assert_eq!(c.last_sequence_num, 9);
}

#[test]
fn permanent_websocket_errors() {
    for code in [1002, 4001, 4003] {
        let mut ws = WebSocketTransport::new(text("ws://e"), vec![]);
        let end = Err(TransportError::Closed { code, reason: text("r") });
        assert_eq!(ws.after_run(&end), LoopVerdict::Close { code });
    }
    let mut ws = WebSocketTransport::new(text("ws://e"), vec![]);
    assert_eq!(
        ws.after_run(&Err(TransportError::AuthFailed)),
        LoopVerdict::Close { code: 4003 }
    );
    let end = Err(TransportError::Closed { code: 1001, reason: text("r") });
    assert_eq!(ws.after_run(&end), LoopVerdict::Retry { delay_ms: 1000 });
    assert_eq!(
        ws.after_run(&Err(TransportError::Http { status: 401 })),
        LoopVerdict::Retry { delay_ms: 2000 }
    );
    assert_eq!(ws.after_run(&Ok(())), LoopVerdict::Stop);
}

#[test]
fn permanent_stream_errors() {
    let mut sse = SseTransport::new(text("http://e"), text("t"));
    for (status, code) in [(401, 4003), (403, 4003), (404, 4001)] {
        assert_eq!(
            sse.after_run(&Err(TransportError::Http { status })),
            LoopVerdict::Close { code }
        );
    }
    assert_eq!(
        sse.after_run(&Err(TransportError::Http { status: 500 })),
        LoopVerdict::Retry { delay_ms: 1000 }
    );
    assert_eq!(
        sse.after_run(&Err(TransportError::AuthFailed)),
        LoopVerdict::Retry { delay_ms: 2000 }
    );
}

#[test]
fn websocket_requests() {
    let ws = WebSocketTransport::new(
        text("WSS://Example.com/a b"),
        vec![(text("x-a"), text("1")), (text("X_B"), text("caf\u{e9}\t"))],
    );
    let (url, headers) = connect(&ws).unwrap();
    assert_eq!(url, "wss://example.com/a%20b");
    assert_eq!(headers, ws.headers);

    let bad = WebSocketTransport::new(text("nonsense"), vec![]);
    assert_eq!(
        connect(&bad).unwrap_err().describe(),
        "relative URL without a base"
    );
    let bad = WebSocketTransport::new(text("ws://e"), vec![(text("a b"), text("\n"))]);
    assert_eq!(
        connect(&bad).unwrap_err().describe(),
        "WebSocket error: Invalid header name"
    );
    let bad = WebSocketTransport::new(
        text("ws://e"),
        vec![(text("ok"), text("v")), (text("b"), text("\n"))],
    );
    assert_eq!(
        connect(&bad).unwrap_err().describe(),
        "WebSocket error: Invalid header value"
    );
    let bad = WebSocketTransport::new(text("ws://e"), vec![(text(""), text("v"))]);
    assert!(connect(&bad).is_err());
    let long = WebSocketTransport::new(text("ws://e"), vec![("a".repeat(65_535), text("v"))]);
    assert!(connect(&long).is_ok());
    let long = WebSocketTransport::new(text("ws://e"), vec![("a".repeat(65_536), text("v"))]);
    assert!(connect(&long).is_err());
}

#[test]
fn header_characters() {
    for c in 0u8..=127 {
        let c = c as char;
        let as_name = WebSocketTransport::new(text("ws://e"), vec![(c.to_string(), text("v"))]);
        let token = c.is_ascii_alphanumeric() || "!#$%&'*+-.^_`|~".contains(c);
        assert_eq!(connect(&as_name).is_ok(), token, "{:?}", c);
        let as_value = WebSocketTransport::new(text("ws://e"), vec![(text("n"), c.to_string())]);
        let visible = c == '\t' || (c >= ' ' && c != '\u{7f}');
        assert_eq!(connect(&as_value).is_ok(), visible, "{:?}", c);
    }
}

#[test]
fn websocket_reactions() {
    assert!(matches!(react(WsEvent::Text(text("a"))), WsReaction::Deliver(t) if t == "a"));
    assert!(matches!(
        react(WsEvent::Binary(vec![0xc3, 0xa9])),
        WsReaction::Deliver(t) if t == "\u{e9}"
    ));
    assert!(matches!(react(WsEvent::Binary(vec![0xff])), WsReaction::Wait));
    assert!(matches!(react(WsEvent::Control), WsReaction::Wait));
    assert!(matches!(react(WsEvent::Unserializable), WsReaction::Wait));
    assert!(matches!(react(WsEvent::PingDue), WsReaction::SendPing));
    assert!(matches!(
        react(WsEvent::Outgoing(text("\"\u{2028}\""))),
        WsReaction::Send(t) if t == "\"\\u2028\""
    ));
    assert!(matches!(
        react(WsEvent::KeepAliveDue),
        WsReaction::Send(t) if t == KEEP_ALIVE_FRAME
    ));
    let closes = vec![
        (WsEvent::Close(Some((4001, text("gone")))), "Connection closed (code: 4001, reason: gone)"),
        (WsEvent::Close(None), "Connection closed (code: 1000, reason: )"),
        (WsEvent::Ended, "Connection closed (code: 1001, reason: Stream ended)"),
        (WsEvent::ReadFailed(text("r")), "WebSocket error: r"),
        (WsEvent::SendFailed(text("s")), "WebSocket error: s"),
    ];
    for (event, words) in closes {
        match react(event) {
            WsReaction::Leave(e) => assert_eq!(e.describe(), words),
            other => panic!("{:?}", other),
        }
    }
}

#[test]
fn error_words() {
    let all = vec![
        (TransportError::AuthFailed, "Authentication failed"),
        (TransportError::SessionExpired, "Session expired or not found"),
        (TransportError::MaxReconnectsExceeded, "Max reconnection attempts exceeded"),
        (TransportError::GiveUp(600), "Give up after 600ms"),
        (TransportError::Http { status: 404 }, "HTTP error: 404"),
        (TransportError::Timeout, "Timeout"),
        (TransportError::Other(text("x")), "x"),
    ];
    for (e, words) in all {
        assert_eq!(e.describe(), words);
    }
}

#[test]
fn answers_by_status() {
    assert!(check_status(200).is_ok());
    assert!(check_status(299).is_ok());
    assert!(matches!(check_status(199), Err(TransportError::Http { status: 199 })));
    assert!(matches!(check_status(300), Err(TransportError::Http { status: 300 })));
}

#[test]
fn streams_resume() {
    let mut sse = SseTransport::new(text("http://e/s"), text("t"));
    let request = sse.stream_request();
    assert_eq!(request.url, "http://e/s/worker/events/stream");
    assert_eq!(request.from_sequence_num, None);
    assert_eq!(sse.events_url(), "http://e/s/worker/events");
    let mut buffer = String::new();
    let chunk = b"id: 41\n\nid: x\n\nid: +42\ndata: {\"payload\":{\"type\":\"ping\"}}\n\nda".to_vec();
    match sse.react(&mut buffer, SseEvent::Chunk(chunk)) {
        SseReaction::Deliver(list) => {
            assert_eq!(list.len(), 1);
            assert_eq!(list[0].as_text(), "{\"type\":\"ping\"}");
        }
        other => panic!("{:?}", other),
    }
    assert_eq!(buffer, "da");
    assert_eq!(sse.connection.last_sequence_num, 42);
    assert_eq!(sse.stream_request().from_sequence_num, Some(text("42")));
    let rest = b"ta: {\"payload\":1}\ndata: no\n\ndata: {\"other\":1}\n\n".to_vec();
    match sse.react(&mut buffer, SseEvent::Chunk(rest)) {
        SseReaction::Deliver(list) => assert!(list.is_empty()),
        other => panic!("{:?}", other),
    }
    assert_eq!(buffer, "");
    sse.update_auth_token(text("u"));
    assert_eq!(sse.auth_token, "u");
}

#[test]
fn streams_end() {
    let mut sse = SseTransport::new(text("http://e/s"), text("t"));
    let mut buffer = text("open");
    assert!(matches!(
        sse.react(&mut buffer, SseEvent::Chunk(vec![0xff])),
        SseReaction::Deliver(list) if list.is_empty()
    ));
    assert_eq!(buffer, "open");
    assert!(matches!(
        sse.react(&mut buffer, SseEvent::ReadFailed(text("e"))),
        SseReaction::Leave(TransportError::Other(t)) if t == "e"
    ));
    assert!(matches!(
        sse.react(&mut buffer, SseEvent::Ended),
        SseReaction::Leave(TransportError::Closed { code: 1001, reason }) if reason == "Stream ended"
    ));
    assert!(matches!(
        sse.react(&mut buffer, SseEvent::LivenessDue { silent_nanos: 45_000_000_000 }),
        SseReaction::Deliver(list) if list.is_empty()
    ));
    assert!(matches!(
        sse.react(&mut buffer, SseEvent::LivenessDue { silent_nanos: 45_000_000_001 }),
        SseReaction::Leave(TransportError::Timeout)
    ));
}

#[test]
fn frames_with_given_payloads() {
    let mut sse = SseTransport::new(text("http://e/s"), text("t"));
    let mut deliver = vec![];
    sse.take_frame(&frame(None, Some("5"), None), None, &mut deliver);
    assert_eq!(sse.connection.last_sequence_num, 5);
    let payload = JsonText::parse("[1]").unwrap();
    sse.take_frame(&frame(None, None, None), Some(payload), &mut deliver);
    assert_eq!(sse.connection.last_sequence_num, 5);
    assert_eq!(deliver[0].as_text(), "[1]");
}

#[test]
fn message_lines_read_as_the_same_document() {
    let json = "{\"a\u{2028}\":\"\u{2029}x\\\\\u{2028}\"}";
    let line = message_line(json).unwrap();
    assert_eq!(line, "{\"a\\u2028\":\"\\u2029x\\\\\\u2028\"}");
    assert!(!line.contains('\n'));
    assert_eq!(
        JsonText::parse(&line).unwrap().as_text(),
        JsonText::parse(json).unwrap().as_text()
    );
    assert!(message_line("{\u{2028}}").is_err());
    assert!(message_line("\"\\\u{2028}\"").is_err());
}

#[test]
fn documents_are_one_line() {
    let doc = JsonText::parse("{\n \"k\u{2028}\" :\n [\"a\\nb\", \"\u{2029}\"]\n}\n").unwrap();
    let line = document_line(&doc);
    assert_eq!(line, "{\"k\\u2028\":[\"a\\nb\",\"\\u2029\"]}");
    assert_eq!(JsonText::parse(&line).unwrap().as_text(), doc.as_text());
    let member = JsonText::parse_member("{\"a\":\n{\"b\":\n1.5}}", "a").unwrap();
    assert_eq!(document_line(&member), "{\"b\":1.5}");
    assert!(JsonText::parse_member("[1]", "a").is_none());
    assert!(JsonText::parse_member("{", "a").is_none());
}

#[test]
fn posted_messages_carry_the_time() {
    let body = message_body("{\"text\":\"a\u{2028}b\"}").unwrap();
    let doc = JsonText::parse(&body).unwrap();
    assert_eq!(doc.get("event").unwrap().get("text").unwrap().as_str().unwrap(), "a\u{2028}b");
    let ts: i64 = doc.get("ts").unwrap().as_text().parse().unwrap();
    assert!(ts > 1_600_000_000_000);
    assert!(message_body("{").is_err());
}
