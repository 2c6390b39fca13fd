use telemed_core::channel::{encode_message, QueuedMessage};
use telemed_core::codec::{
    decode_event, encode_read_receipt, encode_subscribe, encode_typing, encode_unsubscribe,
    WebSocketEvent,
};
use telemed_core::models::MessageType;

#[test]
fn codec_control_frames_are_exact() {
    assert_eq!(
        encode_subscribe("c-9"),
        "{\"type\":\"subscribe\",\"consultation_id\":\"c-9\"}"
    );
    assert_eq!(
        encode_unsubscribe("c-9"),
        "{\"type\":\"unsubscribe\",\"consultation_id\":\"c-9\"}"
    );
    assert_eq!(
        encode_read_receipt("c-9", "m-1"),
        "{\"type\":\"read_receipt\",\"consultation_id\":\"c-9\",\"message_id\":\"m-1\",\"read_by\":\"doctor\"}"
    );
    assert_eq!(
        encode_typing("c-9", false),
        "{\"type\":\"typing\",\"consultation_id\":\"c-9\",\"user_id\":\"doctor\",\"is_typing\":false}"
    );
}

#[test]
fn codec_message_frame_is_exact() {
    let m = QueuedMessage {
        id: "m-1".to_string(),
        consultation_id: "c-9".to_string(),
        message_type: MessageType::Text,
        content: "hi \"there\"\n".to_string(),
        file_path: None,
        retry_count: 0,
        created_at: 1700000000123,
    };
    let frame = encode_message(&m);
    assert_eq!(
        frame,
        "{\"type\":\"message\",\"consultation_id\":\"c-9\",\"message\":{\"id\":\"m-1\",\"consultationId\":\"c-9\",\"senderType\":\"doctor\",\"messageType\":\"text\",\"content\":\"hi \\\"there\\\"\\n\",\"filePath\":null,\"timestamp\":1700000000123,\"syncStatus\":\"pending\",\"readStatus\":\"unread\"}}"
    );
}

#[test]
fn codec_frames_are_valid_json() {
    let m = QueuedMessage {
        id: "m-1".to_string(),
        consultation_id: "c-9".to_string(),
        message_type: MessageType::Image,
        content: "控制字符\u{1}与反斜杠\\".to_string(),
        file_path: Some("/tmp/a.png".to_string()),
        retry_count: 2,
        created_at: -1,
    };
    let frame = encode_message(&m);
    let parsed: serde_json::Value = serde_json::from_str(&frame).unwrap();
    assert_eq!(parsed["type"], "message");
    assert_eq!(parsed["message"]["content"], "控制字符\u{1}与反斜杠\\");
    assert_eq!(parsed["message"]["filePath"], "/tmp/a.png");
    assert_eq!(parsed["message"]["timestamp"], -1);

    let sub = encode_subscribe("会诊\"1\"");
    let parsed: serde_json::Value = serde_json::from_str(&sub).unwrap();
    assert_eq!(parsed["consultation_id"], "会诊\"1\"");
}

#[test]
fn codec_decodes_every_event_kind() {
    match decode_event("{\"type\":\"message\",\"consultation_id\":\"c1\",\"message\":\"hello\"}") {
        Some(WebSocketEvent::Message { consultation_id, message }) => {
            assert_eq!(consultation_id, "c1");
            assert_eq!(message, "hello");
        },
        other => panic!("unexpected decode: {:?}", other),
    }
    match decode_event(
        " { \"type\" : \"consultation_update\" , \"consultation_id\" : \"c1\" , \"status\" : \"closed\" } ",
    ) {
        Some(WebSocketEvent::ConsultationUpdate { consultation_id, status }) => {
            assert_eq!(consultation_id, "c1");
            assert_eq!(status, "closed");
        },
        other => panic!("unexpected decode: {:?}", other),
    }
    match decode_event(
        "{\"type\":\"typing\",\"consultation_id\":\"c1\",\"user_id\":\"u7\",\"is_typing\":true}",
    ) {
        Some(WebSocketEvent::Typing { consultation_id, user_id, is_typing }) => {
            assert_eq!(consultation_id, "c1");
            assert_eq!(user_id, "u7");
            assert!(is_typing);
        },
        other => panic!("unexpected decode: {:?}", other),
    }
    match decode_event(
        "{\"type\":\"read_receipt\",\"consultation_id\":\"c1\",\"message_id\":\"m1\",\"read_by\":\"patient\"}",
    ) {
        Some(WebSocketEvent::ReadReceipt { consultation_id, message_id, read_by }) => {
            assert_eq!(consultation_id, "c1");
            assert_eq!(message_id, "m1");
            assert_eq!(read_by, "patient");
        },
        other => panic!("unexpected decode: {:?}", other),
    }
    match decode_event("{\"type\":\"connection_ack\",\"user_id\":\"u7\",\"session_id\":\"s3\"}") {
        Some(WebSocketEvent::ConnectionAck { user_id, session_id }) => {
            assert_eq!(user_id, "u7");
            assert_eq!(session_id, "s3");
        },
        other => panic!("unexpected decode: {:?}", other),
    }
    match decode_event("{\"type\":\"error\",\"code\":\"E42\",\"message\":\"bad\"}") {
        Some(WebSocketEvent::Error { code, message }) => {
            assert_eq!(code, "E42");
            assert_eq!(message, "bad");
        },
        other => panic!("unexpected decode: {:?}", other),
    }
}

#[test]
fn codec_decodes_escapes() {
    match decode_event(
        "{\"type\":\"error\",\"code\":\"\\u0041\\n\",\"message\":\"q\\\"\\\\t\\/\"}",
    ) {
        Some(WebSocketEvent::Error { code, message }) => {
            assert_eq!(code, "A\n");
            assert_eq!(message, "q\"\\t/");
        },
        other => panic!("unexpected decode: {:?}", other),
    }
}

#[test]
fn codec_discards_malformed_frames() {
    // not an object at all
    assert!(decode_event("hello").is_none());
    // unterminated object
    assert!(decode_event("{\"type\":\"error\",\"code\":\"x\"").is_none());
    // unknown type tag
    assert!(decode_event("{\"type\":\"mystery\",\"code\":\"x\",\"message\":\"y\"}").is_none());
    // missing required field
    assert!(decode_event("{\"type\":\"error\",\"code\":\"x\"}").is_none());
    // wrong field shape: a boolean where text is required
    assert!(decode_event("{\"type\":\"error\",\"code\":true,\"message\":\"y\"}").is_none());
    // trailing garbage after the object
    assert!(decode_event("{\"type\":\"error\",\"code\":\"x\",\"message\":\"y\"} tail").is_none());
    // a lone surrogate escape
    assert!(decode_event("{\"type\":\"error\",\"code\":\"\\ud800\",\"message\":\"y\"}").is_none());
    // raw control character inside a string
    assert!(decode_event("{\"type\":\"error\",\"code\":\"a\u{1}b\",\"message\":\"y\"}").is_none());
}

#[test]
fn codec_round_trips_control_frames() {
    // the encoder's output is within the decoder's grammar
    let sub = encode_subscribe("c-1");
    // a subscribe frame is an outbound control frame, not an event, so
    // the decoder reports no event for it
    assert!(decode_event(&sub).is_none());

    let typing = encode_typing("c-1", true);
    match decode_event(&typing) {
        Some(WebSocketEvent::Typing { consultation_id, user_id, is_typing }) => {
            assert_eq!(consultation_id, "c-1");
            assert_eq!(user_id, "doctor");
            assert!(is_typing);
        },
        other => panic!("unexpected decode: {:?}", other),
    }

    let receipt = encode_read_receipt("c-1", "m-2");
    match decode_event(&receipt) {
        Some(WebSocketEvent::ReadReceipt { consultation_id, message_id, read_by }) => {
            assert_eq!(consultation_id, "c-1");
            assert_eq!(message_id, "m-2");
            assert_eq!(read_by, "doctor");
        },
        other => panic!("unexpected decode: {:?}", other),
    }
}
