use telemed_core::channel::{
    ConnectionStatus, QueuedMessage, ReconnectDecision, WebSocketClient,
};
use telemed_core::errors::ChannelError;
use telemed_core::fanout::EventFanout;
use telemed_core::models::MessageType;
use telemed_core::registry::{ConnectionStatusResponse, WebSocketManager};

fn message(id: &str, cid: &str, content: &str) -> QueuedMessage {
    QueuedMessage {
        id: id.to_string(),
        consultation_id: cid.to_string(),
        message_type: MessageType::Text,
        content: content.to_string(),
        file_path: None,
        retry_count: 0,
        created_at: 1_700_000_000_000,
    }
}

fn is_connected(s: &ConnectionStatus) -> bool {
    matches!(s, ConnectionStatus::Connected)
}

#[test]
fn channel_send_while_offline_queues_the_message() {
    let mut client = WebSocketClient::new("wss://example.org/rt".to_string());
    assert_eq!(client.get_queued_message_count(), 0);

    let r = client.send_message(message("m1", "c1", "hello"));
    assert!(matches!(r, Err(ChannelError::NotConnected)));
    assert_eq!(client.get_queued_message_count(), 1);

    let r = client.send_message(message("m2", "c1", "again"));
    assert!(matches!(r, Err(ChannelError::NotConnected)));
    assert_eq!(client.get_queued_message_count(), 2);
}

#[test]
fn channel_connect_url_appends_token() {
    let mut client = WebSocketClient::new("wss://example.org/rt".to_string());
    assert_eq!(client.connect_url(), "wss://example.org/rt");
    client.set_auth_token("abc123".to_string());
    assert_eq!(client.connect_url(), "wss://example.org/rt?token=abc123");

    let mut with_query = WebSocketClient::new("wss://example.org/rt?v=2".to_string());
    with_query.set_auth_token("abc123".to_string());
    assert_eq!(with_query.connect_url(), "wss://example.org/rt?v=2&token=abc123");
}

#[test]
fn channel_connect_is_idempotent_while_active() {
    let mut client = WebSocketClient::new("wss://example.org/rt".to_string());
    assert!(client.begin_connect());
    assert!(matches!(client.get_connection_status(), ConnectionStatus::Connecting));
    // a second connect while connecting is a no-op
    assert!(!client.begin_connect());
    client.on_connect_success();
    assert!(is_connected(&client.get_connection_status()));
    assert!(!client.begin_connect());
    assert!(is_connected(&client.get_connection_status()));
}

#[test]
fn channel_flush_after_reconnect_is_fifo_and_empties_the_queue() {
    let mut client = WebSocketClient::new("wss://example.org/rt".to_string());
    client.begin_connect();
    client.on_connect_success();

    // the session drops before anything is acknowledged
    client.disconnect();
    assert!(client.send_message(message("m1", "c1", "one")).is_err());
    assert!(client.send_message(message("m2", "c1", "two")).is_err());
    assert!(client.send_message(message("m3", "c1", "three")).is_err());
    assert_eq!(client.get_queued_message_count(), 3);

    // reconnect succeeds and the queue flushes in the original order
    client.begin_connect();
    client.on_connect_success();
    let frames = client.process_message_queue().unwrap();
    assert_eq!(frames.len(), 3);
    assert!(frames[0].contains("\"id\":\"m1\""));
    assert!(frames[1].contains("\"id\":\"m2\""));
    assert!(frames[2].contains("\"id\":\"m3\""));
    assert_eq!(client.get_queued_message_count(), 0);
}

#[test]
fn channel_flush_stops_at_a_failed_write() {
    let mut client = WebSocketClient::new("wss://example.org/rt".to_string());
    assert!(client.send_message(message("m1", "c1", "one")).is_err());
    assert!(client.send_message(message("m2", "c1", "two")).is_err());
    assert!(client.send_message(message("m3", "c1", "three")).is_err());
    client.begin_connect();
    client.on_connect_success();

    // the first frame goes out and is confirmed; the second write fails,
    // so the rest stay queued, in order
    let f1 = client.next_frame().unwrap();
    assert!(f1.contains("\"id\":\"m1\""));
    client.mark_head_delivered();
    let f2 = client.next_frame().unwrap();
    assert!(f2.contains("\"id\":\"m2\""));
    // the wire refused the write: nothing is confirmed
    assert_eq!(client.get_queued_message_count(), 2);
    let again = client.next_frame().unwrap();
    assert_eq!(f2, again);
}

#[test]
fn channel_subscribe_is_idempotent() {
    let mut client = WebSocketClient::new("wss://example.org/rt".to_string());
    assert!(client.subscribe_to_consultation("c1".to_string()).is_none());
    assert!(client.subscribe_to_consultation("c1".to_string()).is_none());
    assert!(client.subscribe_to_consultation("c2".to_string()).is_none());
    assert_eq!(client.subscription_count(), 2);

    client.begin_connect();
    client.on_connect_success();
    let frame = client.subscribe_to_consultation("c1".to_string());
    assert_eq!(
        frame.unwrap(),
        "{\"type\":\"subscribe\",\"consultation_id\":\"c1\"}"
    );
    assert_eq!(client.subscription_count(), 2);

    let gone = client.unsubscribe_from_consultation("c1".to_string());
    assert_eq!(
        gone.unwrap(),
        "{\"type\":\"unsubscribe\",\"consultation_id\":\"c1\"}"
    );
    assert_eq!(client.subscription_count(), 1);
}

#[test]
fn channel_best_effort_frames_only_while_connected() {
    let mut client = WebSocketClient::new("wss://example.org/rt".to_string());
    assert!(client.send_read_receipt("c1", "m1").is_none());
    assert!(client.send_typing_status("c1", true).is_none());
    client.begin_connect();
    client.on_connect_success();
    assert_eq!(
        client.send_read_receipt("c1", "m1").unwrap(),
        "{\"type\":\"read_receipt\",\"consultation_id\":\"c1\",\"message_id\":\"m1\",\"read_by\":\"doctor\"}"
    );
    assert_eq!(
        client.send_typing_status("c1", true).unwrap(),
        "{\"type\":\"typing\",\"consultation_id\":\"c1\",\"user_id\":\"doctor\",\"is_typing\":true}"
    );
    assert_eq!(client.get_queued_message_count(), 0);
}

#[test]
fn channel_reconnect_backs_off_then_gives_up() {
    let mut client = WebSocketClient::new("wss://example.org/rt".to_string());
    client.begin_connect();
    client.on_connect_success();
    client.disconnect();

    // five retries with linearly growing delays
    for attempt in 1..=5u64 {
        match client.plan_reconnect() {
            ReconnectDecision::RetryAfter(delay) => assert_eq!(delay, 2000 * attempt),
            ReconnectDecision::GiveUp => panic!("gave up too early"),
        }
        assert!(matches!(client.get_connection_status(), ConnectionStatus::Reconnecting));
    }
    // the sixth failure is terminal
    assert!(matches!(client.plan_reconnect(), ReconnectDecision::GiveUp));
    match client.get_connection_status() {
        ConnectionStatus::Error(m) => {
            assert_eq!(m, "Max reconnection attempts (5) exceeded");
        },
        other => panic!("expected a terminal error, got {:?}", other),
    }
    // and it stays terminal
    assert!(matches!(client.plan_reconnect(), ReconnectDecision::GiveUp));
}

#[test]
fn channel_successful_connect_resets_the_attempt_counter() {
    let mut client = WebSocketClient::new("wss://example.org/rt".to_string());
    client.begin_connect();
    client.on_connect_success();
    client.disconnect();
    assert!(matches!(client.plan_reconnect(), ReconnectDecision::RetryAfter(2000)));
    assert!(matches!(client.plan_reconnect(), ReconnectDecision::RetryAfter(4000)));
    client.begin_connect();
    client.on_connect_success();
    client.disconnect();
    // the counter starts over after the successful connect
    assert!(matches!(client.plan_reconnect(), ReconnectDecision::RetryAfter(2000)));
}

#[test]
fn registry_open_failed_connect_keeps_the_channel_resolvable() {
    let mut manager = WebSocketManager::new();
    let id = manager.create_connection("wss://unreachable.example".to_string(), None);
    let (started, dial) = manager.begin_connect(&id).unwrap();
    assert!(started);
    assert_eq!(dial, "wss://unreachable.example");

    // the handshake fails; the channel stays registered in its error state
    manager
        .on_connect_failure(&id, "connection refused".to_string())
        .unwrap();
    match manager.get_connection_status(&id).unwrap() {
        ConnectionStatus::Error(m) => {
            assert_eq!(m, "WebSocket connection failed: connection refused");
        },
        other => panic!("expected an error status, got {:?}", other),
    }
}

#[test]
fn registry_close_unknown_id_is_channel_not_found() {
    let mut manager = WebSocketManager::new();
    let r = manager.close_connection("no-such-channel");
    assert!(matches!(r, Err(ChannelError::ChannelNotFound { .. })));

    let id = manager.create_connection("wss://example.org/rt".to_string(), None);
    assert!(manager.close_connection(&id).is_ok());
    // a second close is again unknown
    assert!(matches!(
        manager.close_connection(&id),
        Err(ChannelError::ChannelNotFound { .. })
    ));
}

#[test]
fn registry_routes_operations_by_id() {
    let mut manager = WebSocketManager::new();
    let a = manager.create_connection("wss://example.org/a".to_string(), Some("tok".to_string()));
    let b = manager.create_connection("wss://example.org/b".to_string(), None);
    assert_ne!(a, b);
    // connection ids are hyphenated UUIDs
    assert_eq!(a.len(), 36);
    assert_eq!(b.len(), 36);
    assert_eq!(manager.connection_count(), 2);

    manager.begin_connect(&a).unwrap();
    manager.on_connect_success(&a).unwrap();

    // a send on the connected channel yields a frame; on the offline one
    // it queues
    assert!(manager.send_message(&a, message("m1", "c1", "hi")).is_ok());
    assert!(matches!(
        manager.send_message(&b, message("m2", "c1", "hi")),
        Err(ChannelError::NotConnected)
    ));
    assert_eq!(manager.get_queued_message_count(&a).unwrap(), 0);
    assert_eq!(manager.get_queued_message_count(&b).unwrap(), 1);
    assert!(matches!(
        manager.send_message("unknown", message("m3", "c1", "hi")),
        Err(ChannelError::ChannelNotFound { .. })
    ));

    let statuses = manager.get_all_connection_status();
    assert_eq!(statuses.len(), 2);
}

#[test]
fn registry_status_report_carries_the_error_text() {
    let ok = ConnectionStatusResponse::from_status(ConnectionStatus::Connected);
    assert_eq!(ok.status, "connected");
    assert!(ok.error_message.is_none());
    let bad = ConnectionStatusResponse::from_status(ConnectionStatus::Error(
        "boom".to_string(),
    ));
    assert_eq!(bad.status, "error");
    assert_eq!(bad.error_message.unwrap(), "boom");
}

#[test]
fn fanout_registers_and_removes_listeners_in_order() {
    let mut fanout = EventFanout::new();
    let a = fanout.add_event_handler();
    let b = fanout.add_event_handler();
    let c = fanout.add_event_handler();
    assert_eq!(fanout.recipients(), vec![a, b, c]);

    assert!(fanout.remove_listener(b));
    assert!(!fanout.remove_listener(b));
    assert_eq!(fanout.recipients(), vec![a, c]);
    assert_eq!(fanout.listener_count(), 2);

    let d = fanout.add_event_handler();
    assert_ne!(d, a);
    assert_ne!(d, b);
    assert_ne!(d, c);
    assert_eq!(fanout.recipients(), vec![a, c, d]);
}
