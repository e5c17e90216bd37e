use lobby_lib::net::connection::{ConnState, IncomingMessage, OutgoingMessage};
use lobby_lib::net::connection_manager::{ConnectionManager, IoErrorKind, ReadEnd};
use lobby_lib::net::packet::Packet;
use lobby_lib::net::packets::{self, PacketType};
use lobby_lib::utils::timers::{TimerManager, TimerResult};
use lobby_lib::{ErrorCode, LobbyClientBuilder, LobbyEvent};

#[test]
fn token_reuse_after_free() {
    let mut manager = ConnectionManager::new(vec![1, 1]);
    let first = manager.connect(String::from("10.0.0.1:4000"));
    assert_eq!(first, 0);
    let second = manager.connect(String::from("10.0.0.2:4000"));
    assert_eq!(second, 1);

    // Free the first slot entirely, then connect a different peer: the
    // freed token is reused rather than a new one allocated.
    manager.disconnect(String::from("10.0.0.1:4000"), true, 100);
    let third = manager.connect(String::from("10.0.0.3:4000"));
    assert_eq!(third, 0);
}

#[test]
fn disconnect_without_free_keeps_mapping() {
    let mut manager = ConnectionManager::new(vec![1, 1]);
    let token = manager.connect(String::from("10.0.0.1:4000"));
    manager.disconnect(String::from("10.0.0.1:4000"), false, 42);
    let state = manager.peer_state(&String::from("10.0.0.1:4000"));
    match state {
        Some((st, closed_at)) => {
            assert!(matches!(st, ConnState::Closed));
            assert_eq!(closed_at, Some(42));
        }
        None => panic!("mapping must persist without free"),
    }
    // Reconnecting in place reuses the same slot.
    let again = manager.connect(String::from("10.0.0.1:4000"));
    assert_eq!(again, token);
}

#[test]
fn lazy_connect_on_send() {
    let mut manager = ConnectionManager::new(vec![1, 1]);
    let reg = packets::init();
    let packet = Packet::new(&reg, PacketType::FetchFriendList, vec![]);
    let (token, created) = manager.send(String::from("10.0.0.9:4000"), packet);
    assert!(created);
    assert_eq!(token, 0);
    // The flush set now owes that token exactly one entry.
    let flushables = manager.take_flushables();
    assert_eq!(flushables, vec![0]);
    let flushables = manager.take_flushables();
    assert!(flushables.is_empty());
}

#[test]
fn fatal_read_error_closes_connection() {
    let mut manager = ConnectionManager::new(vec![1, 1]);
    let token = manager.connect(String::from("10.0.0.1:4000"));
    let closed = manager.readable(
        token,
        vec![],
        ReadEnd::Error(IoErrorKind::ConnectionReset),
        7,
    );
    assert!(closed);
    let state = manager.peer_state(&String::from("10.0.0.1:4000"));
    assert!(matches!(state, Some((ConnState::Closed, Some(7)))));
}

#[test]
fn would_block_read_is_transient() {
    let mut manager = ConnectionManager::new(vec![1, 1]);
    let token = manager.connect(String::from("10.0.0.1:4000"));
    let closed = manager.readable(token, vec![], ReadEnd::WouldBlock, 7);
    assert!(!closed);
    let state = manager.peer_state(&String::from("10.0.0.1:4000"));
    assert!(matches!(state, Some((ConnState::Initializing, None))));
    assert_eq!(manager.take_flushables(), vec![token]);
}

#[test]
fn corrupt_stream_closes_with_event() {
    let mut manager = ConnectionManager::new(vec![1, 1]);
    let token = manager.connect(String::from("10.0.0.1:4000"));
    // Bytes without the fixed-header bit can never resync.
    let closed = manager.readable(token, vec![vec![0x00, 0x01]], ReadEnd::WouldBlock, 3);
    assert!(!closed);
    let (decoded, corrupt) = manager.flush_token(token, 9);
    assert!(decoded.is_empty());
    assert!(corrupt);
    let events = manager.drain_conn_events(token);
    match events.last() {
        Some(LobbyEvent::Disconnected { message }) => assert_eq!(message, "Invalid stream"),
        _ => panic!("expected a Disconnected event"),
    }
}

#[test]
fn ping_through_manager_echoes() {
    let mut manager = ConnectionManager::new(vec![1, 1]);
    let token = manager.connect(String::from("10.0.0.1:4000"));
    let reply = manager.incoming(
        token,
        IncomingMessage::Ping { id: String::from("x1"), peer_time: 5 },
        800,
    );
    match reply {
        Some(OutgoingMessage::Pong { id, peer_time }) => {
            assert_eq!(id, "x1");
            assert_eq!(peer_time, 800);
        }
        _ => panic!("expected a pong"),
    }
}

#[test]
fn builder_rejects_invalid_url() {
    let built = LobbyClientBuilder::new("no-port-here").build(vec![1, 1]);
    assert!(built.is_err());
    let built = LobbyClientBuilder::new("host:").build(vec![1, 1]);
    assert!(built.is_err());
    let built = LobbyClientBuilder::new(":123").build(vec![1, 1]);
    assert!(built.is_err());
    let built = LobbyClientBuilder::new("1.2.3.4:port").build(vec![1, 1]);
    assert!(built.is_err());
    let built = LobbyClientBuilder::new("1.2.3.4:9000").build(vec![1, 1]);
    assert!(built.is_ok());
}

#[test]
fn reconnect_waits_full_interval_after_close() {
    let mut client = LobbyClientBuilder::new("1.2.3.4:9000")
        .with_reconnect_interval(500)
        .build(vec![1, 1])
        .unwrap();
    client.connect();
    client.disconnect(false, 1000);

    // No attempt at or before closed_time + interval.
    assert!(client.tick(1000).is_none());
    assert!(client.tick(1400).is_none());
    assert!(client.tick(1500).is_none());
    // One attempt once the interval has passed.
    let attempt = client.tick(1501);
    assert!(attempt.is_some());
    // And no second attempt within the next interval.
    client.disconnect(false, 1502);
    assert!(client.tick(1600).is_none());
    assert!(client.tick(2001).is_none());
    assert!(client.tick(2002).is_some());
}

#[test]
fn no_reconnect_without_interval() {
    let mut client = LobbyClientBuilder::new("1.2.3.4:9000").build(vec![1, 1]).unwrap();
    client.connect();
    client.disconnect(false, 1000);
    assert!(client.tick(100_000).is_none());
}

#[test]
fn poll_events_drains_up_to_limit() {
    let mut client = LobbyClientBuilder::new("1.2.3.4:9000").build(vec![1, 1]).unwrap();
    let token = client.connect();
    // Produce two events on the connection, then move them to the client.
    let _ = client.connection_manager.incoming(
        token,
        IncomingMessage::Init { protocol_version: 1, app_version: 1 },
        0,
    );
    let _ = client.connection_manager.incoming(
        token,
        IncomingMessage::SystemNotification { content: String::from("hi") },
        0,
    );
    client.collect_events(token);

    let mut events = Vec::new();
    client.poll_events(&mut events, 1);
    assert_eq!(events.len(), 1);
    assert!(matches!(events[0], LobbyEvent::ConnectionEstablished));
    client.poll_events(&mut events, 10);
    assert_eq!(events.len(), 1);
    assert!(matches!(events[0], LobbyEvent::SystemNotification { .. }));
    client.poll_events(&mut events, 10);
    assert!(events.is_empty());
}

#[test]
fn authenticate_gated_on_handshake() {
    let mut client = LobbyClientBuilder::new("1.2.3.4:9000").build(vec![1, 1]).unwrap();
    // Before any connection: refused.
    assert!(client.authenticate(String::from("a@b"), String::from("pw")).is_none());
    let token = client.connect();
    // Connected but handshake not complete: refused.
    assert!(client.authenticate(String::from("a@b"), String::from("pw")).is_none());
    let _ = client.connection_manager.incoming(
        token,
        IncomingMessage::Init { protocol_version: 1, app_version: 1 },
        0,
    );
    // Handshake complete: the request is produced for sending.
    let request = client.authenticate(String::from("a@b"), String::from("pw"));
    match request {
        Some(message) => {
            assert_eq!(message.email, "a@b");
            assert_eq!(message.password, "pw");
        }
        None => panic!("expected the credentials to be accepted"),
    }
    // Closed: refused again.
    client.disconnect(false, 5);
    assert!(client.authenticate(String::from("a@b"), String::from("pw")).is_none());
}

#[test]
fn domain_sends_build_messages() {
    let mut client = LobbyClientBuilder::new("1.2.3.4:9000").build(vec![1, 1]).unwrap();
    assert_eq!(client.add_friend(String::from("bob#2")).user_tag, "bob#2");
    assert_eq!(client.remove_friend(String::from("bob#2")).user_tag, "bob#2");
    let action = client.friend_request_action(
        String::from("req-1"),
        lobby_lib::net::structs::FriendRequestActionChoice::Accept,
    );
    assert_eq!(action.request_id, "req-1");
    let _ = client.refresh_friend_requests();
    let _ = client.refresh_friend_list();

    // Sending a packet lazily creates the connection.
    let reg = packets::init();
    let packet = Packet::new(&reg, PacketType::AddFriendRequest, vec![4, 2]);
    let (token, created) = client.send_packet(packet);
    assert_eq!(token, 0);
    assert!(created);
}

#[test]
fn error_code_parsing() {
    assert!(matches!(
        ErrorCode::from_str("invalid_credentials"),
        Ok(ErrorCode::InvalidCredentials)
    ));
    assert!(ErrorCode::from_str("not_a_code").is_err());
}

#[test]
fn timer_lifecycle() {
    let mut timers = TimerManager::new();
    let once = timers.schedule_once(100);
    let repeating = timers.schedule(0, 50, 2);
    assert_eq!(once, 0);
    assert_eq!(repeating, 1);

    // Nothing is due yet.
    assert!(timers.tick(10).is_empty());
    // The repeating timer fires at 50.
    let fired = timers.tick(50);
    assert_eq!(fired, vec![repeating]);
    // Both fire at 100; the one-shot is exhausted by its firing.
    let fired = timers.tick(100);
    assert_eq!(fired.len(), 2);
    assert!(fired.contains(&once));
    assert!(fired.contains(&repeating));
    // The one-shot is gone; the repeating timer has one firing left.
    let fired = timers.tick(150);
    assert_eq!(fired, vec![repeating]);
    let fired = timers.tick(1000);
    assert!(fired.is_empty());
}

#[test]
fn timer_pause_and_resume() {
    let mut timers = TimerManager::new();
    let handle = timers.schedule(0, 10, 100);
    timers.pause(handle);
    assert!(timers.tick(1000).is_empty());
    timers.resume(handle);
    let fired = timers.tick(1000);
    assert_eq!(fired, vec![handle]);
    timers.remove(handle);
    assert!(timers.tick(5000).is_empty());
}

#[test]
fn timer_trigger_results() {
    let mut timer = lobby_lib::utils::timers::Timer {
        handle: 3,
        enabled: true,
        interval: 10,
        next_trigger: 20,
        repeat_count: 1,
    };
    assert!(timer.should_trigger(20));
    assert!(!timer.should_trigger(19));
    assert!(matches!(timer.trigger(), TimerResult::Continue));
    assert_eq!(timer.next_trigger, 30);
    assert!(matches!(timer.trigger(), TimerResult::Exhausted));
    assert!(!timer.enabled);
}
