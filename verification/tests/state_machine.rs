use lobby_lib::net::connection::{ConnState, Connection, IncomingMessage, OutgoingMessage};
use lobby_lib::net::packet::Packet;
use lobby_lib::net::packets::{self, PacketType};
use lobby_lib::net::structs::UserProfile;
use lobby_lib::utils::buffer_processor::LogBufferProcessor;
use lobby_lib::LobbyEvent;

fn open_connected() -> Connection<LogBufferProcessor> {
    let reg = packets::init();
    let handshake = Packet::new(&reg, PacketType::PacketInit, vec![1, 1]);
    let mut conn: Connection<LogBufferProcessor> =
        Connection::open(String::from("127.0.0.1:9000"), 0, handshake);
    // The first writable moment marks the transport connected.
    let nodelay = conn.write();
    assert!(nodelay);
    conn
}

#[test]
fn handshake_match_establishes() {
    let mut conn = open_connected();
    let reply = conn.incoming_packet(
        IncomingMessage::Init { protocol_version: 1, app_version: 1 },
        50,
    );
    assert!(reply.is_none());
    assert!(matches!(conn.state, ConnState::Authenticating));
    assert_eq!(conn.events.len(), 1);
    assert!(matches!(conn.events[0], LobbyEvent::ConnectionEstablished));
}

#[test]
fn handshake_app_version_mismatch_closes() {
    let mut conn = open_connected();
    let reply = conn.incoming_packet(
        IncomingMessage::Init { protocol_version: 1, app_version: 2 },
        77,
    );
    // Never reaches Authenticating: straight to Closed with a farewell.
    assert!(matches!(conn.state, ConnState::Closed));
    assert_eq!(conn.closed_time, Some(77));
    match reply {
        Some(OutgoingMessage::Fatal { message }) => assert_eq!(message, "Invalid app version"),
        _ => panic!("expected a farewell"),
    }
    assert_eq!(conn.events.len(), 1);
    match &conn.events[0] {
        LobbyEvent::Disconnected { message } => assert_eq!(message, "Invalid app version"),
        _ => panic!("expected a Disconnected event"),
    }
}

#[test]
fn handshake_protocol_version_mismatch_closes() {
    let mut conn = open_connected();
    let reply = conn.incoming_packet(
        IncomingMessage::Init { protocol_version: 9, app_version: 1 },
        5,
    );
    assert!(matches!(conn.state, ConnState::Closed));
    match reply {
        Some(OutgoingMessage::Fatal { message }) => {
            assert_eq!(message, "Invalid protocol version")
        }
        _ => panic!("expected a farewell"),
    }
}

#[test]
fn ping_answered_with_pong_echoing_id() {
    let mut conn = open_connected();
    let reply = conn.incoming_packet(
        IncomingMessage::Ping { id: String::from("probe-7"), peer_time: 123 },
        456,
    );
    match reply {
        Some(OutgoingMessage::Pong { id, peer_time }) => {
            assert_eq!(id, "probe-7");
            assert_eq!(peer_time, 456);
        }
        _ => panic!("expected an immediate pong"),
    }
    // No state change, no event.
    assert!(matches!(conn.state, ConnState::Initializing));
    assert!(conn.events.is_empty());
}

#[test]
fn peer_fatal_closes_without_echo() {
    let mut conn = open_connected();
    let reply = conn.incoming_packet(
        IncomingMessage::Fatal { message: String::from("server going down") },
        9,
    );
    assert!(reply.is_none());
    assert!(matches!(conn.state, ConnState::Closed));
    match &conn.events[0] {
        LobbyEvent::Disconnected { message } => assert_eq!(message, "server going down"),
        _ => panic!("expected a Disconnected event"),
    }
}

fn profile() -> UserProfile {
    UserProfile {
        user_tag: String::from("ada#1"),
        display_name: String::from("Ada"),
        avatar_url: None,
    }
}

#[test]
fn auth_success_event() {
    let mut conn = open_connected();
    let reply = conn.incoming_packet(
        IncomingMessage::AuthResponse {
            error_code: None,
            session_token: Some(String::from("tok")),
            user_profile: Some(profile()),
        },
        0,
    );
    assert!(reply.is_none());
    match &conn.events[0] {
        LobbyEvent::AuthSuccess { session_token, user_profile } => {
            assert_eq!(session_token, "tok");
            assert_eq!(user_profile.user_tag, "ada#1");
        }
        _ => panic!("expected an auth success"),
    }
}

#[test]
fn auth_failure_known_code() {
    let mut conn = open_connected();
    let reply = conn.incoming_packet(
        IncomingMessage::AuthResponse {
            error_code: Some(String::from("invalid_credentials")),
            session_token: None,
            user_profile: None,
        },
        0,
    );
    assert!(reply.is_none());
    match &conn.events[0] {
        LobbyEvent::AuthFailure { error_code } => {
            assert!(matches!(error_code, lobby_lib::ErrorCode::InvalidCredentials))
        }
        _ => panic!("expected an auth failure"),
    }
}

#[test]
fn auth_failure_unknown_code_is_protocol_fatal() {
    let mut conn = open_connected();
    let reply = conn.incoming_packet(
        IncomingMessage::AuthResponse {
            error_code: Some(String::from("mystery")),
            session_token: None,
            user_profile: None,
        },
        3,
    );
    assert!(matches!(conn.state, ConnState::Closed));
    match reply {
        Some(OutgoingMessage::Fatal { message }) => assert_eq!(message, "Protocol error"),
        _ => panic!("expected a farewell"),
    }
}

#[test]
fn auth_malformed_shape_is_protocol_fatal() {
    let mut conn = open_connected();
    // Both failure and success parts present at once.
    let reply = conn.incoming_packet(
        IncomingMessage::AuthResponse {
            error_code: Some(String::from("invalid_credentials")),
            session_token: Some(String::from("tok")),
            user_profile: Some(profile()),
        },
        3,
    );
    assert!(matches!(conn.state, ConnState::Closed));
    match reply {
        Some(OutgoingMessage::Fatal { message }) => assert_eq!(message, "Protocol error"),
        _ => panic!("expected a farewell"),
    }
}

#[test]
fn unhandled_type_ignored() {
    let mut conn = open_connected();
    let reply = conn.incoming_packet(
        IncomingMessage::Other { packet_type: PacketType::SendLobbyMessage },
        0,
    );
    assert!(reply.is_none());
    assert!(matches!(conn.state, ConnState::Initializing));
    assert!(conn.events.is_empty());
}

#[test]
fn flush_encodes_handshake_and_decodes_input() {
    let reg = packets::init();
    let handshake = Packet::new(&reg, PacketType::PacketInit, vec![1, 1]);
    let mut conn: Connection<LogBufferProcessor> =
        Connection::open(String::from("127.0.0.1:9000"), 0, handshake);
    // Simulate the peer's handshake arriving as raw bytes.
    let mut peer_encoder = lobby_lib::net::packet_encoder::PacketEncoder::new(8192);
    peer_encoder.add_packet(Packet::new(&reg, PacketType::PacketInit, vec![1, 1]));
    let wire = peer_encoder.next_buffer(&reg).unwrap();
    conn.read(wire.to_vec());

    let (decoded, corrupt) = conn.flush(&reg);
    assert!(!corrupt);
    assert_eq!(decoded.len(), 1);
    assert!(matches!(decoded[0].packet_type, PacketType::PacketInit));
    assert_eq!(decoded[0].data.to_vec(), vec![1, 1]);

    // The outbound side now carries our own framed handshake.
    let front = conn.socket.front_out().expect("handshake framed for writing");
    assert_eq!(front, vec![0xE0, 1, 2, 1, 1]);
}

#[test]
fn short_write_advances_without_reissue() {
    let reg = packets::init();
    let handshake = Packet::new(&reg, PacketType::PacketInit, vec![1, 1]);
    let mut conn: Connection<LogBufferProcessor> =
        Connection::open(String::from("127.0.0.1:9000"), 0, handshake);
    let _ = conn.flush(&reg);
    let front = conn.socket.front_out().unwrap();
    assert_eq!(front, vec![0xE0, 1, 2, 1, 1]);
    // The OS accepted only two bytes: the rest stays, unrepeated.
    conn.socket.mark_written(2);
    let rest = conn.socket.front_out().unwrap();
    assert_eq!(rest, vec![2, 1, 1]);
    conn.socket.mark_written(3);
    assert!(conn.socket.front_out().is_none());
}
