use vstd::prelude::*;

use crate::net::packet::Packet;
use crate::net::packet_decoder::{spec_drain, PacketDecoder};
use crate::net::packet_encoder::{greedy_count, lemma_greedy_bounds, spec_encode_all, spec_pack_all, PacketEncoder};
use crate::net::packets::{PacketRegistry, PacketType};
use crate::net::structs::{Friend, FriendRequest, LobbyMember, UserProfile};
use crate::net::transport::tcp_socket::{pipeline_in, pipeline_out, TcpSocket};
use crate::utils::buffer_processor::BufferProcessor;
use crate::utils::byte_buffer::{buffer_views, concat_views, lemma_concat_views_snoc, ByteBuffer};
use crate::{spec_error_code, ErrorCode, LobbyEvent, APP_VERSION, PROTOCOL_VERSION};

verus! {

/// Lifecycle of one connection; the order is total and terminal in
/// `Closed`.
#[derive(Debug, Copy, Clone, PartialEq, Eq, Structural)]
pub enum ConnState {
    Initializing,
    Authenticating,
    Running,
    Closed,
}

impl ConnState {
    /// Whether the handshake has completed: every state from
    /// `Authenticating` onward.
    pub open spec fn spec_at_least_authenticating(self) -> bool {
        self != ConnState::Initializing
    }

    /// Whether the handshake has completed: every state from
    /// `Authenticating` onward.
    pub fn at_least_authenticating(self) -> (r: bool)
        ensures
            r == self.spec_at_least_authenticating(),
    {
        match self {
            ConnState::Initializing => false,
            _ => true,
        }
    }
}

/// The peer a connection talks to, by printable socket address.
#[derive(Debug, Clone)]
pub struct PeerInfo {
    pub addr: String,
}

impl PeerInfo {
    /// Wrap a peer address.
    pub fn new(addr: String) -> (r: PeerInfo)
        ensures
            r.addr == addr,
    {
        PeerInfo { addr }
    }
}

/// A decoded domain message handed to the state machine. The caller turns
/// a packet's payload bytes into one of these through the payload codec.
pub enum IncomingMessage {
    /// The peer's handshake, carrying its protocol and application
    /// revisions.
    Init { protocol_version: u16, app_version: u16 },
    /// The peer declares the connection dead for the given reason.
    Fatal { message: String },
    /// Latency probe to answer immediately.
    Ping { id: String, peer_time: u64 },
    /// Authentication outcome; exactly one of failure and success parts
    /// must be present.
    AuthResponse {
        error_code: Option<String>,
        session_token: Option<String>,
        user_profile: Option<UserProfile>,
    },
    /// Pending friend requests, both directions.
    FriendRequests { as_inviter: Vec<FriendRequest>, as_invitee: Vec<FriendRequest> },
    /// The full friend list.
    FriendList { friend_list: Vec<Friend> },
    /// A private chat message.
    PrivateMessage { profile: UserProfile, content: String, is_self: bool },
    /// A server-wide notification.
    SystemNotification { content: String },
    /// An invitation into a lobby.
    LobbyInvite { id: String, inviter: UserProfile },
    /// The local user joined a lobby.
    LobbyJoined { lobby_id: String },
    /// The local user left a lobby.
    LobbyLeft { lobby_id: String },
    /// A lobby's member list changed.
    LobbyMemberUpdate { lobby_id: String, members: Vec<LobbyMember> },
    /// A chat message within a lobby.
    LobbyMessage { lobby_id: String, profile: Option<UserProfile>, content: String },
    /// Syntactically valid but unhandled: logged and ignored.
    Other { packet_type: PacketType },
}

/// A message the state machine wants sent to the peer at once, bypassing
/// normal batched-flush timing. The caller serializes it and pushes the
/// framed packet out immediately.
pub enum OutgoingMessage {
    /// Echo of a ping, carrying the probe's id and the local time.
    Pong { id: String, peer_time: u64 },
    /// Farewell naming the reason the connection is being closed.
    Fatal { message: String },
}

/// The disconnect reason a message forces, if it is protocol-fatal: a
/// handshake naming foreign revisions, or an authentication response
/// whose shape or error code is invalid.
pub open spec fn spec_fatal_reason(msg: IncomingMessage) -> Option<Seq<char>> {
    match msg {
        IncomingMessage::Init { protocol_version, app_version } => if app_version != APP_VERSION {
            Some("Invalid app version"@)
        } else if protocol_version != PROTOCOL_VERSION {
            Some("Invalid protocol version"@)
        } else {
            None
        },
        IncomingMessage::AuthResponse { error_code, session_token, user_profile } => match (
            error_code,
            session_token,
            user_profile,
        ) {
            (Some(err), None, None) => if spec_error_code(err@) is Some {
                None
            } else {
                Some("Protocol error"@)
            },
            (None, Some(tok), Some(profile)) => None,
            _ => Some("Protocol error"@),
        },
        _ => None,
    }
}

/// The event a non-fatal message surfaces to the application, if any.
pub open spec fn spec_event_of(msg: IncomingMessage) -> Option<LobbyEvent> {
    match msg {
        IncomingMessage::Init { protocol_version, app_version } => if protocol_version
            == PROTOCOL_VERSION && app_version == APP_VERSION {
            Some(LobbyEvent::ConnectionEstablished)
        } else {
            None
        },
        IncomingMessage::AuthResponse { error_code, session_token, user_profile } => match (
            error_code,
            session_token,
            user_profile,
        ) {
            (Some(err), None, None) => match spec_error_code(err@) {
                Some(code) => Some(LobbyEvent::AuthFailure { error_code: code }),
                None => None,
            },
            (None, Some(tok), Some(profile)) => Some(
                LobbyEvent::AuthSuccess { session_token: tok, user_profile: profile },
            ),
            _ => None,
        },
        IncomingMessage::FriendRequests { as_inviter, as_invitee } => Some(
            LobbyEvent::FriendRequestsUpdated { as_invitee, as_inviter },
        ),
        IncomingMessage::FriendList { friend_list } => Some(
            LobbyEvent::FriendListUpdated { friend_list },
        ),
        IncomingMessage::PrivateMessage { profile, content, is_self } => Some(
            LobbyEvent::NewPrivateMessage { profile, content, is_self },
        ),
        IncomingMessage::SystemNotification { content } => Some(
            LobbyEvent::SystemNotification { content },
        ),
        IncomingMessage::LobbyInvite { id, inviter } => Some(
            LobbyEvent::LobbyInvite { id, inviter },
        ),
        IncomingMessage::LobbyJoined { lobby_id } => Some(LobbyEvent::LobbyJoined { lobby_id }),
        IncomingMessage::LobbyLeft { lobby_id } => Some(LobbyEvent::LobbyLeft { lobby_id }),
        IncomingMessage::LobbyMemberUpdate { lobby_id, members } => Some(
            LobbyEvent::LobbyMemberUpdate { lobby_id, members },
        ),
        IncomingMessage::LobbyMessage { lobby_id, profile, content } => Some(
            LobbyEvent::NewLobbyMessage { lobby_id, profile, content },
        ),
        _ => None,
    }
}

/// Everything `incoming_packet` guarantees about the step from the old
/// connection to the new one, the reply, and the clock reading it was
/// given.
pub open spec fn spec_incoming_post<P: BufferProcessor>(
    a: Connection<P>,
    b: Connection<P>,
    msg: IncomingMessage,
    now_millis: u64,
    reply: Option<OutgoingMessage>,
) -> bool {
    let fatal = spec_fatal_reason(msg);
    let quiet = (msg matches IncomingMessage::Fatal { message });
    if fatal is Some {
        if a.socket.connected {
            &&& b.state == ConnState::Closed
            &&& b.closed_time == Some(now_millis)
            &&& !b.socket.connected
            &&& b.events@ == a.events@.push(
                LobbyEvent::Disconnected { message: b.spec_last_message() },
            )
            &&& b.spec_last_message()@ == fatal->Some_0
            &&& reply matches Some(OutgoingMessage::Fatal { message }) && message@
                == fatal->Some_0
        } else {
            &&& b.state == a.state
            &&& b.closed_time == a.closed_time
            &&& b.socket.connected == a.socket.connected
            &&& b.events@ == a.events@
            &&& reply is None
        }
    } else if quiet {
        let message = msg->Fatal_message;
        if a.socket.connected {
            &&& b.state == ConnState::Closed
            &&& b.closed_time == Some(now_millis)
            &&& !b.socket.connected
            &&& b.events@ == a.events@.push(LobbyEvent::Disconnected { message })
            &&& reply is None
        } else {
            &&& b.state == a.state
            &&& b.closed_time == a.closed_time
            &&& b.socket.connected == a.socket.connected
            &&& b.events@ == a.events@
            &&& reply is None
        }
    } else {
        &&& b.closed_time == a.closed_time
        &&& b.socket.connected == a.socket.connected
        &&& b.state == (if msg matches IncomingMessage::Init { .. } {
            ConnState::Authenticating
        } else {
            a.state
        })
        &&& b.events@ == (match spec_event_of(msg) {
            Some(e) => a.events@.push(e),
            None => a.events@,
        })
        &&& (msg matches IncomingMessage::Ping { id, peer_time } ==> reply matches Some(
            OutgoingMessage::Pong { id: pong_id, peer_time: pong_time },
        ) && pong_id == id && pong_time == now_millis)
        &&& (!(msg matches IncomingMessage::Ping { .. }) ==> reply is None)
    }
}

/// Everything a flush guarantees about the queues: the encoder drained
/// into pipeline-processed outbound buffers, everything read drained
/// through the pipeline into the decoder, and the decoded packets with
/// the corruption verdict.
pub open spec fn spec_flush_data<P: BufferProcessor>(
    a: Connection<P>,
    b: Connection<P>,
    reg: PacketRegistry,
    pkts: Seq<Packet>,
    corrupt: bool,
) -> bool {
    let outgoing = buffer_views(a.socket.unprocessed_out@) + buffer_views(
        a.tcp_encoder.buffers@,
    ) + spec_pack_all(reg, a.tcp_encoder.packets@, a.tcp_encoder.target_size as nat);
    let arrived = a.tcp_decoder@ + concat_views(
        buffer_views(a.socket.processed_in@) + a.socket.unprocessed_in@.map_values(
            |buf: ByteBuffer| pipeline_in(a.socket.buffer_processors@, buf@),
        ),
    );
    let dr = spec_drain(reg, arrived);
    &&& b.token == a.token
    &&& b.peer_info == a.peer_info
    &&& b.socket.buffer_processors@ == a.socket.buffer_processors@
    &&& b.tcp_encoder.packets@.len() == 0
    &&& b.tcp_encoder.buffers@.len() == 0
    &&& b.tcp_encoder.target_size == a.tcp_encoder.target_size
    &&& b.socket.unprocessed_out@.len() == 0
    &&& b.socket.processed_out@.len() == a.socket.processed_out@.len() + outgoing.len()
    &&& (forall|i: int|
        0 <= i < a.socket.processed_out@.len() ==> b.socket.processed_out@[i]
            == a.socket.processed_out@[i])
    &&& (forall|i: int|
        0 <= i < outgoing.len() ==> (#[trigger] b.socket.processed_out@[a.socket.processed_out@.len()
            + i])@ == pipeline_out(a.socket.buffer_processors@, outgoing[i]))
    &&& b.socket.unprocessed_in@.len() == 0
    &&& b.socket.processed_in@.len() == 0
    &&& pkts.len() == dr.0.len()
    &&& (forall|i: int|
        0 <= i < pkts.len() ==> {
            let image = dr.0[i];
            &&& (#[trigger] pkts[i]).flags == image.flags
            &&& pkts[i].packet_type == image.packet_type
            &&& pkts[i].data@ == image.data
            &&& pkts[i].wf(reg)
        })
    &&& corrupt == dr.2
    &&& b.tcp_decoder@ == dr.1
}

/// State machine law: a handshake naming a foreign application revision
/// drives a connected peer straight to `Closed`, with a `Disconnected`
/// event and a farewell for the peer; `Authenticating` is never reached.
pub proof fn lemma_handshake_mismatch<P: BufferProcessor>(
    a: Connection<P>,
    b: Connection<P>,
    protocol_version: u16,
    app_version: u16,
    now_millis: u64,
    reply: Option<OutgoingMessage>,
)
    requires
        a.socket.connected,
        app_version != APP_VERSION,
        spec_incoming_post(
            a,
            b,
            IncomingMessage::Init { protocol_version, app_version },
            now_millis,
            reply,
        ),
    ensures
        b.state == ConnState::Closed,
        b.state != ConnState::Authenticating,
        b.events@.len() == a.events@.len() + 1,
        b.events@.last() is Disconnected,
        reply matches Some(OutgoingMessage::Fatal { message }) && message@
            == "Invalid app version"@,
{
}

/// Ping/pong law: a ping is answered at once by a pong echoing the same
/// correlation id, stamped with the local clock, with no state change
/// and no event.
pub proof fn lemma_ping_pong<P: BufferProcessor>(
    a: Connection<P>,
    b: Connection<P>,
    id: String,
    peer_time: u64,
    now_millis: u64,
    reply: Option<OutgoingMessage>,
)
    requires
        spec_incoming_post(a, b, IncomingMessage::Ping { id, peer_time }, now_millis, reply),
    ensures
        reply matches Some(OutgoingMessage::Pong { id: pong_id, peer_time: pong_at }) && pong_id
            == id && pong_at == now_millis,
        b.state == a.state,
        b.events@ == a.events@,
{
}

/// Per-peer state machine: owns one transport, one encoder, one decoder,
/// and the events produced for the application.
pub struct Connection<P: BufferProcessor> {
    pub token: usize,
    pub peer_info: PeerInfo,
    pub state: ConnState,
    pub closed_time: Option<u64>,
    pub socket: TcpSocket<P>,
    pub tcp_encoder: PacketEncoder,
    pub tcp_decoder: PacketDecoder,
    pub events: Vec<LobbyEvent>,
}

/// The parts of a connection that message handling never touches: its
/// identity, its queues and its pipeline.
pub open spec fn plumbing_unchanged<P: BufferProcessor>(
    a: Connection<P>,
    b: Connection<P>,
) -> bool {
    &&& b.token == a.token
    &&& b.peer_info == a.peer_info
    &&& b.tcp_encoder.target_size == a.tcp_encoder.target_size
    &&& b.tcp_encoder.packets@ == a.tcp_encoder.packets@
    &&& b.tcp_encoder.buffers@ == a.tcp_encoder.buffers@
    &&& b.tcp_decoder@ == a.tcp_decoder@
    &&& b.socket.buffer_processors@ == a.socket.buffer_processors@
    &&& b.socket.unprocessed_in@ == a.socket.unprocessed_in@
    &&& b.socket.unprocessed_out@ == a.socket.unprocessed_out@
    &&& b.socket.processed_in@ == a.socket.processed_in@
    &&& b.socket.processed_out@ == a.socket.processed_out@
}

impl<P: BufferProcessor> Connection<P> {
    /// Every packet queued in the encoder is fit for the wire.
    pub open spec fn inv(&self, reg: PacketRegistry) -> bool {
        self.tcp_encoder.queue_wf(reg)
    }

    /// Create the connection state for a freshly initiated stream, with
    /// the handshake packet already queued as the first outbound packet.
    /// The caller opens the OS stream itself.
    pub fn open(addr: String, token: usize, handshake: Packet) -> (r: Connection<P>)
        ensures
            r.token == token,
            r.peer_info.addr == addr,
            r.state == ConnState::Initializing,
            r.closed_time is None,
            !r.socket.connected,
            r.socket.buffer_processors@.len() == 0,
            r.socket.unprocessed_in@.len() == 0,
            r.socket.unprocessed_out@.len() == 0,
            r.socket.processed_in@.len() == 0,
            r.socket.processed_out@.len() == 0,
            r.tcp_encoder.packets@ == seq![handshake],
            r.tcp_encoder.buffers@.len() == 0,
            r.tcp_encoder.target_size == 8192,
            r.tcp_decoder@ == Seq::<u8>::empty(),
            r.events@.len() == 0,
    {
        let mut tcp_encoder = PacketEncoder::new(8192);
        tcp_encoder.add_packet(handshake);
        Connection {
            token,
            peer_info: PeerInfo::new(addr),
            state: ConnState::Initializing,
            closed_time: None,
            socket: TcpSocket::new(),
            tcp_encoder,
            tcp_decoder: PacketDecoder::new(),
            events: Vec::new(),
        }
    }

    /// Register a transform stage on the transport. Stages run in added
    /// order outbound and in reverse order inbound, so a pipeline built
    /// as compression then encryption compresses-then-encrypts on send
    /// and decrypts-then-decompresses on receive.
    pub fn add_buffer_processor(&mut self, buffer_processor: P)
        ensures
            final(self).socket.buffer_processors@ == old(self).socket.buffer_processors@.push(
                buffer_processor,
            ),
            final(self).socket.connected == old(self).socket.connected,
            final(self).socket.unprocessed_in@ == old(self).socket.unprocessed_in@,
            final(self).socket.unprocessed_out@ == old(self).socket.unprocessed_out@,
            final(self).socket.processed_in@ == old(self).socket.processed_in@,
            final(self).socket.processed_out@ == old(self).socket.processed_out@,
            final(self).token == old(self).token,
            final(self).peer_info == old(self).peer_info,
            final(self).state == old(self).state,
            final(self).closed_time == old(self).closed_time,
            final(self).tcp_encoder == old(self).tcp_encoder,
            final(self).tcp_decoder@ == old(self).tcp_decoder@,
            final(self).events@ == old(self).events@,
    {
        self.socket.add_buffer_processor(buffer_processor);
    }

    /// Queue a packet for the next flush.
    pub fn send(&mut self, packet: Packet)
        ensures
            final(self).tcp_encoder.packets@ == old(self).tcp_encoder.packets@.push(packet),
            final(self).tcp_encoder.buffers@ == old(self).tcp_encoder.buffers@,
            final(self).tcp_encoder.target_size == old(self).tcp_encoder.target_size,
            final(self).token == old(self).token,
            final(self).peer_info == old(self).peer_info,
            final(self).state == old(self).state,
            final(self).closed_time == old(self).closed_time,
            final(self).socket == old(self).socket,
            final(self).tcp_decoder@ == old(self).tcp_decoder@,
            final(self).events@ == old(self).events@,
    {
        self.tcp_encoder.add_packet(packet);
    }

    /// Whether any events await draining.
    pub fn has_events(&self) -> (r: bool)
        ensures
            r == (self.events@.len() > 0),
    {
        self.events.len() > 0
    }

    /// Hand every pending event to the caller, oldest first.
    pub fn drain_events(&mut self) -> (r: Vec<LobbyEvent>)
        ensures
            r@ == old(self).events@,
            final(self).events@.len() == 0,
            plumbing_unchanged(*old(self), *final(self)),
            final(self).state == old(self).state,
            final(self).closed_time == old(self).closed_time,
            final(self).socket.connected == old(self).socket.connected,
    {
        let r = self.events.split_off(0);
        proof {
            assert(r@ =~= old(self).events@);
        }
        r
    }

    /// Tear the connection down: the caller shuts the OS stream, the
    /// state becomes terminal and the close time is recorded.
    pub fn close(&mut self, now_millis: u64)
        ensures
            final(self).state == ConnState::Closed,
            final(self).closed_time == Some(now_millis),
            !final(self).socket.connected,
            plumbing_unchanged(*old(self), *final(self)),
            final(self).events@ == old(self).events@,
    {
        self.socket.close();
        self.state = ConnState::Closed;
        self.closed_time = Some(now_millis);
    }

    /// Feed one chunk of bytes read from the OS stream into the inbound
    /// queue.
    pub fn read(&mut self, data: Vec<u8>)
        ensures
            final(self).socket.unprocessed_in@.len() == old(self).socket.unprocessed_in@.len()
                + 1,
            final(self).socket.unprocessed_in@.last()@ == data@,
            forall|i: int|
                0 <= i < old(self).socket.unprocessed_in@.len() ==> final(self).socket.unprocessed_in@[i] == old(self).socket.unprocessed_in@[i],
            final(self).socket.connected == old(self).socket.connected,
            final(self).socket.buffer_processors@ == old(self).socket.buffer_processors@,
            final(self).socket.unprocessed_out@ == old(self).socket.unprocessed_out@,
            final(self).socket.processed_in@ == old(self).socket.processed_in@,
            final(self).socket.processed_out@ == old(self).socket.processed_out@,
            final(self).token == old(self).token,
            final(self).peer_info == old(self).peer_info,
            final(self).state == old(self).state,
            final(self).closed_time == old(self).closed_time,
            final(self).tcp_encoder == old(self).tcp_encoder,
            final(self).tcp_decoder@ == old(self).tcp_decoder@,
            final(self).events@ == old(self).events@,
    {
        self.socket.push_read(data);
    }

    /// Ready the outbound side for OS writes: the first writable moment
    /// marks the transport connected (the caller then disables send
    /// coalescing, returned as `true`), and pending outbound buffers run
    /// through the pipeline. The caller then drains `socket.front_out`
    /// and reports progress through `socket.mark_written`.
    pub fn write(&mut self) -> (first: bool)
        ensures
            first == !old(self).socket.connected,
            final(self).socket.connected,
            final(self).state == old(self).state,
            final(self).closed_time == old(self).closed_time,
            final(self).events@ == old(self).events@,
            final(self).token == old(self).token,
            final(self).peer_info == old(self).peer_info,
            final(self).tcp_encoder == old(self).tcp_encoder,
            final(self).tcp_decoder@ == old(self).tcp_decoder@,
            final(self).socket.buffer_processors@ == old(self).socket.buffer_processors@,
            final(self).socket.unprocessed_in@ == old(self).socket.unprocessed_in@,
            final(self).socket.processed_in@ == old(self).socket.processed_in@,
            final(self).socket.unprocessed_out@.len() == 0,
            final(self).socket.processed_out@.len() == old(self).socket.processed_out@.len()
                + old(self).socket.unprocessed_out@.len(),
            forall|i: int|
                0 <= i < old(self).socket.processed_out@.len() ==> final(self).socket.processed_out@[i] == old(self).socket.processed_out@[i],
            forall|i: int|
                0 <= i < old(self).socket.unprocessed_out@.len() ==> (#[trigger] final(self).socket.processed_out@[old(self).socket.processed_out@.len() + i])@
                    == crate::net::transport::tcp_socket::pipeline_out(
                    old(self).socket.buffer_processors@,
                    old(self).socket.unprocessed_out@[i]@,
                ),
    {
        let first = !self.socket.is_connected();
        if first {
            self.socket.connected();
        }
        self.socket.process_out();
        first
    }

    /// Handle one decoded message: run the state machine, record any
    /// event, and hand back the reply that must be flushed immediately,
    /// if the message demands one.
    ///
    /// A matching handshake completes initialization; a mismatched one is
    /// protocol-fatal. A ping is answered at once with a pong carrying
    /// the same id. A malformed authentication response, or one naming
    /// an unknown error code, is protocol-fatal. A peer's fatal message
    /// closes without echoing. Recognized domain messages become events;
    /// unrecognized types are ignored.
    pub fn incoming_packet(&mut self, msg: IncomingMessage, now_millis: u64) -> (reply: Option<
        OutgoingMessage,
    >)
        ensures
            plumbing_unchanged(*old(self), *final(self)),
            spec_incoming_post(*old(self), *final(self), msg, now_millis, reply),
    {
        match msg {
            IncomingMessage::Init { protocol_version, app_version } => {
                if app_version != APP_VERSION {
                    let reply = self.disconnect("Invalid app version", now_millis);
                    return reply;
                }
                if protocol_version != PROTOCOL_VERSION {
                    let reply = self.disconnect("Invalid protocol version", now_millis);
                    return reply;
                }
                self.state = ConnState::Authenticating;
                self.events.push(LobbyEvent::ConnectionEstablished);
                None
            },
            IncomingMessage::Fatal { message } => {
                if self.socket.is_connected() {
                    self.close(now_millis);
                    self.events.push(LobbyEvent::Disconnected { message });
                }
                None
            },
            IncomingMessage::Ping { id, peer_time } => {
                Some(OutgoingMessage::Pong { id, peer_time: now_millis })
            },
            IncomingMessage::AuthResponse { error_code, session_token, user_profile } => {
                match (error_code, session_token, user_profile) {
                    (Some(err), None, None) => {
                        match ErrorCode::from_str(err.as_str()) {
                            Ok(code) => {
                                self.events.push(LobbyEvent::AuthFailure { error_code: code });
                                None
                            },
                            Err(_) => {
                                let reply = self.disconnect("Protocol error", now_millis);
                                reply
                            },
                        }
                    },
                    (None, Some(tok), Some(profile)) => {
                        self.events.push(
                            LobbyEvent::AuthSuccess {
                                session_token: tok,
                                user_profile: profile,
                            },
                        );
                        None
                    },
                    _ => {
                        let reply = self.disconnect("Protocol error", now_millis);
                        reply
                    },
                }
            },
            IncomingMessage::FriendRequests { as_inviter, as_invitee } => {
                self.events.push(LobbyEvent::FriendRequestsUpdated { as_invitee, as_inviter });
                None
            },
            IncomingMessage::FriendList { friend_list } => {
                self.events.push(LobbyEvent::FriendListUpdated { friend_list });
                None
            },
            IncomingMessage::PrivateMessage { profile, content, is_self } => {
                self.events.push(LobbyEvent::NewPrivateMessage { profile, content, is_self });
                None
            },
            IncomingMessage::SystemNotification { content } => {
                self.events.push(LobbyEvent::SystemNotification { content });
                None
            },
            IncomingMessage::LobbyInvite { id, inviter } => {
                self.events.push(LobbyEvent::LobbyInvite { id, inviter });
                None
            },
            IncomingMessage::LobbyJoined { lobby_id } => {
                self.events.push(LobbyEvent::LobbyJoined { lobby_id });
                None
            },
            IncomingMessage::LobbyLeft { lobby_id } => {
                self.events.push(LobbyEvent::LobbyLeft { lobby_id });
                None
            },
            IncomingMessage::LobbyMemberUpdate { lobby_id, members } => {
                self.events.push(LobbyEvent::LobbyMemberUpdate { lobby_id, members });
                None
            },
            IncomingMessage::LobbyMessage { lobby_id, profile, content } => {
                self.events.push(LobbyEvent::NewLobbyMessage { lobby_id, profile, content });
                None
            },
            IncomingMessage::Other { packet_type } => {
                None
            },
        }
    }

    /// Pack every queued packet into transport buffers and move them,
    /// oldest first, onto the outbound queue behind whatever already
    /// waits there.
    fn encode_pending(&mut self, reg: &PacketRegistry)
        requires
            reg.wf(),
            old(self).inv(*reg),
        ensures
            final(self).tcp_encoder.packets@.len() == 0,
            final(self).tcp_encoder.buffers@.len() == 0,
            final(self).tcp_encoder.target_size == old(self).tcp_encoder.target_size,
            buffer_views(final(self).socket.unprocessed_out@) == buffer_views(
                old(self).socket.unprocessed_out@,
            ) + buffer_views(old(self).tcp_encoder.buffers@) + spec_pack_all(
                *reg,
                old(self).tcp_encoder.packets@,
                old(self).tcp_encoder.target_size as nat,
            ),
            final(self).token == old(self).token,
            final(self).peer_info == old(self).peer_info,
            final(self).state == old(self).state,
            final(self).closed_time == old(self).closed_time,
            final(self).events@ == old(self).events@,
            final(self).socket.connected == old(self).socket.connected,
            final(self).socket.buffer_processors@ == old(self).socket.buffer_processors@,
            final(self).socket.unprocessed_in@ == old(self).socket.unprocessed_in@,
            final(self).socket.processed_in@ == old(self).socket.processed_in@,
            final(self).socket.processed_out@ == old(self).socket.processed_out@,
            final(self).tcp_decoder@ == old(self).tcp_decoder@,
    {
        let ghost enc_q = self.tcp_encoder.packets@;
        let ghost enc_b = self.tcp_encoder.buffers@;
        let ghost target = self.tcp_encoder.target_size as nat;
        let ghost un_out0 = self.socket.unprocessed_out@;
        loop
            invariant
                reg.wf(),
                enc_q == old(self).tcp_encoder.packets@,
                enc_b == old(self).tcp_encoder.buffers@,
                target == old(self).tcp_encoder.target_size as nat,
                un_out0 == old(self).socket.unprocessed_out@,
                self.tcp_encoder.queue_wf(*reg),
                self.tcp_encoder.target_size == old(self).tcp_encoder.target_size,
                buffer_views(self.socket.unprocessed_out@) + buffer_views(
                    self.tcp_encoder.buffers@,
                ) + spec_pack_all(*reg, self.tcp_encoder.packets@, target) =~~= buffer_views(
                    un_out0,
                ) + buffer_views(enc_b) + spec_pack_all(*reg, enc_q, target),
                self.token == old(self).token,
                self.peer_info == old(self).peer_info,
                self.state == old(self).state,
                self.closed_time == old(self).closed_time,
                self.events@ == old(self).events@,
                self.socket.connected == old(self).socket.connected,
                self.socket.buffer_processors@ == old(self).socket.buffer_processors@,
                self.socket.unprocessed_in@ == old(self).socket.unprocessed_in@,
                self.socket.processed_in@ == old(self).socket.processed_in@,
                self.socket.processed_out@ == old(self).socket.processed_out@,
                self.tcp_decoder@ == old(self).tcp_decoder@,
            ensures
                self.tcp_encoder.packets@.len() == 0,
                self.tcp_encoder.buffers@.len() == 0,
                self.tcp_encoder.target_size == old(self).tcp_encoder.target_size,
                buffer_views(self.socket.unprocessed_out@) =~~= buffer_views(un_out0)
                    + buffer_views(enc_b) + spec_pack_all(*reg, enc_q, target),
                self.token == old(self).token,
                self.peer_info == old(self).peer_info,
                self.state == old(self).state,
                self.closed_time == old(self).closed_time,
                self.events@ == old(self).events@,
                self.socket.connected == old(self).socket.connected,
                self.socket.buffer_processors@ == old(self).socket.buffer_processors@,
                self.socket.unprocessed_in@ == old(self).socket.unprocessed_in@,
                self.socket.processed_in@ == old(self).socket.processed_in@,
                self.socket.processed_out@ == old(self).socket.processed_out@,
                self.tcp_decoder@ == old(self).tcp_decoder@,
            decreases self.tcp_encoder.packets@.len(), self.tcp_encoder.buffers@.len(),
        {
            let ghost pre_buffers = self.tcp_encoder.buffers@;
            let ghost pre_packets = self.tcp_encoder.packets@;
            let ghost pre_out = self.socket.unprocessed_out@;
            let next = self.tcp_encoder.next_buffer(reg);
            match next {
                Some(b) => {
                    self.socket.unprocessed_out.push_back(b);
                    proof {
                        if pre_buffers.len() > 0 {
                            assert(buffer_views(pre_buffers) =~~= seq![b@] + buffer_views(
                                self.tcp_encoder.buffers@,
                            ));
                        } else {
                            assert(pre_packets.len() > 0);
                            lemma_greedy_bounds(*reg, pre_packets, target, 1);
                            let k = greedy_count(*reg, pre_packets, target);
                            assert(self.tcp_encoder.packets@ == pre_packets.skip(k));
                            assert(1 <= k <= pre_packets.len());
                            assert(b@ == spec_encode_all(*reg, pre_packets.take(k)));
                            assert(spec_pack_all(*reg, pre_packets, target) == seq![
                                spec_encode_all(*reg, pre_packets.take(k)),
                            ] + spec_pack_all(*reg, pre_packets.skip(k), target));
                            assert(spec_pack_all(*reg, pre_packets, target) =~~= seq![b@]
                                + spec_pack_all(*reg, self.tcp_encoder.packets@, target));
                        }
                        assert(buffer_views(self.socket.unprocessed_out@) =~~= buffer_views(
                            pre_out,
                        ).push(b@));
                    }
                },
                None => {
                    break ;
                },
            }
        }
    }

    /// Hand every processed inbound buffer to the decoder, oldest first;
    /// the decoder's stream grows by exactly those bytes.
    fn feed_decoder(&mut self)
        ensures
            final(self).socket.processed_in@.len() == 0,
            final(self).tcp_decoder@ == old(self).tcp_decoder@ + concat_views(
                buffer_views(old(self).socket.processed_in@),
            ),
            final(self).tcp_encoder == old(self).tcp_encoder,
            final(self).token == old(self).token,
            final(self).peer_info == old(self).peer_info,
            final(self).state == old(self).state,
            final(self).closed_time == old(self).closed_time,
            final(self).events@ == old(self).events@,
            final(self).socket.connected == old(self).socket.connected,
            final(self).socket.buffer_processors@ == old(self).socket.buffer_processors@,
            final(self).socket.unprocessed_in@ == old(self).socket.unprocessed_in@,
            final(self).socket.unprocessed_out@ == old(self).socket.unprocessed_out@,
            final(self).socket.processed_out@ == old(self).socket.processed_out@,
    {
        let ghost decoder0 = self.tcp_decoder@;
        let ghost inbound = self.socket.processed_in@;
        let _pending = self.socket.processed_in.len();
        let mut moved: usize = 0;
        proof {
            assert(inbound.skip(0) =~= inbound);
            assert(buffer_views(inbound).take(0) =~~= Seq::<Seq<u8>>::empty());
            assert(concat_views(Seq::<Seq<u8>>::empty()) == Seq::<u8>::empty());
            assert(decoder0 + Seq::<u8>::empty() =~= decoder0);
        }
        loop
            invariant
                moved <= inbound.len(),
                inbound.len() <= usize::MAX,
                decoder0 == old(self).tcp_decoder@,
                inbound == old(self).socket.processed_in@,
                self.socket.processed_in@ == inbound.skip(moved as int),
                self.tcp_decoder@ == decoder0 + concat_views(
                    buffer_views(inbound).take(moved as int),
                ),
                self.tcp_encoder == old(self).tcp_encoder,
                self.token == old(self).token,
                self.peer_info == old(self).peer_info,
                self.state == old(self).state,
                self.closed_time == old(self).closed_time,
                self.events@ == old(self).events@,
                self.socket.connected == old(self).socket.connected,
                self.socket.buffer_processors@ == old(self).socket.buffer_processors@,
                self.socket.unprocessed_in@ == old(self).socket.unprocessed_in@,
                self.socket.unprocessed_out@ == old(self).socket.unprocessed_out@,
                self.socket.processed_out@ == old(self).socket.processed_out@,
            ensures
                moved == inbound.len(),
                self.socket.processed_in@.len() == 0,
                self.tcp_decoder@ == decoder0 + concat_views(buffer_views(inbound)),
                self.tcp_encoder == old(self).tcp_encoder,
                self.token == old(self).token,
                self.peer_info == old(self).peer_info,
                self.state == old(self).state,
                self.closed_time == old(self).closed_time,
                self.events@ == old(self).events@,
                self.socket.connected == old(self).socket.connected,
                self.socket.buffer_processors@ == old(self).socket.buffer_processors@,
                self.socket.unprocessed_in@ == old(self).socket.unprocessed_in@,
                self.socket.unprocessed_out@ == old(self).socket.unprocessed_out@,
                self.socket.processed_out@ == old(self).socket.processed_out@,
            decreases inbound.len() - moved,
        {
            if self.socket.processed_in.len() == 0 {
                proof {
                    assert(buffer_views(inbound).take(moved as int) =~~= buffer_views(inbound));
                }
                break ;
            }
            let buffer = self.socket.processed_in.pop_front().unwrap();
            proof {
                assert(buffer == inbound[moved as int]);
                assert(self.socket.processed_in@ =~= inbound.skip(moved as int + 1));
            }
            self.tcp_decoder.push_buffer(buffer);
            proof {
                lemma_concat_views_snoc(buffer_views(inbound), moved as int);
                assert(buffer_views(inbound)[moved as int] == buffer@);
            }
            moved = moved + 1;
        }
    }

    /// One full flush. Outbound: every queued packet is packed into
    /// transport buffers, which run through the pipeline onto the
    /// processed outbound queue for the caller's OS writes. Inbound:
    /// everything read so far runs through the pipeline into the decoder,
    /// and every fully-buffered packet comes back, in arrival order,
    /// together with whether the stream front turned out corrupt.
    pub fn flush(&mut self, reg: &PacketRegistry) -> (r: (Vec<Packet>, bool))
        requires
            reg.wf(),
            old(self).inv(*reg),
        ensures
            final(self).inv(*reg),
            spec_flush_data(*old(self), *final(self), *reg, r.0@, r.1),
            final(self).state == old(self).state,
            final(self).closed_time == old(self).closed_time,
            final(self).events@ == old(self).events@,
            final(self).socket.connected == old(self).socket.connected,
    {
        self.encode_pending(reg);
        let ghost pre_unproc = self.socket.unprocessed_out@;
        self.socket.process_out();
        proof {
            let outgoing = buffer_views(old(self).socket.unprocessed_out@) + buffer_views(
                old(self).tcp_encoder.buffers@,
            ) + spec_pack_all(
                *reg,
                old(self).tcp_encoder.packets@,
                old(self).tcp_encoder.target_size as nat,
            );
            assert(buffer_views(pre_unproc) =~~= outgoing);
            assert(self.socket.processed_out@.len() == old(self).socket.processed_out@.len()
                + outgoing.len());
            assert forall|i: int| 0 <= i < outgoing.len() implies (#[trigger] self
                .socket
                .processed_out@[old(self).socket.processed_out@.len() + i])@ == pipeline_out(
                old(self).socket.buffer_processors@,
                outgoing[i],
            ) by {
                assert(buffer_views(pre_unproc)[i] == pre_unproc[i]@);
                assert(pre_unproc[i]@ == outgoing[i]);
            }
        }
        // Inbound: pipeline everything read, hand it to the decoder, and
        // drain whole packets.
        let ghost pre_pin = self.socket.processed_in@;
        let ghost pre_uin = self.socket.unprocessed_in@;
        self.socket.process_in();
        proof {
            assert(pre_pin == old(self).socket.processed_in@);
            assert(pre_uin == old(self).socket.unprocessed_in@);
            let ps = old(self).socket.buffer_processors@;
            let rhs = buffer_views(pre_pin) + pre_uin.map_values(
                |b: ByteBuffer| pipeline_in(ps, b@),
            );
            assert forall|j: int|
                0 <= j < self.socket.processed_in@.len() implies (#[trigger] self
                .socket
                .processed_in@[j])@ == rhs[j] by {
                if j < pre_pin.len() {
                } else {
                    let i = j - pre_pin.len();
                    assert((self.socket.processed_in@[pre_pin.len() + i])@ == pipeline_in(
                        ps,
                        pre_uin[i]@,
                    ));
                    assert(pre_uin.map_values(|b: ByteBuffer| pipeline_in(ps, b@))[i]
                        == pipeline_in(ps, pre_uin[i]@));
                }
            }
            assert(buffer_views(self.socket.processed_in@) =~~= rhs);
            assert(buffer_views(self.socket.processed_in@) =~~= buffer_views(
                old(self).socket.processed_in@,
            ) + old(self).socket.unprocessed_in@.map_values(
                |b: ByteBuffer| pipeline_in(old(self).socket.buffer_processors@, b@),
            ));
        }
        self.feed_decoder();
        let (packets, corrupt) = self.tcp_decoder.drain_packets(reg);
        (packets, corrupt)
    }

    /// The message of the most recently recorded event, for contracts
    /// about the disconnect reason.
    pub open spec fn spec_last_message(&self) -> String {
        self.events@.last()->Disconnected_message
    }

    /// Close the connection for the given reason, if it is logically
    /// connected: tell the peer why, record the terminal state and the
    /// `Disconnected` event. A second call is a no-op.
    fn disconnect(&mut self, error_message: &str, now_millis: u64) -> (reply: Option<
        OutgoingMessage,
    >)
        ensures
            plumbing_unchanged(*old(self), *final(self)),
            old(self).socket.connected ==> {
                &&& final(self).state == ConnState::Closed
                &&& final(self).closed_time == Some(now_millis)
                &&& !final(self).socket.connected
                &&& final(self).events@ == old(self).events@.push(
                    LobbyEvent::Disconnected { message: final(self).spec_last_message() },
                )
                &&& final(self).spec_last_message()@ == error_message@
                &&& reply matches Some(OutgoingMessage::Fatal { message }) && message@
                    == error_message@
            },
            !old(self).socket.connected ==> {
                &&& final(self).state == old(self).state
                &&& final(self).closed_time == old(self).closed_time
                &&& final(self).socket.connected == old(self).socket.connected
                &&& final(self).events@ == old(self).events@
                &&& reply is None
            },
    {
        if self.socket.is_connected() {
            let message: String = error_message.to_owned();
            let reply_message: String = error_message.to_owned();
            self.close(now_millis);
            self.events.push(LobbyEvent::Disconnected { message });
            Some(OutgoingMessage::Fatal { message: reply_message })
        } else {
            None
        }
    }
}

} // verus!
