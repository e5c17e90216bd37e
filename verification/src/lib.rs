use vstd::prelude::*;

pub mod net;
pub mod utils;

use crate::net::structs::{Friend, FriendRequest, LobbyMember, UserProfile};
use vstd::string::StringSliceAdditionalSpecFns;

verus! {

/// Protocol revision carried in the handshake; both ends must agree.
pub const PROTOCOL_VERSION: u16 = 1;

/// Application revision carried in the handshake; both ends must agree.
pub const APP_VERSION: u16 = 1;

/// Authentication failure codes the server may report.
#[derive(Debug, Copy, Clone, PartialEq, Eq, Structural)]
pub enum ErrorCode {
    InvalidCredentials,
}

/// The error-code string, if any, that parses to the given code.
pub open spec fn spec_error_code(s: Seq<char>) -> Option<ErrorCode> {
    if s == "invalid_credentials"@ {
        Some(ErrorCode::InvalidCredentials)
    } else {
        None
    }
}

impl ErrorCode {
    /// Parse a wire error-code string; unrecognized strings are rejected
    /// rather than downgraded.
    pub fn from_str(input: &str) -> (r: Result<ErrorCode, Error>)
        ensures
            match spec_error_code(input@) {
                Some(code) => r matches Ok(c) && c == code,
                None => r is Err,
            },
    {
        let owned: String = input.to_owned();
        let known: String = "invalid_credentials".to_owned();
        if owned == known {
            Ok(ErrorCode::InvalidCredentials)
        } else {
            Err(Box::new(ErrorKind::InvalidArg(owned)))
        }
    }
}

/// Client-side failures surfaced to the caller.
#[derive(Debug)]
pub enum ErrorKind {
    InvalidArg(String),
}

/// Boxed error carried through caller-facing results.
pub type Error = Box<ErrorKind>;

/// Position just past the last colon in an address, or zero when no
/// colon exists.
pub open spec fn spec_port_start(s: Seq<u8>) -> int
    decreases s.len(),
{
    if s.len() == 0 {
        0
    } else if s[s.len() - 1] == 58 {
        s.len() as int
    } else {
        spec_port_start(s.take(s.len() - 1))
    }
}

/// A usable peer address: some text before a colon, and at least one
/// byte after it, all of them decimal digits, forming the port.
pub open spec fn spec_valid_addr(s: Seq<u8>) -> bool {
    let p = spec_port_start(s);
    &&& p >= 2
    &&& p < s.len()
    &&& forall|i: int| p <= i < s.len() ==> 48 <= #[trigger] s[i] <= 57
}

/// Everything the transport reports upward to the application.
#[derive(Debug, Clone)]
pub enum LobbyEvent {
    ConnectionEstablished,
    Disconnected { message: String },
    AuthSuccess { session_token: String, user_profile: UserProfile },
    AuthFailure { error_code: ErrorCode },
    FriendRequestsUpdated { as_invitee: Vec<FriendRequest>, as_inviter: Vec<FriendRequest> },
    FriendListUpdated { friend_list: Vec<Friend> },
    NewPrivateMessage { profile: UserProfile, content: String, is_self: bool },
    SystemNotification { content: String },
    LobbyInvite { id: String, inviter: UserProfile },
    LobbyJoined { lobby_id: String },
    LobbyLeft { lobby_id: String },
    LobbyMemberUpdate { lobby_id: String, members: Vec<LobbyMember> },
    NewLobbyMessage { lobby_id: String, profile: Option<UserProfile>, content: String },
}

/// The port start never lies outside the address text.
pub proof fn lemma_port_start_bounds(s: Seq<u8>)
    ensures
        0 <= spec_port_start(s) <= s.len(),
    decreases s.len(),
{
    if s.len() > 0 && s[s.len() - 1] != 58 {
        lemma_port_start_bounds(s.take(s.len() - 1));
    }
}

/// Whether the text is a usable peer address.
fn valid_addr(s: &str) -> (r: bool)
    ensures
        r == spec_valid_addr(s.spec_bytes()),
{
    let b = s.as_bytes();
    let n = b.len();
    let ghost full = s.spec_bytes();
    let mut i: usize = n;
    proof {
        assert(full.take(n as int) =~= full);
    }
    loop
        invariant
            i <= n,
            n == full.len(),
            full == s.spec_bytes(),
            b@ == full,
            spec_port_start(full) == spec_port_start(full.take(i as int)),
            forall|j: int| i <= j < n ==> 48 <= #[trigger] full[j] <= 57,
        ensures
            ({
                let p = spec_port_start(full);
                if i == 0 {
                    p == 0
                } else {
                    p == i && full[i as int - 1] == 58 && (forall|j: int|
                        i <= j < n ==> 48 <= #[trigger] full[j] <= 57)
                }
            }),
        decreases i,
    {
        if i == 0 {
            proof {
                assert(full.take(0) =~= Seq::<u8>::empty());
            }
            break ;
        }
        let c = *vstd::slice::slice_index_get(b, i - 1);
        proof {
            assert(full.take(i as int).len() == i);
            assert(full.take(i as int)[i - 1] == full[i as int - 1]);
        }
        if c == 58 {
            break ;
        }
        if c < 48 || c > 57 {
            proof {
                lemma_port_start_bounds(full.take(i as int - 1));
                assert(full.take(i as int).take(i as int - 1) =~= full.take(i as int - 1));
                assert(spec_port_start(full.take(i as int)) == spec_port_start(
                    full.take(i as int - 1),
                ));
                assert(spec_port_start(full) <= i - 1);
                assert(!(48 <= full[i as int - 1] <= 57));
                assert(!spec_valid_addr(full));
            }
            return false;
        }
        proof {
            assert(full.take(i as int).take(i as int - 1) =~= full.take(i as int - 1));
        }
        i = i - 1;
    }
    if i == 0 {
        return false;
    }
    i >= 2 && i < n
}

/// Builds a client facade for one lobby server address.
pub struct LobbyClientBuilder<'a> {
    pub url: &'a str,
    pub reconnect_interval: Option<u64>,
}

impl<'a> LobbyClientBuilder<'a> {
    /// Start building a client for the given address text.
    pub fn new(url: &'a str) -> (r: LobbyClientBuilder<'a>)
        ensures
            r.url == url,
            r.reconnect_interval is None,
    {
        LobbyClientBuilder { url, reconnect_interval: None }
    }

    /// Reconnect automatically this many milliseconds after a close.
    pub fn with_reconnect_interval(self, interval: u64) -> (r: LobbyClientBuilder<'a>)
        ensures
            r.url == self.url,
            r.reconnect_interval == Some(interval),
    {
        LobbyClientBuilder { reconnect_interval: Some(interval), ..self }
    }

    /// Build the client. The address text must look like a socket
    /// address (host, colon, numeric port); the given bytes are the
    /// serialized handshake message every new connection sends first.
    pub fn build(&self, handshake_payload: Vec<u8>) -> (r: Result<LobbyClient, Error>)
        requires
            handshake_payload@.len() < 0x1000000,
        ensures
            spec_valid_addr(self.url.spec_bytes()) <==> r is Ok,
            r matches Ok(c) ==> {
                &&& c.wf()
                &&& c.addr@ == self.url@
                &&& c.reconnect_interval == self.reconnect_interval
                &&& c.last_reconnect_attempt is None
                &&& c.incoming_events@.len() == 0
                &&& c.connection_manager.tokens@.len() == 0
                &&& c.connection_manager.free_tokens@.len() == 0
                &&& c.connection_manager.connections@.len() == 0
            },
    {
        if !valid_addr(self.url) {
            let mut message: String = "Invalid url ".to_owned();
            message.append(self.url);
            return Err(Box::new(ErrorKind::InvalidArg(message)));
        }
        Ok(
            LobbyClient {
                addr: self.url.to_owned(),
                reconnect_interval: self.reconnect_interval,
                last_reconnect_attempt: None,
                connection_manager: crate::net::connection_manager::ConnectionManager::new(
                    handshake_payload,
                ),
                incoming_events: std::collections::VecDeque::new(),
            },
        )
    }
}

/// Client facade: reconnect policy, authentication entry point, domain
/// send operations and the bounded event-draining API around one
/// connection manager.
pub struct LobbyClient {
    pub addr: String,
    pub reconnect_interval: Option<u64>,
    pub last_reconnect_attempt: Option<u64>,
    pub connection_manager: crate::net::connection_manager::ConnectionManager,
    pub incoming_events: std::collections::VecDeque<LobbyEvent>,
}

/// Whether a tick at `now` must issue a reconnect attempt: the connection
/// is closed, an interval is configured, and either the previous attempt
/// or — if none was made this closed period — the close itself lies more
/// than one interval in the past.
pub open spec fn spec_should_reconnect(c: LobbyClient, now_millis: u64) -> bool {
    &&& c.connection_manager.spec_token_of(c.addr@) matches Some(t) && {
        let conn = c.connection_manager.connections@[t as int];
        &&& conn.state == crate::net::connection::ConnState::Closed
        &&& c.reconnect_interval matches Some(interval) && match (
            c.last_reconnect_attempt,
            conn.closed_time,
        ) {
            (Some(attempt), _) => now_millis > attempt + interval,
            (None, Some(closed_at)) => now_millis > closed_at + interval,
            (None, None) => false,
        }
    }
}

impl LobbyClient {
    /// The facade is sound whenever its manager is.
    pub open spec fn wf(&self) -> bool {
        self.connection_manager.inv()
    }

    /// Initiate (or re-initiate) the connection to the lobby address; the
    /// caller opens the OS stream and registers the returned token.
    pub fn connect(&mut self) -> (token: usize)
        requires
            old(self).wf(),
        ensures
            final(self).wf(),
            final(self).addr == old(self).addr,
            final(self).reconnect_interval == old(self).reconnect_interval,
            final(self).last_reconnect_attempt == old(self).last_reconnect_attempt,
            final(self).incoming_events@ == old(self).incoming_events@,
            token < final(self).connection_manager.connections@.len(),
            final(self).connection_manager.connections@[token as int].state
                == crate::net::connection::ConnState::Initializing,
            final(self).connection_manager.connections@[token as int].peer_info.addr@ == old(
                self,
            ).addr@,
    {
        let addr = self.addr.clone();
        self.connection_manager.connect(addr)
    }

    /// Close the connection to the lobby address; with `free` its slot
    /// and mapping are released for reuse by an unrelated peer.
    pub fn disconnect(&mut self, free: bool, now_millis: u64)
        requires
            old(self).wf(),
        ensures
            final(self).wf(),
            final(self).addr == old(self).addr,
            final(self).reconnect_interval == old(self).reconnect_interval,
            final(self).last_reconnect_attempt == old(self).last_reconnect_attempt,
            final(self).incoming_events@ == old(self).incoming_events@,
    {
        let addr = self.addr.clone();
        self.connection_manager.disconnect(addr, free, now_millis);
    }

    /// One reconnect-policy tick: if the connection is closed, an
    /// interval is configured and it has elapsed since the last attempt
    /// (or since the close, when no attempt was made yet), reconnect and
    /// record the attempt time. At most one attempt is made per call and
    /// none before the interval has passed.
    pub fn tick(&mut self, now_millis: u64) -> (r: Option<usize>)
        requires
            old(self).wf(),
        ensures
            final(self).wf(),
            final(self).addr == old(self).addr,
            final(self).reconnect_interval == old(self).reconnect_interval,
            final(self).incoming_events@ == old(self).incoming_events@,
            !spec_should_reconnect(*old(self), now_millis) ==> r is None && *final(self) == *old(
                self,
            ),
            spec_should_reconnect(*old(self), now_millis) ==> {
                &&& r is Some
                &&& final(self).last_reconnect_attempt == Some(now_millis)
                &&& final(self).connection_manager.connections@[r->Some_0 as int].state
                    == crate::net::connection::ConnState::Initializing
            },
    {
        self.try_to_reconnect(now_millis)
    }

    /// Reconnect if the policy says the moment has come.
    fn try_to_reconnect(&mut self, now_millis: u64) -> (r: Option<usize>)
        requires
            old(self).wf(),
        ensures
            final(self).wf(),
            final(self).addr == old(self).addr,
            final(self).reconnect_interval == old(self).reconnect_interval,
            final(self).incoming_events@ == old(self).incoming_events@,
            !spec_should_reconnect(*old(self), now_millis) ==> r is None && *final(self) == *old(
                self,
            ),
            spec_should_reconnect(*old(self), now_millis) ==> {
                &&& r is Some
                &&& final(self).last_reconnect_attempt == Some(now_millis)
                &&& final(self).connection_manager.connections@[r->Some_0 as int].state
                    == crate::net::connection::ConnState::Initializing
            },
    {
        let addr = self.addr.clone();
        let state = self.connection_manager.peer_state(&addr);
        let (closed, closed_time) = match state {
            Some((st, ct)) => (
                matches!(st, crate::net::connection::ConnState::Closed),
                ct,
            ),
            None => (false, None),
        };
        if !closed {
            return None;
        }
        let interval = match self.reconnect_interval {
            Some(interval) => interval,
            None => { return None; },
        };
        let due: bool = match (self.last_reconnect_attempt, closed_time) {
            (Some(attempt), _) => interval <= now_millis && now_millis - interval > attempt,
            (None, Some(closed_at)) => interval <= now_millis && now_millis - interval
                > closed_at,
            (None, None) => false,
        };
        if due {
            self.last_reconnect_attempt = Some(now_millis);
            let token = self.connect();
            Some(token)
        } else {
            None
        }
    }

    /// Whether any of the drained events completes a connection attempt.
    pub open spec fn spec_has_established(s: Seq<LobbyEvent>) -> bool {
        exists|i: int| 0 <= i < s.len() && s[i] is ConnectionEstablished
    }

    /// Drain up to `limit` queued events into `events`, oldest first,
    /// clearing `events` first. Seeing `ConnectionEstablished` ends the
    /// current reconnect-attempt period.
    pub fn poll_events(&mut self, events: &mut Vec<LobbyEvent>, limit: usize)
        requires
            old(self).wf(),
        ensures
            final(self).wf(),
            final(self).addr == old(self).addr,
            final(self).reconnect_interval == old(self).reconnect_interval,
            final(self).connection_manager == old(self).connection_manager,
            ({
                let k = if limit <= old(self).incoming_events@.len() {
                    limit as int
                } else {
                    old(self).incoming_events@.len() as int
                };
                &&& final(events)@ == old(self).incoming_events@.take(k)
                &&& final(self).incoming_events@ == old(self).incoming_events@.skip(k)
                &&& final(self).last_reconnect_attempt == if Self::spec_has_established(
                    old(self).incoming_events@.take(k),
                ) {
                    None
                } else {
                    old(self).last_reconnect_attempt
                }
            }),
    {
        events.clear();
        let _queued = self.incoming_events.len();
        let ghost q = self.incoming_events@;
        let ghost k = if limit <= q.len() {
            limit as int
        } else {
            q.len() as int
        };
        proof {
            assert(q.skip(0) =~= q);
            assert(events@ =~= q.take(0));
        }
        loop
            invariant
                k == if limit <= q.len() {
                    limit as int
                } else {
                    q.len() as int
                },
                events@.len() <= limit,
                events@.len() <= q.len(),
                q.len() <= usize::MAX,
                events@ == q.take(events@.len() as int),
                self.incoming_events@ == q.skip(events@.len() as int),
                self.addr == old(self).addr,
                self.reconnect_interval == old(self).reconnect_interval,
                self.connection_manager == old(self).connection_manager,
                self.last_reconnect_attempt == if Self::spec_has_established(events@) {
                    None
                } else {
                    old(self).last_reconnect_attempt
                },
            ensures
                events@.len() == k,
                events@ == q.take(k),
                self.incoming_events@ == q.skip(k),
                self.addr == old(self).addr,
                self.reconnect_interval == old(self).reconnect_interval,
                self.connection_manager == old(self).connection_manager,
                self.last_reconnect_attempt == if Self::spec_has_established(events@) {
                    None
                } else {
                    old(self).last_reconnect_attempt
                },
            decreases q.len() - events@.len(),
        {
            if events.len() >= limit {
                break ;
            }
            let ghost taken = events@.len() as int;
            let next = self.incoming_events.pop_front();
            let event = match next {
                Some(event) => event,
                None => {
                    proof {
                        assert(q.skip(taken).len() == 0);
                    }
                    break ;
                },
            };
            proof {
                assert(event == q[taken]);
                assert(self.incoming_events@ =~= q.skip(taken + 1));
            }
            self.handle_event(&event);
            events.push(event);
            proof {
                assert(events@ =~= q.take(taken + 1));
                if Self::spec_has_established(events@) && !Self::spec_has_established(
                    events@.take(taken),
                ) {
                    let w = choose|i: int|
                        0 <= i < events@.len() && #[trigger] events@[i]
                            is ConnectionEstablished;
                    if w < taken {
                        assert(events@.take(taken)[w] is ConnectionEstablished);
                    }
                }
                if !Self::spec_has_established(events@) {
                    assert(!(events@[taken] is ConnectionEstablished));
                }
                assert(events@.take(taken) =~= q.take(taken));
            }
        }
    }

    /// A completed connection ends the reconnect-attempt period.
    fn handle_event(&mut self, event: &LobbyEvent)
        ensures
            *final(self) == (LobbyClient {
                last_reconnect_attempt: final(self).last_reconnect_attempt,
                ..*old(self)
            }),
            final(self).last_reconnect_attempt == if *event is ConnectionEstablished {
                None::<u64>
            } else {
                old(self).last_reconnect_attempt
            },
    {
        match event {
            LobbyEvent::ConnectionEstablished => {
                self.last_reconnect_attempt = None;
            },
            _ => {},
        }
    }

    /// Submit credentials, provided the handshake has completed and the
    /// connection is not closed; otherwise the request is refused and
    /// nothing is sent. The caller serializes the returned message and
    /// sends it through `send_packet`.
    pub fn authenticate(&mut self, email: String, password: String) -> (r: Option<
        crate::net::packets::AuthenticationRequest,
    >)
        requires
            old(self).wf(),
        ensures
            final(self).wf(),
            *final(self) == *old(self),
            ({
                let found = old(self).connection_manager.spec_token_of(old(self).addr@);
                match found {
                    Some(t) => {
                        let st = old(self).connection_manager.connections@[t as int].state;
                        if st.spec_at_least_authenticating() && st
                            != crate::net::connection::ConnState::Closed {
                            r matches Some(m) && m.email == email && m.password == password
                        } else {
                            r is None
                        }
                    },
                    None => r is None,
                }
            }),
    {
        let addr = self.addr.clone();
        let state = self.connection_manager.peer_state(&addr);
        match state {
            Some((st, _)) => {
                if st.at_least_authenticating() && !matches!(
                    st,
                    crate::net::connection::ConnState::Closed
                ) {
                    Some(crate::net::packets::AuthenticationRequest { email, password })
                } else {
                    None
                }
            },
            None => None,
        }
    }

    /// Ask to add a friend; serialize and send through `send_packet`.
    pub fn add_friend(&mut self, user_tag: String) -> (r: crate::net::packets::AddFriendRequest)
        ensures
            r.user_tag == user_tag,
    {
        crate::net::packets::AddFriendRequest { user_tag }
    }

    /// Ask for the pending friend requests; serialize and send through
    /// `send_packet`.
    pub fn refresh_friend_requests(&mut self) -> (r:
        crate::net::packets::FetchPendingFriendRequests)
    {
        crate::net::packets::FetchPendingFriendRequests {  }
    }

    /// Ask for the friend list; serialize and send through `send_packet`.
    pub fn refresh_friend_list(&mut self) -> (r: crate::net::packets::FetchFriendList) {
        crate::net::packets::FetchFriendList {  }
    }

    /// Answer a pending friend request; serialize and send through
    /// `send_packet`.
    pub fn friend_request_action(
        &mut self,
        request_id: String,
        action: crate::net::structs::FriendRequestActionChoice,
    ) -> (r: crate::net::packets::FriendRequestAction)
        ensures
            r.request_id == request_id,
            r.action == action,
    {
        crate::net::packets::FriendRequestAction { request_id, action }
    }

    /// Ask to remove a friend; serialize and send through `send_packet`.
    pub fn remove_friend(&mut self, user_tag: String) -> (r: crate::net::packets::RemoveFriend)
        ensures
            r.user_tag == user_tag,
    {
        crate::net::packets::RemoveFriend { user_tag }
    }

    /// Enqueue one framed packet toward the lobby address, creating the
    /// connection lazily if none exists; the results are the token and
    /// whether the caller must open a fresh OS stream for it.
    pub fn send_packet(&mut self, packet: crate::net::packet::Packet) -> (r: (usize, bool))
        requires
            old(self).wf(),
            packet.wf(old(self).connection_manager.reg),
        ensures
            final(self).wf(),
            final(self).addr == old(self).addr,
            final(self).reconnect_interval == old(self).reconnect_interval,
            final(self).last_reconnect_attempt == old(self).last_reconnect_attempt,
            final(self).incoming_events@ == old(self).incoming_events@,
            r.0 < final(self).connection_manager.connections@.len(),
            final(self).connection_manager.connections@[r.0 as int].tcp_encoder.packets@.last()
                == packet,
    {
        let addr = self.addr.clone();
        self.connection_manager.send(addr, packet)
    }

    /// Move the events one connection produced onto the client's queue.
    pub fn collect_events(&mut self, token: usize)
        requires
            old(self).wf(),
            token < old(self).connection_manager.connections@.len(),
        ensures
            final(self).wf(),
            final(self).addr == old(self).addr,
            final(self).reconnect_interval == old(self).reconnect_interval,
            final(self).last_reconnect_attempt == old(self).last_reconnect_attempt,
            final(self).incoming_events@ == old(self).incoming_events@ + old(
                self,
            ).connection_manager.connections@[token as int].events@,
            final(self).connection_manager.connections@[token as int].events@.len() == 0,
    {
        let mut drained = self.connection_manager.drain_conn_events(token);
        let _count = drained.len();
        let _queued = self.incoming_events.len();
        let ghost moved = drained@;
        let ghost q0 = self.incoming_events@;
        let ghost cm_mid = self.connection_manager;
        let mut fed: usize = 0;
        proof {
            assert(q0 + moved.take(0) =~= q0);
            assert(moved.skip(0) =~= moved);
        }
        loop
            invariant
                fed <= moved.len(),
                moved.len() <= usize::MAX,
                drained@ == moved.skip(fed as int),
                self.incoming_events@ == q0 + moved.take(fed as int),
                q0.len() + moved.len() <= usize::MAX + moved.len(),
                self.addr == old(self).addr,
                self.reconnect_interval == old(self).reconnect_interval,
                self.last_reconnect_attempt == old(self).last_reconnect_attempt,
                self.connection_manager == cm_mid,
            ensures
                fed == moved.len(),
                self.incoming_events@ == q0 + moved,
                self.addr == old(self).addr,
                self.reconnect_interval == old(self).reconnect_interval,
                self.last_reconnect_attempt == old(self).last_reconnect_attempt,
                self.connection_manager == cm_mid,
            decreases moved.len() - fed,
        {
            if drained.len() == 0 {
                proof {
                    assert(moved.take(fed as int) =~= moved);
                }
                break ;
            }
            let event = drained.remove(0);
            proof {
                assert(event == moved[fed as int]);
                assert(drained@ =~= moved.skip(fed as int + 1));
            }
            self.incoming_events.push_back(event);
            proof {
                assert(self.incoming_events@ =~= q0 + moved.take(fed as int + 1));
            }
            fed = fed + 1;
        }
    }
}

/// Reconnect timing, first half: while the connection is closed with no
/// attempt made yet, no attempt happens at or before `closed_time`
/// plus the interval.
pub proof fn lemma_no_reconnect_before_interval(
    c: LobbyClient,
    t: usize,
    closed_at: u64,
    interval: u64,
    now_millis: u64,
)
    requires
        c.connection_manager.spec_token_of(c.addr@) == Some(t),
        c.connection_manager.connections@[t as int].closed_time == Some(closed_at),
        c.last_reconnect_attempt is None,
        c.reconnect_interval == Some(interval),
        now_millis <= closed_at + interval,
    ensures
        !spec_should_reconnect(c, now_millis),
{
}

/// Reconnect timing, second half: once an attempt was recorded at some
/// time, no further attempt happens within one interval of it, so each
/// closed period sees at most one attempt per interval.
pub proof fn lemma_one_attempt_per_interval(
    c: LobbyClient,
    attempt: u64,
    interval: u64,
    now_millis: u64,
)
    requires
        c.last_reconnect_attempt == Some(attempt),
        c.reconnect_interval == Some(interval),
        now_millis <= attempt + interval,
    ensures
        !spec_should_reconnect(c, now_millis),
{
}

} // verus!
