use vstd::prelude::*;
use vstd::pervasive::VecAdditionalExecFns;

use std::collections::VecDeque;

use crate::net::connection::{ConnState, Connection, IncomingMessage, OutgoingMessage};
use crate::net::packet::Packet;
use crate::net::packets::{self, PacketRegistry, PacketType};
use crate::utils::buffer_processor::LogBufferProcessor;
use crate::LobbyEvent;

verus! {

/// Readiness trigger bits a poll cycle reports for one token.
#[derive(Debug, Copy, Clone, PartialEq, Eq, Structural)]
pub enum SocketEvent {
    Readable,
    Writable,
    Closed,
}

impl SocketEvent {
    /// Bit of this trigger within a coalesced trigger mask.
    pub open spec fn spec_mask(self) -> u8 {
        match self {
            SocketEvent::Readable => 1,
            SocketEvent::Writable => 2,
            SocketEvent::Closed => 4,
        }
    }

    /// Bit of this trigger within a coalesced trigger mask.
    pub fn mask(self) -> (r: u8)
        ensures
            r == self.spec_mask(),
    {
        match self {
            SocketEvent::Readable => 1,
            SocketEvent::Writable => 2,
            SocketEvent::Closed => 4,
        }
    }
}

/// The kinds of OS I/O failure the manager distinguishes.
#[derive(Debug, Copy, Clone, PartialEq, Eq, Structural)]
pub enum IoErrorKind {
    WouldBlock,
    ConnectionReset,
    ConnectionRefused,
    ConnectionAborted,
    BrokenPipe,
    Other,
}

/// Whether an I/O failure is fatal to its connection: the four kinds that
/// mean the peer is gone. `WouldBlock` is expected and transient; any
/// other kind is logged and the connection left open.
pub open spec fn spec_should_close(err_kind: IoErrorKind) -> bool {
    match err_kind {
        IoErrorKind::ConnectionReset => true,
        IoErrorKind::ConnectionRefused => true,
        IoErrorKind::ConnectionAborted => true,
        IoErrorKind::BrokenPipe => true,
        _ => false,
    }
}

/// How a read cycle over a readable socket ended.
pub enum ReadEnd {
    /// The OS has no more bytes for now.
    WouldBlock,
    /// The OS reported zero bytes: the peer closed the stream.
    Eof,
    /// The OS reported a failure of the given kind.
    Error(IoErrorKind),
}

/// The token a lookup in the address map yields, if the address is known.
pub open spec fn spec_lookup(s: Seq<(String, usize)>, addr: Seq<char>) -> Option<usize>
    decreases s.len(),
{
    if s.len() == 0 {
        None
    } else if s[0].0@ == addr {
        Some(s[0].1)
    } else {
        spec_lookup(s.skip(1), addr)
    }
}

/// An address is absent from the map exactly when no entry carries it.
pub proof fn lemma_lookup_none(s: Seq<(String, usize)>, addr: Seq<char>)
    ensures
        spec_lookup(s, addr) is None <==> forall|i: int|
            0 <= i < s.len() ==> (#[trigger] s[i]).0@ != addr,
    decreases s.len(),
{
    if s.len() > 0 {
        lemma_lookup_none(s.skip(1), addr);
        if spec_lookup(s, addr) is None {
            assert forall|i: int| 0 <= i < s.len() implies (#[trigger] s[i]).0@ != addr by {
                if i > 0 {
                    assert(s.skip(1)[i - 1] == s[i]);
                }
            }
        } else {
            if s[0].0@ != addr {
                let i = choose|i: int| 0 <= i < s.skip(1).len() && (#[trigger] s.skip(
                    1,
                )[i]).0@ == addr;
                assert(s[i + 1] == s.skip(1)[i]);
            }
        }
    }
}

/// A found token belongs to an entry carrying the looked-up address.
pub proof fn lemma_lookup_some(s: Seq<(String, usize)>, addr: Seq<char>)
    requires
        spec_lookup(s, addr) is Some,
    ensures
        exists|i: int|
            0 <= i < s.len() && (#[trigger] s[i]).0@ == addr && s[i].1 == spec_lookup(
                s,
                addr,
            )->Some_0,
    decreases s.len(),
{
    if s.len() > 0 && s[0].0@ != addr {
        lemma_lookup_some(s.skip(1), addr);
        let i = choose|i: int|
            0 <= i < s.skip(1).len() && (#[trigger] s.skip(1)[i]).0@ == addr && s.skip(1)[i].1
                == spec_lookup(s.skip(1), addr)->Some_0;
        assert(s[i + 1] == s.skip(1)[i]);
    }
}

/// Owns the pool of connections, the address-to-token map, the token
/// free-list, and the set of tokens still owed a flush this tick. Tokens
/// are small dense integers indexing the connection array directly.
pub struct ConnectionManager {
    pub reg: PacketRegistry,
    pub handshake_payload: Vec<u8>,
    pub connections: Vec<Connection<LogBufferProcessor>>,
    pub free_tokens: VecDeque<usize>,
    pub tokens: Vec<(String, usize)>,
    pub flushables: Vec<usize>,
}

impl ConnectionManager {
    /// Structural soundness: the registry is the standard one; every
    /// mapped or free token indexes the connection array; addresses and
    /// tokens in the map are distinct; free tokens are distinct and
    /// disjoint from mapped ones; each connection sits at its own token
    /// and keeps only wire-fit packets queued.
    pub open spec fn inv(&self) -> bool {
        &&& self.reg.is_standard()
        &&& self.handshake_payload@.len() < 0x1000000
        &&& forall|i: int|
            0 <= i < self.tokens@.len() ==> (#[trigger] self.tokens@[i]).1
                < self.connections@.len()
        &&& forall|i: int, j: int|
            0 <= i < j < self.tokens@.len() ==> (#[trigger] self.tokens@[i]).0@ != (
            #[trigger] self.tokens@[j]).0@
        &&& forall|i: int, j: int|
            0 <= i < j < self.tokens@.len() ==> (#[trigger] self.tokens@[i]).1 != (
            #[trigger] self.tokens@[j]).1
        &&& forall|i: int|
            0 <= i < self.free_tokens@.len() ==> (#[trigger] self.free_tokens@[i])
                < self.connections@.len()
        &&& forall|i: int, j: int|
            0 <= i < j < self.free_tokens@.len() ==> (#[trigger] self.free_tokens@[i]) != (
            #[trigger] self.free_tokens@[j])
        &&& forall|i: int, j: int|
            0 <= i < self.free_tokens@.len() && 0 <= j < self.tokens@.len() ==> (
            #[trigger] self.free_tokens@[i]) != (#[trigger] self.tokens@[j]).1
        &&& forall|i: int|
            0 <= i < self.flushables@.len() ==> (#[trigger] self.flushables@[i])
                < self.connections@.len()
        &&& forall|t: int|
            0 <= t < self.connections@.len() ==> (#[trigger] self.connections@[t]).token == t
        &&& forall|t: int|
            0 <= t < self.connections@.len() ==> (#[trigger] self.connections@[t]).inv(self.reg)
    }

    /// The token currently mapped for an address.
    pub open spec fn spec_token_of(&self, addr: Seq<char>) -> Option<usize> {
        spec_lookup(self.tokens@, addr)
    }

    /// Fresh manager around the standard registry. The given bytes are
    /// the serialized handshake message queued first on every new
    /// connection.
    pub fn new(handshake_payload: Vec<u8>) -> (r: ConnectionManager)
        requires
            handshake_payload@.len() < 0x1000000,
        ensures
            r.inv(),
            r.connections@.len() == 0,
            r.free_tokens@.len() == 0,
            r.tokens@.len() == 0,
            r.flushables@.len() == 0,
            r.handshake_payload@ == handshake_payload@,
    {
        ConnectionManager {
            reg: packets::init(),
            handshake_payload,
            connections: Vec::new(),
            free_tokens: VecDeque::new(),
            tokens: Vec::new(),
            flushables: Vec::new(),
        }
    }

    /// Look up the token mapped for an address.
    fn lookup_token(&self, addr: &String) -> (r: Option<usize>)
        ensures
            r == self.spec_token_of(addr@),
    {
        let ghost all = self.tokens@;
        let n = self.tokens.len();
        let mut i: usize = 0;
        proof {
            assert(all.skip(0) =~= all);
        }
        while i < n
            invariant
                n == all.len(),
                i <= n,
                self.tokens@ == all,
                spec_lookup(all, addr@) == spec_lookup(all.skip(i as int), addr@),
            decreases n - i,
        {
            proof {
                assert(all.skip(i as int)[0] == all[i as int]);
                assert(all.skip(i as int).skip(1) =~= all.skip(i as int + 1));
            }
            if self.tokens[i].0 == *addr {
                return Some(self.tokens[i].1);
            }
            i = i + 1;
        }
        proof {
            assert(all.skip(n as int) =~= Seq::<(String, usize)>::empty());
        }
        None
    }

    /// Initiate a connection to `addr`, after the caller has opened the
    /// OS stream: a connection already mapped there is replaced in place
    /// with a fresh one; otherwise a token is reused from the free-list
    /// if one exists, else freshly allocated as the next array index. The
    /// new connection starts `Initializing` with the handshake queued,
    /// and the returned token is the slot to register with the poller.
    pub fn connect(&mut self, addr: String) -> (token: usize)
        requires
            old(self).inv(),
        ensures
            final(self).inv(),
            final(self).reg == old(self).reg,
            final(self).handshake_payload@ == old(self).handshake_payload@,
            final(self).flushables@ == old(self).flushables@,
            token < final(self).connections@.len(),
            ({
                let fresh = final(self).connections@[token as int];
                &&& fresh.state == ConnState::Initializing
                &&& fresh.closed_time is None
                &&& fresh.peer_info.addr@ == addr@
                &&& fresh.token == token
                &&& fresh.events@.len() == 0
                &&& fresh.tcp_encoder.packets@.len() == 1
                &&& fresh.tcp_encoder.packets@[0].packet_type == PacketType::PacketInit
                &&& fresh.tcp_encoder.packets@[0].data@ == old(self).handshake_payload@
            }),
            match spec_lookup(old(self).tokens@, addr@) {
                Some(t) => {
                    &&& token == t
                    &&& final(self).tokens@ == old(self).tokens@
                    &&& final(self).free_tokens@ == old(self).free_tokens@
                    &&& final(self).connections@.len() == old(self).connections@.len()
                },
                None => {
                    &&& final(self).tokens@ == old(self).tokens@.push((addr, token))
                    &&& if old(self).free_tokens@.len() > 0 {
                        &&& token == old(self).free_tokens@[0]
                        &&& final(self).free_tokens@ == old(self).free_tokens@.skip(1)
                        &&& final(self).connections@.len() == old(self).connections@.len()
                    } else {
                        &&& token == old(self).connections@.len()
                        &&& final(self).free_tokens@ == old(self).free_tokens@
                        &&& final(self).connections@.len() == old(self).connections@.len() + 1
                    }
                },
            },
            forall|t: int|
                0 <= t < old(self).connections@.len() && t != token ==> final(self).connections@[t] == old(self).connections@[t],
    {
        let payload = self.handshake_payload.clone();
        proof {
            assert(payload@ =~= self.handshake_payload@);
        }
        proof {
            assert(self.reg.has_spec(PacketType::PacketInit));
            assert(self.reg.fixed_size_spec(PacketType::PacketInit) is None);
        }
        let handshake = Packet::new(&self.reg, PacketType::PacketInit, payload);
        let existing = self.lookup_token(&addr);
        match existing {
            Some(token) => {
                proof {
                    lemma_lookup_some(self.tokens@, addr@);
                }
                let mut conn: Connection<LogBufferProcessor> = Connection::open(
                    addr,
                    token,
                    handshake,
                );
                conn.add_buffer_processor(LogBufferProcessor);
                self.connections[token] = conn;
                token
            },
            None => {
                proof {
                    lemma_lookup_none(self.tokens@, addr@);
                }
                let token: usize = if self.free_tokens.len() > 0 {
                    self.free_tokens.pop_front().unwrap()
                } else {
                    self.connections.len()
                };
                let mut conn: Connection<LogBufferProcessor> = Connection::open(
                    addr.clone(),
                    token,
                    handshake,
                );
                conn.add_buffer_processor(LogBufferProcessor);
                if token < self.connections.len() {
                    self.connections[token] = conn;
                } else {
                    self.connections.push(conn);
                }
                self.tokens.push((addr, token));
                token
            },
        }
    }

    /// An inert connection that briefly fills a slot while its real
    /// occupant is being worked on.
    fn placeholder(reg: &PacketRegistry, token: usize) -> (c: Connection<LogBufferProcessor>)
        requires
            reg.is_standard(),
        ensures
            c.token == token,
            c.inv(*reg),
    {
        proof {
            assert(reg.has_spec(PacketType::FatalError));
            assert(reg.fixed_size_spec(PacketType::FatalError) is None);
        }
        let blank = Packet::new(reg, PacketType::FatalError, Vec::new());
        Connection::open(String::new(), token, blank)
    }

    /// Remember that a token needs a flush this tick; a token already
    /// pending is not added twice.
    fn mark_flushable(&mut self, token: usize)
        requires
            token < old(self).connections@.len(),
        ensures
            *final(self) == (ConnectionManager { flushables: final(self).flushables, ..*old(self) }),
            final(self).flushables@ == if old(self).flushables@.contains(token) {
                old(self).flushables@
            } else {
                old(self).flushables@.push(token)
            },
    {
        let ghost all = self.flushables@;
        let n = self.flushables.len();
        let mut i: usize = 0;
        while i < n
            invariant
                n == all.len(),
                i <= n,
                self.flushables@ == all,
                forall|j: int| 0 <= j < i ==> all[j] != token,
                *self == (ConnectionManager { flushables: self.flushables, ..*old(self) }),
            decreases n - i,
        {
            if self.flushables[i] == token {
                proof {
                    assert(all.contains(token));
                }
                return ;
            }
            i = i + 1;
        }
        proof {
            assert(!all.contains(token));
        }
        self.flushables.push(token);
    }

    /// Hand over every token owed a flush, leaving the pending set empty.
    pub fn take_flushables(&mut self) -> (r: Vec<usize>)
        requires
            old(self).inv(),
        ensures
            final(self).inv(),
            *final(self) == (ConnectionManager { flushables: final(self).flushables, ..*old(self) }),
            r@ == old(self).flushables@,
            final(self).flushables@.len() == 0,
    {
        let r = self.flushables.split_off(0);
        proof {
            assert(r@ =~= old(self).flushables@);
        }
        r
    }

    /// Queue a packet on the connection at `token` and mark it for flush.
    pub fn send_token(&mut self, token: usize, packet: Packet)
        requires
            old(self).inv(),
            token < old(self).connections@.len(),
            packet.wf(old(self).reg),
        ensures
            final(self).inv(),
            final(self).reg == old(self).reg,
            final(self).handshake_payload@ == old(self).handshake_payload@,
            final(self).tokens@ == old(self).tokens@,
            final(self).free_tokens@ == old(self).free_tokens@,
            final(self).connections@.len() == old(self).connections@.len(),
            forall|t: int|
                0 <= t < old(self).connections@.len() && t != token ==> final(self).connections@[t] == old(self).connections@[t],
            final(self).connections@[token as int].tcp_encoder.packets@ == old(self).connections@[token as int].tcp_encoder.packets@.push(packet),
            final(self).connections@[token as int].state == old(self).connections@[token as int].state,
            final(self).connections@[token as int].events@ == old(self).connections@[token as int].events@,
            final(self).flushables@ == if old(self).flushables@.contains(token) {
                old(self).flushables@
            } else {
                old(self).flushables@.push(token)
            },
    {
        let mut conn = Self::placeholder(&self.reg, token);
        self.connections.set_and_swap(token, &mut conn);
        conn.send(packet);
        self.connections.set(token, conn);
        self.mark_flushable(token);
    }

    /// Enqueue a packet for `peer`, lazily creating a connection if none
    /// exists yet (connect-on-send; the second result says so, and the
    /// caller then opens the OS stream). Either way the token is marked
    /// for flush this tick.
    pub fn send(&mut self, peer: String, packet: Packet) -> (r: (usize, bool))
        requires
            old(self).inv(),
            packet.wf(old(self).reg),
        ensures
            final(self).inv(),
            final(self).reg == old(self).reg,
            r.0 < final(self).connections@.len(),
            r.1 == (spec_lookup(old(self).tokens@, peer@) is None),
            final(self).connections@[r.0 as int].tcp_encoder.packets@.last() == packet,
            final(self).flushables@ == if old(self).flushables@.contains(r.0) {
                old(self).flushables@
            } else {
                old(self).flushables@.push(r.0)
            },
            spec_lookup(old(self).tokens@, peer@) matches Some(t) ==> {
                &&& r.0 == t
                &&& final(self).tokens@ == old(self).tokens@
                &&& final(self).free_tokens@ == old(self).free_tokens@
                &&& final(self).connections@[r.0 as int].tcp_encoder.packets@ == old(self).connections@[t as int].tcp_encoder.packets@.push(packet)
                &&& forall|u: int|
                    0 <= u < old(self).connections@.len() && u != r.0 ==> final(self).connections@[u] == old(self).connections@[u]
            },
            spec_lookup(old(self).tokens@, peer@) is None ==> {
                &&& final(self).tokens@ == old(self).tokens@.push((peer, r.0))
                &&& final(self).connections@[r.0 as int].tcp_encoder.packets@.len() == 2
                &&& final(self).connections@[r.0 as int].tcp_encoder.packets@[0].packet_type
                    == PacketType::PacketInit
                &&& final(self).connections@[r.0 as int].state == ConnState::Initializing
                &&& (old(self).free_tokens@.len() > 0 ==> r.0 == old(self).free_tokens@[0])
                &&& (old(self).free_tokens@.len() == 0 ==> r.0 == old(self).connections@.len())
            },
    {
        let existing = self.lookup_token(&peer);
        let (token, created) = match existing {
            Some(t) => {
                proof {
                    lemma_lookup_some(self.tokens@, peer@);
                }
                (t, false)
            },
            None => {
                let t = self.connect(peer);
                (t, true)
            },
        };
        let mut conn = Self::placeholder(&self.reg, token);
        self.connections.set_and_swap(token, &mut conn);
        conn.send(packet);
        self.connections.set(token, conn);
        self.mark_flushable(token);
        (token, created)
    }

    /// Position of an address within the map.
    fn position_of(&self, addr: &String) -> (r: Option<usize>)
        ensures
            match r {
                Some(i) => i < self.tokens@.len() && self.tokens@[i as int].0@ == addr@,
                None => forall|i: int|
                    0 <= i < self.tokens@.len() ==> (#[trigger] self.tokens@[i]).0@ != addr@,
            },
    {
        let n = self.tokens.len();
        let mut i: usize = 0;
        while i < n
            invariant
                n == self.tokens@.len(),
                i <= n,
                forall|j: int| 0 <= j < i ==> (#[trigger] self.tokens@[j]).0@ != addr@,
            decreases n - i,
        {
            if self.tokens[i].0 == *addr {
                return Some(i);
            }
            i = i + 1;
        }
        None
    }

    /// Close the connection at `token` and record the time; the caller
    /// deregisters the slot from the poller and shuts the OS stream.
    fn close_connection(&mut self, token: usize, now_millis: u64)
        requires
            old(self).inv(),
            token < old(self).connections@.len(),
        ensures
            final(self).inv(),
            *final(self) == (ConnectionManager {
                connections: final(self).connections,
                ..*old(self)
            }),
            final(self).connections@.len() == old(self).connections@.len(),
            forall|t: int|
                0 <= t < old(self).connections@.len() && t != token ==> final(self).connections@[t] == old(self).connections@[t],
            ({
                let c = final(self).connections@[token as int];
                let a = old(self).connections@[token as int];
                &&& c.state == ConnState::Closed
                &&& c.closed_time == Some(now_millis)
                &&& !c.socket.connected
                &&& c.events@ == a.events@
                &&& crate::net::connection::plumbing_unchanged(a, c)
            }),
    {
        let mut conn = Self::placeholder(&self.reg, token);
        self.connections.set_and_swap(token, &mut conn);
        conn.close(now_millis);
        self.connections.set(token, conn);
    }

    /// Close the connection for `addr` if one exists and is not already
    /// terminal. With `free` the token returns to the free-list and the
    /// address mapping is dropped, so the slot may serve an unrelated
    /// future peer; without it, both persist for a later in-place
    /// reconnect.
    pub fn disconnect(&mut self, addr: String, free: bool, now_millis: u64)
        requires
            old(self).inv(),
        ensures
            final(self).inv(),
            final(self).reg == old(self).reg,
            final(self).handshake_payload@ == old(self).handshake_payload@,
            final(self).flushables@ == old(self).flushables@,
            final(self).connections@.len() == old(self).connections@.len(),
            spec_lookup(old(self).tokens@, addr@) is None ==> *final(self) == *old(self),
            spec_lookup(old(self).tokens@, addr@) matches Some(t) ==> {
                &&& (forall|u: int|
                    0 <= u < old(self).connections@.len() && u != t ==> final(self).connections@[u] == old(self).connections@[u])
                &&& (old(self).connections@[t as int].state != ConnState::Closed ==> {
                    let c = final(self).connections@[t as int];
                    &&& c.state == ConnState::Closed
                    &&& c.closed_time == Some(now_millis)
                    &&& !c.socket.connected
                })
                &&& (old(self).connections@[t as int].state == ConnState::Closed ==> final(self).connections@[t as int] == old(self).connections@[t as int])
                &&& if free {
                    &&& final(self).free_tokens@ == old(self).free_tokens@.push(t)
                    &&& spec_lookup(final(self).tokens@, addr@) is None
                    &&& final(self).tokens@.len() == old(self).tokens@.len() - 1
                    &&& (forall|a: Seq<char>|
                        a != addr@ ==> spec_lookup(final(self).tokens@, a) == spec_lookup(
                            old(self).tokens@,
                            a,
                        ))
                } else {
                    &&& final(self).free_tokens@ == old(self).free_tokens@
                    &&& final(self).tokens@ == old(self).tokens@
                }
            },
    {
        let found = self.lookup_token(&addr);
        match found {
            None => {},
            Some(token) => {
                proof {
                    lemma_lookup_some(self.tokens@, addr@);
                }
                if !matches!(self.connections[token].state, ConnState::Closed) {
                    self.close_connection(token, now_millis);
                }
                if free {
                    self.free_tokens.push_back(token);
                    let position = self.position_of(&addr);
                    let idx = match position {
                        Some(idx) => idx,
                        None => {
                            proof {
                                lemma_lookup_none(self.tokens@, addr@);
                                assert(false);
                            }
                            0
                        },
                    };
                    let ghost pre = self.tokens@;
                    self.tokens.remove(idx);
                    proof {
                        assert(self.tokens@ =~= pre.remove(idx as int));
                        lemma_lookup_remove(pre, idx as int, addr@);
                        assert forall|a: Seq<char>| a != addr@ implies spec_lookup(
                            self.tokens@,
                            a,
                        ) == spec_lookup(pre, a) by {
                            lemma_lookup_remove(pre, idx as int, a);
                        }
                        assert forall|i: int, j: int|
                            0 <= i < j < self.tokens@.len() implies (#[trigger] self.tokens@[i]).0@
                            != (#[trigger] self.tokens@[j]).0@ && (#[trigger] self.tokens@[i]).1
                            != (#[trigger] self.tokens@[j]).1 by {
                            let oi = if i < idx { i } else { i + 1 };
                            let oj = if j < idx { j } else { j + 1 };
                            assert(self.tokens@[i] == pre[oi]);
                            assert(self.tokens@[j] == pre[oj]);
                        }
                        assert forall|i: int|
                            0 <= i < self.tokens@.len() implies (#[trigger] self.tokens@[i]).1
                            < self.connections@.len() by {
                            let oi = if i < idx { i } else { i + 1 };
                            assert(self.tokens@[i] == pre[oi]);
                        }
                        assert forall|i: int, j: int|
                            0 <= i < self.free_tokens@.len() && 0 <= j
                                < self.tokens@.len() implies (#[trigger] self.free_tokens@[i]) != (
                            #[trigger] self.tokens@[j]).1 by {
                            let oj = if j < idx { j } else { j + 1 };
                            assert(self.tokens@[j] == pre[oj]);
                            if i < old(self).free_tokens@.len() {
                            } else {
                                assert(self.free_tokens@[i] == token);
                                assert(pre[oj].1 != token);
                            }
                        }
                    }
                }
            },
        }
    }
}

impl ConnectionManager {
    /// Dispatch a readable trigger: the chunks the caller's read loop
    /// produced go to the token's inbound queue in order. A zero-byte
    /// read or a fatal error kind tears the connection down (the caller
    /// then deregisters it); otherwise the token is owed a flush.
    pub fn readable(
        &mut self,
        token: usize,
        chunks: Vec<Vec<u8>>,
        end: ReadEnd,
        now_millis: u64,
    ) -> (closed: bool)
        requires
            old(self).inv(),
            token < old(self).connections@.len(),
        ensures
            final(self).inv(),
            final(self).reg == old(self).reg,
            final(self).tokens@ == old(self).tokens@,
            final(self).free_tokens@ == old(self).free_tokens@,
            final(self).connections@.len() == old(self).connections@.len(),
            forall|u: int|
                0 <= u < old(self).connections@.len() && u != token ==> final(self).connections@[u] == old(self).connections@[u],
            ({
                let a = old(self).connections@[token as int];
                let c = final(self).connections@[token as int];
                &&& crate::utils::byte_buffer::buffer_views(c.socket.unprocessed_in@)
                    == crate::utils::byte_buffer::buffer_views(a.socket.unprocessed_in@)
                    + crate::utils::byte_buffer::chunk_views(chunks@)
                &&& c.tcp_encoder.packets@ == a.tcp_encoder.packets@
                &&& c.tcp_encoder.buffers@ == a.tcp_encoder.buffers@
                &&& c.tcp_encoder.target_size == a.tcp_encoder.target_size
                &&& c.tcp_decoder@ == a.tcp_decoder@
                &&& c.events@ == a.events@
            }),
            closed == match end {
                ReadEnd::WouldBlock => false,
                ReadEnd::Eof => true,
                ReadEnd::Error(k) => spec_should_close(k),
            },
            closed ==> {
                &&& final(self).connections@[token as int].state == ConnState::Closed
                &&& final(self).connections@[token as int].closed_time == Some(now_millis)
                &&& final(self).flushables@ == old(self).flushables@
            },
            !closed ==> {
                &&& final(self).connections@[token as int].state == old(self).connections@[token as int].state
                &&& final(self).connections@[token as int].closed_time == old(self).connections@[token as int].closed_time
                &&& final(self).flushables@ == if old(self).flushables@.contains(token) {
                    old(self).flushables@
                } else {
                    old(self).flushables@.push(token)
                }
            },
    {
        let ghost q0 = self.connections@[token as int].socket.unprocessed_in@;
        let mut conn = Self::placeholder(&self.reg, token);
        self.connections.set_and_swap(token, &mut conn);
        let mut rest = chunks;
        let ghost all = rest@;
        let _total = rest.len();
        let mut fed: usize = 0;
        proof {
            assert(all.skip(0) =~= all);
            assert(crate::utils::byte_buffer::buffer_views(conn.socket.unprocessed_in@)
                =~~= crate::utils::byte_buffer::buffer_views(q0)
                + crate::utils::byte_buffer::chunk_views(all).take(0));
        }
        loop
            invariant
                fed <= all.len(),
                all.len() <= usize::MAX,
                rest@ == all.skip(fed as int),
                crate::utils::byte_buffer::buffer_views(conn.socket.unprocessed_in@)
                    == crate::utils::byte_buffer::buffer_views(q0) + crate::utils::byte_buffer::chunk_views(all).take(fed as int),
                conn.tcp_encoder == old(self).connections@[token as int].tcp_encoder,
                conn.tcp_decoder@ == old(self).connections@[token as int].tcp_decoder@,
                conn.events@ == old(self).connections@[token as int].events@,
                conn.state == old(self).connections@[token as int].state,
                conn.closed_time == old(self).connections@[token as int].closed_time,
                conn.token == old(self).connections@[token as int].token,
                conn.peer_info == old(self).connections@[token as int].peer_info,
                conn.socket.connected == old(self).connections@[token as int].socket.connected,
                conn.socket.buffer_processors@ == old(self).connections@[token as int].socket.buffer_processors@,
                conn.socket.unprocessed_out@ == old(self).connections@[token as int].socket.unprocessed_out@,
                conn.socket.processed_in@ == old(self).connections@[token as int].socket.processed_in@,
                conn.socket.processed_out@ == old(self).connections@[token as int].socket.processed_out@,
            ensures
                fed == all.len(),
                crate::utils::byte_buffer::buffer_views(conn.socket.unprocessed_in@)
                    == crate::utils::byte_buffer::buffer_views(q0) + crate::utils::byte_buffer::chunk_views(all),
                conn.tcp_encoder == old(self).connections@[token as int].tcp_encoder,
                conn.tcp_decoder@ == old(self).connections@[token as int].tcp_decoder@,
                conn.events@ == old(self).connections@[token as int].events@,
                conn.state == old(self).connections@[token as int].state,
                conn.closed_time == old(self).connections@[token as int].closed_time,
                conn.token == old(self).connections@[token as int].token,
                conn.peer_info == old(self).connections@[token as int].peer_info,
                conn.socket.connected == old(self).connections@[token as int].socket.connected,
                conn.socket.buffer_processors@ == old(self).connections@[token as int].socket.buffer_processors@,
                conn.socket.unprocessed_out@ == old(self).connections@[token as int].socket.unprocessed_out@,
                conn.socket.processed_in@ == old(self).connections@[token as int].socket.processed_in@,
                conn.socket.processed_out@ == old(self).connections@[token as int].socket.processed_out@,
            decreases all.len() - fed,
        {
            if rest.len() == 0 {
                proof {
                    assert(crate::utils::byte_buffer::chunk_views(all).take(fed as int)
                        =~~= crate::utils::byte_buffer::chunk_views(all));
                }
                break ;
            }
            let chunk = rest.remove(0);
            proof {
                assert(chunk == all[fed as int]);
                assert(rest@ =~= all.skip(fed as int + 1));
            }
            let ghost pre_in = conn.socket.unprocessed_in@;
            conn.read(chunk);
            proof {
                let target = crate::utils::byte_buffer::buffer_views(q0)
                    + crate::utils::byte_buffer::chunk_views(all).take(fed as int + 1);
                assert(crate::utils::byte_buffer::buffer_views(pre_in).len() == q0.len() + fed);
                assert forall|i: int|
                    0 <= i < conn.socket.unprocessed_in@.len() implies (#[trigger] conn
                    .socket
                    .unprocessed_in@[i])@ == target[i] by {
                    if i < pre_in.len() {
                        assert(conn.socket.unprocessed_in@[i] == pre_in[i]);
                        assert(crate::utils::byte_buffer::buffer_views(pre_in)[i] == pre_in[i]@);
                    } else {
                        assert(conn.socket.unprocessed_in@.last()@ == all[fed as int]@);
                        assert(target[i] == crate::utils::byte_buffer::chunk_views(
                            all,
                        )[fed as int]);
                    }
                }
                assert(crate::utils::byte_buffer::buffer_views(conn.socket.unprocessed_in@)
                    =~~= target);
            }
            fed = fed + 1;
        }
        let closed = match end {
            ReadEnd::WouldBlock => false,
            ReadEnd::Eof => true,
            ReadEnd::Error(k) => Self::should_close(k),
        };
        if closed {
            conn.close(now_millis);
            self.connections.set(token, conn);
        } else {
            self.connections.set(token, conn);
            self.mark_flushable(token);
        }
        closed
    }

    /// Whether an OS error kind is fatal to its connection.
    fn should_close(err_kind: IoErrorKind) -> (r: bool)
        ensures
            r == spec_should_close(err_kind),
    {
        match err_kind {
            IoErrorKind::ConnectionReset => true,
            IoErrorKind::ConnectionRefused => true,
            IoErrorKind::ConnectionAborted => true,
            IoErrorKind::BrokenPipe => true,
            _ => false,
        }
    }

    /// Dispatch a writable trigger: the first one marks the transport
    /// connected (the caller then disables send coalescing, signalled by
    /// the result), and pending outbound buffers run through the
    /// pipeline. The caller then writes with `next_write` and `wrote`.
    pub fn writable(&mut self, token: usize) -> (nodelay: bool)
        requires
            old(self).inv(),
        ensures
            final(self).inv(),
            final(self).reg == old(self).reg,
            final(self).tokens@ == old(self).tokens@,
            final(self).free_tokens@ == old(self).free_tokens@,
            final(self).flushables@ == old(self).flushables@,
            final(self).connections@.len() == old(self).connections@.len(),
            token >= old(self).connections@.len() ==> *final(self) == *old(self) && !nodelay,
            token < old(self).connections@.len() ==> {
                &&& (forall|u: int|
                    0 <= u < old(self).connections@.len() && u != token ==> final(self).connections@[u] == old(self).connections@[u])
                &&& nodelay == !old(self).connections@[token as int].socket.connected
                &&& final(self).connections@[token as int].socket.connected
                &&& final(self).connections@[token as int].socket.unprocessed_out@.len() == 0
                &&& final(self).connections@[token as int].state == old(self).connections@[token as int].state
                &&& final(self).connections@[token as int].events@ == old(self).connections@[token as int].events@
            },
    {
        if token >= self.connections.len() {
            return false;
        }
        let mut conn = Self::placeholder(&self.reg, token);
        self.connections.set_and_swap(token, &mut conn);
        let nodelay = conn.write();
        self.connections.set(token, conn);
        nodelay
    }

    /// The front outbound buffer of the token's transport, copied out for
    /// an OS write attempt.
    pub fn next_write(&self, token: usize) -> (r: Option<Vec<u8>>)
        requires
            token < self.connections@.len(),
        ensures
            match r {
                Some(v) => self.connections@[token as int].socket.processed_out@.len() > 0 && v@
                    == self.connections@[token as int].socket.processed_out@[0]@,
                None => self.connections@[token as int].socket.processed_out@.len() == 0,
            },
    {
        self.connections[token].socket.front_out()
    }

    /// Record that the OS accepted `n` bytes of the token's front
    /// outbound buffer: a short write advances past exactly those bytes
    /// and keeps the rest for the next writable trigger; a full write
    /// pops the buffer.
    pub fn wrote(&mut self, token: usize, n: usize)
        requires
            old(self).inv(),
            token < old(self).connections@.len(),
            old(self).connections@[token as int].socket.processed_out@.len() > 0,
            n <= old(self).connections@[token as int].socket.processed_out@[0]@.len(),
        ensures
            final(self).inv(),
            final(self).reg == old(self).reg,
            final(self).tokens@ == old(self).tokens@,
            final(self).free_tokens@ == old(self).free_tokens@,
            final(self).flushables@ == old(self).flushables@,
            final(self).connections@.len() == old(self).connections@.len(),
            forall|u: int|
                0 <= u < old(self).connections@.len() && u != token ==> final(self).connections@[u] == old(self).connections@[u],
            ({
                let a = old(self).connections@[token as int].socket.processed_out@;
                let c = final(self).connections@[token as int].socket.processed_out@;
                if n < a[0]@.len() {
                    &&& c.len() == a.len()
                    &&& c[0]@ == a[0]@.skip(n as int)
                    &&& forall|i: int| 1 <= i < a.len() ==> c[i] == a[i]
                } else {
                    c == a.skip(1)
                }
            }),
            final(self).connections@[token as int].state == old(self).connections@[token as int].state,
            final(self).connections@[token as int].events@ == old(self).connections@[token as int].events@,
    {
        let mut conn = Self::placeholder(&self.reg, token);
        self.connections.set_and_swap(token, &mut conn);
        conn.socket.mark_written(n);
        self.connections.set(token, conn);
    }

    /// Classify an OS write failure: fatal kinds tear the connection
    /// down; would-block and unrecognized kinds leave it open.
    pub fn write_error(&mut self, token: usize, kind: IoErrorKind, now_millis: u64) -> (closed:
        bool)
        requires
            old(self).inv(),
            token < old(self).connections@.len(),
        ensures
            final(self).inv(),
            closed == spec_should_close(kind),
            final(self).reg == old(self).reg,
            final(self).tokens@ == old(self).tokens@,
            final(self).free_tokens@ == old(self).free_tokens@,
            final(self).flushables@ == old(self).flushables@,
            final(self).connections@.len() == old(self).connections@.len(),
            forall|u: int|
                0 <= u < old(self).connections@.len() && u != token ==> final(self).connections@[u] == old(self).connections@[u],
            closed ==> final(self).connections@[token as int].state == ConnState::Closed
                && final(self).connections@[token as int].closed_time == Some(now_millis),
            !closed ==> *final(self) == *old(self),
    {
        if Self::should_close(kind) {
            self.close_connection(token, now_millis);
            true
        } else {
            false
        }
    }

    /// Flush one token: everything queued goes out through the pipeline,
    /// everything read comes back as decoded packets for the caller to
    /// translate and feed to `incoming`. A corrupt stream front closes
    /// the connection with a `Disconnected` event instead of resyncing.
    pub fn flush_token(&mut self, token: usize, now_millis: u64) -> (r: (Vec<Packet>, bool))
        requires
            old(self).inv(),
            token < old(self).connections@.len(),
        ensures
            final(self).inv(),
            final(self).reg == old(self).reg,
            final(self).tokens@ == old(self).tokens@,
            final(self).free_tokens@ == old(self).free_tokens@,
            final(self).flushables@ == old(self).flushables@,
            final(self).connections@.len() == old(self).connections@.len(),
            forall|u: int|
                0 <= u < old(self).connections@.len() && u != token ==> final(self).connections@[u] == old(self).connections@[u],
            crate::net::connection::spec_flush_data(
                old(self).connections@[token as int],
                final(self).connections@[token as int],
                old(self).reg,
                r.0@,
                r.1,
            ),
            !r.1 ==> {
                let a = old(self).connections@[token as int];
                let c = final(self).connections@[token as int];
                &&& c.state == a.state
                &&& c.closed_time == a.closed_time
                &&& c.events@ == a.events@
                &&& c.socket.connected == a.socket.connected
            },
            r.1 ==> {
                let a = old(self).connections@[token as int];
                let c = final(self).connections@[token as int];
                &&& c.state == ConnState::Closed
                &&& c.closed_time == Some(now_millis)
                &&& !c.socket.connected
                &&& c.events@.len() == a.events@.len() + 1
                &&& c.events@.take(a.events@.len() as int) == a.events@
                &&& c.events@.last() matches LobbyEvent::Disconnected { message } && message@
                    == "Invalid stream"@
            },
    {
        let mut conn = Self::placeholder(&self.reg, token);
        self.connections.set_and_swap(token, &mut conn);
        let (packets, corrupt) = conn.flush(&self.reg);
        if corrupt {
            let ghost pre = conn.events@;
            conn.close(now_millis);
            let message: String = "Invalid stream".to_owned();
            conn.events.push(LobbyEvent::Disconnected { message });
            proof {
                assert(conn.events@.take(pre.len() as int) =~= pre);
            }
        }
        self.connections.set(token, conn);
        (packets, corrupt)
    }

    /// Run the state machine of one connection on one decoded message.
    /// Any returned reply must be serialized, framed and flushed at once.
    pub fn incoming(&mut self, token: usize, msg: IncomingMessage, now_millis: u64) -> (reply:
        Option<OutgoingMessage>)
        requires
            old(self).inv(),
            token < old(self).connections@.len(),
        ensures
            final(self).inv(),
            final(self).reg == old(self).reg,
            final(self).tokens@ == old(self).tokens@,
            final(self).free_tokens@ == old(self).free_tokens@,
            final(self).flushables@ == old(self).flushables@,
            final(self).connections@.len() == old(self).connections@.len(),
            forall|u: int|
                0 <= u < old(self).connections@.len() && u != token ==> final(self).connections@[u] == old(self).connections@[u],
            crate::net::connection::plumbing_unchanged(
                old(self).connections@[token as int],
                final(self).connections@[token as int],
            ),
            crate::net::connection::spec_incoming_post(
                old(self).connections@[token as int],
                final(self).connections@[token as int],
                msg,
                now_millis,
                reply,
            ),
    {
        let mut conn = Self::placeholder(&self.reg, token);
        self.connections.set_and_swap(token, &mut conn);
        let reply = conn.incoming_packet(msg, now_millis);
        self.connections.set(token, conn);
        reply
    }

    /// Drain the events one connection has produced, oldest first.
    pub fn drain_conn_events(&mut self, token: usize) -> (r: Vec<LobbyEvent>)
        requires
            old(self).inv(),
            token < old(self).connections@.len(),
        ensures
            final(self).inv(),
            final(self).reg == old(self).reg,
            final(self).tokens@ == old(self).tokens@,
            final(self).free_tokens@ == old(self).free_tokens@,
            final(self).flushables@ == old(self).flushables@,
            final(self).connections@.len() == old(self).connections@.len(),
            forall|u: int|
                0 <= u < old(self).connections@.len() && u != token ==> final(self).connections@[u] == old(self).connections@[u],
            r@ == old(self).connections@[token as int].events@,
            final(self).connections@[token as int].events@.len() == 0,
            final(self).connections@[token as int].state == old(self).connections@[token as int].state,
            final(self).connections@[token as int].closed_time == old(self).connections@[token as int].closed_time,
    {
        let mut conn = Self::placeholder(&self.reg, token);
        self.connections.set_and_swap(token, &mut conn);
        let r = conn.drain_events();
        self.connections.set(token, conn);
        r
    }

    /// The lifecycle state and close time of the connection mapped for an
    /// address, if one exists.
    pub fn peer_state(&self, addr: &String) -> (r: Option<(ConnState, Option<u64>)>)
        requires
            self.inv(),
        ensures
            match spec_lookup(self.tokens@, addr@) {
                Some(t) => r matches Some(st) && st.0 == self.connections@[t as int].state
                    && st.1 == self.connections@[t as int].closed_time,
                None => r is None,
            },
    {
        let found = self.lookup_token(addr);
        match found {
            Some(token) => {
                proof {
                    lemma_lookup_some(self.tokens@, addr@);
                }
                Some((self.connections[token].state, self.connections[token].closed_time))
            },
            None => None,
        }
    }
}

/// Token reuse law: freeing a peer's token puts it on the free-list, and
/// a later connection to an unknown address takes the front of that list
/// instead of growing the pool — with one freed token, exactly the freed
/// token serves the new peer.
pub proof fn lemma_token_reuse(
    m0: ConnectionManager,
    m1: ConnectionManager,
    addr1: Seq<char>,
    addr2: Seq<char>,
    t: usize,
    token2: usize,
)
    requires
        spec_lookup(m0.tokens@, addr1) == Some(t),
        m0.free_tokens@.len() == 0,
        m1.free_tokens@ == m0.free_tokens@.push(t),
        spec_lookup(m1.tokens@, addr2) is None,
        if m1.free_tokens@.len() > 0 {
            token2 == m1.free_tokens@[0]
        } else {
            token2 == m1.connections@.len()
        },
    ensures
        token2 == t,
{
}

/// Removing an entry removes exactly its own address from the map, when
/// addresses are distinct.
pub proof fn lemma_lookup_remove(s: Seq<(String, usize)>, i: int, addr: Seq<char>)
    requires
        0 <= i < s.len(),
        forall|a: int, b: int|
            0 <= a < b < s.len() ==> (#[trigger] s[a]).0@ != (#[trigger] s[b]).0@,
    ensures
        spec_lookup(s.remove(i), addr) == if s[i].0@ == addr {
            None
        } else {
            spec_lookup(s, addr)
        },
    decreases s.len(),
{
    if i == 0 {
        assert(s.remove(0) =~= s.skip(1));
        if s[0].0@ == addr {
            lemma_lookup_none(s.skip(1), addr);
            assert forall|j: int| 0 <= j < s.skip(1).len() implies (#[trigger] s.skip(
                1,
            )[j]).0@ != addr by {
                assert(s.skip(1)[j] == s[j + 1]);
            }
        }
    } else {
        let t = s.skip(1);
        assert forall|a: int, b: int|
            0 <= a < b < t.len() implies (#[trigger] t[a]).0@ != (#[trigger] t[b]).0@ by {
            assert(t[a] == s[a + 1]);
            assert(t[b] == s[b + 1]);
        }
        lemma_lookup_remove(t, i - 1, addr);
        assert(s.remove(i).skip(1) =~= t.remove(i - 1));
        assert(s.remove(i)[0] == s[0]);
        assert(t[i - 1] == s[i]);
    }
}

} // verus!
