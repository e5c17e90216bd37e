use vstd::prelude::*;
use vstd::slice::slice_to_vec;

use crate::net::packet::{
    spec_encode, spec_has_flag, spec_size_bytes, spec_type_bytes, Packet, PacketFlag,
};
use crate::net::packets::{self, spec_type_of_id, type_id, PacketRegistry, PacketType};
use crate::utils::byte_buffer::ByteBuffer;

verus! {

#[verifier::external_type_specification]
#[verifier::external_body]
pub struct ExBytesMut(bytes::BytesMut);

/// The byte contents of a `bytes::BytesMut` handle, front to back.
pub uninterp spec fn bytes_mut_seq(b: bytes::BytesMut) -> Seq<u8>;

/// Relies on `BytesMut::with_capacity`: the new handle is empty.
#[verifier::external_body]
fn bytes_mut_with_capacity(capacity: usize) -> (r: bytes::BytesMut)
    ensures
        bytes_mut_seq(r) == Seq::<u8>::empty(),
{
    bytes::BytesMut::with_capacity(capacity)
}

/// Relies on `BytesMut::extend_from_slice`: the slice's bytes are appended
/// after the bytes already held.
#[verifier::external_body]
fn bytes_mut_extend(b: &mut bytes::BytesMut, data: &[u8])
    ensures
        bytes_mut_seq(*final(b)) == bytes_mut_seq(*old(b)) + data@,
{
    b.extend_from_slice(data)
}

/// Relies on `BytesMut::split_to`: afterwards `self` holds elements
/// `[at, len)` and the returned handle holds `[0, at)`; panics if
/// `at > len`, so that case is excluded here.
#[verifier::external_body]
fn bytes_mut_split_to(b: &mut bytes::BytesMut, at: usize) -> (r: bytes::BytesMut)
    requires
        at <= bytes_mut_seq(*old(b)).len(),
    ensures
        bytes_mut_seq(*final(b)) == bytes_mut_seq(*old(b)).skip(at as int),
        bytes_mut_seq(r) == bytes_mut_seq(*old(b)).take(at as int),
{
    b.split_to(at)
}

/// Relies on `BytesMut`'s `Deref<Target = [u8]>`: the slice is the
/// handle's whole contents.
#[verifier::external_body]
fn bytes_mut_as_slice(b: &bytes::BytesMut) -> (r: &[u8])
    ensures
        r@ == bytes_mut_seq(*b),
{
    &b[..]
}

/// What one decode attempt would make of the front of a byte stream, at
/// the specification level.
pub enum SpecDecodeStep {
    /// Not enough bytes buffered for a complete header and payload.
    NeedMore,
    /// The stream cannot be a packet boundary: the fixed-header bit is
    /// missing or the type id is unregistered.
    Corrupt,
    /// A complete packet sits at the front, occupying `consumed` bytes.
    Found { flags: u8, packet_type: PacketType, data: Seq<u8>, consumed: int },
}

/// Decode one packet from the front of `s`: validate the fixed-header bit,
/// read the type field, resolve the payload length from the registry or
/// the size field, and hold back until header and payload are complete.
/// The reported flags are the canonical ones a freshly built packet
/// carries.
pub open spec fn spec_decode(reg: PacketRegistry, s: Seq<u8>) -> SpecDecodeStep {
    if s.len() < 1 {
        SpecDecodeStep::NeedMore
    } else {
        let flags = s[0];
        if !spec_has_flag(flags, PacketFlag::FixedHeader) {
            SpecDecodeStep::Corrupt
        } else {
            let type_len: int = if spec_has_flag(flags, PacketFlag::ShortType) {
                1
            } else {
                2
            };
            if s.len() < 1 + type_len {
                SpecDecodeStep::NeedMore
            } else {
                let id: int = if type_len == 1 {
                    s[1] as int
                } else {
                    (s[1] as int) * 256 + s[2] as int
                };
                match spec_type_of_id(id as u16) {
                    None => SpecDecodeStep::Corrupt,
                    Some(t) => if !reg.has_spec(t) {
                        SpecDecodeStep::Corrupt
                    } else {
                        let fixed = reg.fixed_size_spec(t);
                        let size_len: int = match fixed {
                            Some(_) => 0,
                            None => if spec_has_flag(flags, PacketFlag::ShortSize) {
                                1
                            } else {
                                3
                            },
                        };
                        let header_len = 1 + type_len + size_len;
                        if s.len() < header_len {
                            SpecDecodeStep::NeedMore
                        } else {
                            let data_len: int = match fixed {
                                Some(n) => n as int,
                                None => if size_len == 1 {
                                    s[1 + type_len] as int
                                } else {
                                    (s[1 + type_len] as int) * 65536 + (s[2 + type_len] as int)
                                        * 256 + s[3 + type_len] as int
                                },
                            };
                            if s.len() < header_len + data_len {
                                SpecDecodeStep::NeedMore
                            } else {
                                SpecDecodeStep::Found {
                                    flags: crate::net::packet::canonical_flags(
                                        t,
                                        data_len as nat,
                                    ),
                                    packet_type: t,
                                    data: s.subrange(header_len, header_len + data_len),
                                    consumed: header_len + data_len,
                                }
                            }
                        }
                    },
                }
            }
        }
    }
}

/// A found packet occupies at least its two-byte minimum header and at
/// most the whole buffered stream, and its payload fits the wire format.
pub proof fn lemma_decode_found_bounds(reg: PacketRegistry, s: Seq<u8>)
    requires
        reg.wf(),
        spec_decode(reg, s) is Found,
    ensures
        spec_decode(reg, s) matches SpecDecodeStep::Found { data, consumed, .. } ==> {
            &&& 2 <= consumed <= s.len()
            &&& data.len() < 0x1000000
            &&& data.len() <= consumed
        },
{
}

/// Batch round trip: laying any run of well-formed packets' wire images
/// end to end and draining the result returns exactly those packets, in
/// order, with nothing left over and no corruption.
pub proof fn lemma_drain_batch(reg: PacketRegistry, s: Seq<Packet>)
    requires
        reg.wf(),
        forall|i: int| 0 <= i < s.len() ==> (#[trigger] s[i]).wf(reg),
    ensures
        ({
            let dr = spec_drain(reg, crate::net::packet_encoder::spec_encode_all(reg, s));
            &&& dr.0.len() == s.len()
            &&& (forall|i: int|
                0 <= i < s.len() ==> {
                    &&& (#[trigger] dr.0[i]).flags == s[i].flags
                    &&& dr.0[i].packet_type == s[i].packet_type
                    &&& dr.0[i].data == s[i].data@
                })
            &&& dr.1 == Seq::<u8>::empty()
            &&& dr.2 == false
        }),
    decreases s.len(),
{
    let stream = crate::net::packet_encoder::spec_encode_all(reg, s);
    if s.len() == 0 {
        assert(spec_decode(reg, stream) is NeedMore);
    } else {
        let enc0 = spec_encode(reg, s[0]);
        let rest = crate::net::packet_encoder::spec_encode_all(reg, s.skip(1));
        assert(stream == enc0 + rest);
        lemma_decode_encode(reg, s[0], rest);
        lemma_decode_found_bounds(reg, stream);
        assert(stream.skip(enc0.len() as int) =~= rest);
        lemma_drain_batch(reg, s.skip(1));
        let dr = spec_drain(reg, stream);
        let dr1 = spec_drain(reg, rest);
        assert forall|i: int| 0 <= i < s.len() implies {
            &&& (#[trigger] dr.0[i]).flags == s[i].flags
            &&& dr.0[i].packet_type == s[i].packet_type
            &&& dr.0[i].data == s[i].data@
        } by {
            if i > 0 {
                assert(dr.0[i] == dr1.0[i - 1]);
                assert(s.skip(1)[i - 1] == s[i]);
            }
        }
    }
}

/// A packet type that fits the registry decodes back from its own wire
/// identity.
proof fn lemma_type_id_roundtrip(t: PacketType)
    requires
        type_id(t) < crate::net::packets::PACKET_TYPE_COUNT,
    ensures
        spec_type_of_id(type_id(t)) == Some(t),
{
}

/// Splitting a three-byte big-endian size field back into a length
/// reverses the split the encoder made.
proof fn lemma_u24_roundtrip(x: u32)
    requires
        x < 0x1000000,
    ensures
        (x / 65536) * 65536 + ((x / 256) % 256) * 256 + x % 256 == x,
{
    assert(x < 0x1000000 ==> (x / 65536) * 65536 + ((x / 256) % 256) * 256 + x % 256 == x)
        by (bit_vector);
}

/// Round trip: decoding a stream that starts with the wire image of a
/// well-formed packet finds exactly that packet, whatever follows it, and
/// consumes exactly the image.
pub proof fn lemma_decode_encode(reg: PacketRegistry, p: Packet, rest: Seq<u8>)
    requires
        reg.wf(),
        p.wf(reg),
    ensures
        spec_decode(reg, spec_encode(reg, p) + rest) matches SpecDecodeStep::Found {
            flags,
            packet_type,
            data,
            consumed,
        } && flags == p.flags && packet_type == p.packet_type && data == p.data@ && consumed
            == spec_encode(reg, p).len(),
{
    let t = p.packet_type;
    let tid = type_id(t);
    let d = p.data@;
    let fixed = reg.fixed_size_spec(t);
    let enc = spec_encode(reg, p);
    let s = enc + rest;
    let tb = spec_type_bytes(tid);
    let sb = spec_size_bytes(fixed, d.len());
    crate::net::packet::lemma_canonical_flags(t, d.len());
    lemma_type_id_roundtrip(t);
    assert(s[0] == p.flags);
    let type_len: int = if tid < 256 { 1 } else { 2 };
    if tid < 256 {
        assert(s[1] == tb[0]);
        assert(s[1] as int == tid);
    } else {
        assert(s[1] == tb[0]);
        assert(s[2] == tb[1]);
        assert((s[1] as int) * 256 + s[2] as int == (tid / 256) * 256 + tid % 256);
    }
    let size_len: int = match fixed {
        Some(_) => 0,
        None => if d.len() < 256 { 1 } else { 3 },
    };
    let header_len = 1 + type_len + size_len;
    assert(enc.len() == 1 + tb.len() + sb.len() + d.len());
    match fixed {
        Some(n) => {},
        None => {
            if d.len() < 256 {
                assert(s[1 + type_len] == sb[0]);
                assert(s[1 + type_len] as int == d.len());
            } else {
                assert(s[1 + type_len] == sb[0]);
                assert(s[2 + type_len] == sb[1]);
                assert(s[3 + type_len] == sb[2]);
                lemma_u24_roundtrip(d.len() as u32);
                assert((s[1 + type_len] as int) * 65536 + (s[2 + type_len] as int) * 256 + s[3
                    + type_len] as int == d.len());
            }
        },
    }
    assert(s.len() >= header_len + d.len());
    assert(s.subrange(header_len, header_len + d.len() as int) =~= d);
    assert(spec_decode(reg, s) matches SpecDecodeStep::Found { flags, packet_type, data, consumed }
        && flags == p.flags && packet_type == p.packet_type && data == p.data@ && consumed
        == enc.len());
}

/// Partial-stream robustness: any strict prefix of a well-formed packet's
/// wire image decodes to nothing rather than to a wrong packet.
pub proof fn lemma_decode_prefix(reg: PacketRegistry, p: Packet, m: int)
    requires
        reg.wf(),
        p.wf(reg),
        0 <= m < spec_encode(reg, p).len(),
    ensures
        spec_decode(reg, spec_encode(reg, p).take(m)) is NeedMore,
{
    let t = p.packet_type;
    let tid = type_id(t);
    let d = p.data@;
    let fixed = reg.fixed_size_spec(t);
    let enc = spec_encode(reg, p);
    let s = enc.take(m);
    let tb = spec_type_bytes(tid);
    let sb = spec_size_bytes(fixed, d.len());
    crate::net::packet::lemma_canonical_flags(t, d.len());
    lemma_type_id_roundtrip(t);
    assert(enc.len() == 1 + tb.len() + sb.len() + d.len());
    if m == 0 {
        return ;
    }
    assert(s[0] == p.flags);
    let type_len: int = if tid < 256 { 1 } else { 2 };
    if m < 1 + type_len {
        return ;
    }
    if tid < 256 {
        assert(s[1] == tb[0]);
        assert(s[1] as int == tid);
    } else {
        assert(s[1] == tb[0]);
        assert(s[2] == tb[1]);
        assert((s[1] as int) * 256 + s[2] as int == (tid / 256) * 256 + tid % 256);
    }
    let size_len: int = match fixed {
        Some(_) => 0,
        None => if d.len() < 256 { 1 } else { 3 },
    };
    let header_len = 1 + type_len + size_len;
    if m < header_len {
        return ;
    }
    match fixed {
        Some(n) => {},
        None => {
            if d.len() < 256 {
                assert(s[1 + type_len] == sb[0]);
                assert(s[1 + type_len] as int == d.len());
            } else {
                assert(s[1 + type_len] == sb[0]);
                assert(s[2 + type_len] == sb[1]);
                assert(s[3 + type_len] == sb[2]);
                lemma_u24_roundtrip(d.len() as u32);
                assert((s[1 + type_len] as int) * 65536 + (s[2 + type_len] as int) * 256 + s[3
                    + type_len] as int == d.len());
            }
        },
    }
    assert(s.len() == m < header_len + d.len());
}

/// Specification-level image of one decoded packet.
pub struct SpecPacketImage {
    pub flags: u8,
    pub packet_type: PacketType,
    pub data: Seq<u8>,
}

/// Everything repeated decoding drains from a stream: the images of the
/// complete packets at its front in order, the unconsumed trailing bytes,
/// and whether draining stopped on a corrupt front.
pub open spec fn spec_drain(reg: PacketRegistry, s: Seq<u8>) -> (Seq<SpecPacketImage>, Seq<
    u8,
>, bool)
    decreases s.len(),
{
    match spec_decode(reg, s) {
        SpecDecodeStep::Found { flags, packet_type, data, consumed } => if 1 <= consumed
            <= s.len() {
            let r = spec_drain(reg, s.skip(consumed));
            (seq![SpecPacketImage { flags, packet_type, data }] + r.0, r.1, r.2)
        } else {
            (Seq::<SpecPacketImage>::empty(), s, false)
        },
        SpecDecodeStep::NeedMore => (Seq::<SpecPacketImage>::empty(), s, false),
        SpecDecodeStep::Corrupt => (Seq::<SpecPacketImage>::empty(), s, true),
    }
}

/// What one exec decode attempt returned.
pub enum DecodeStep {
    /// Not enough bytes buffered; try again after more input.
    NeedMore,
    /// The stream is not at a packet boundary; it cannot be re-synced.
    Corrupt,
    /// One complete packet, removed from the stream.
    Packet(Packet),
}

/// Reassembles packets from an append-only byte stream, holding back on
/// underflow; only unconsumed trailing bytes are retained across calls.
pub struct PacketDecoder {
    stream: bytes::BytesMut,
}

impl View for PacketDecoder {
    type V = Seq<u8>;

    closed spec fn view(&self) -> Seq<u8> {
        bytes_mut_seq(self.stream)
    }
}

impl PacketDecoder {
    /// Fresh decoder with an empty stream.
    pub fn new() -> (r: PacketDecoder)
        ensures
            r@ == Seq::<u8>::empty(),
    {
        PacketDecoder { stream: bytes_mut_with_capacity(8192) }
    }

    /// Append a received buffer behind the bytes already pending.
    pub fn push_buffer(&mut self, buffer: ByteBuffer)
        ensures
            final(self)@ == old(self)@ + buffer@,
    {
        bytes_mut_extend(&mut self.stream, buffer.as_slice())
    }

    /// Number of bytes pending.
    pub fn remaining(&self) -> (r: usize)
        ensures
            r == self@.len(),
    {
        bytes_mut_as_slice(&self.stream).len()
    }

    /// The pending byte at position `i`.
    fn byte_at(&self, i: usize) -> (r: u8)
        requires
            i < self@.len(),
        ensures
            r == self@[i as int],
    {
        *vstd::slice::slice_index_get(bytes_mut_as_slice(&self.stream), i)
    }

    /// Remove and return the first `n` pending bytes.
    fn take_front(&mut self, n: usize) -> (r: Vec<u8>)
        requires
            n <= old(self)@.len(),
        ensures
            r@ == old(self)@.take(n as int),
            final(self)@ == old(self)@.skip(n as int),
    {
        let part = bytes_mut_split_to(&mut self.stream, n);
        slice_to_vec(bytes_mut_as_slice(&part))
    }

    /// Attempt to decode one packet from the front of the stream. On
    /// success exactly the packet's header and payload bytes leave the
    /// stream; otherwise the stream is unchanged.
    pub fn try_next_packet(&mut self, reg: &PacketRegistry) -> (r: DecodeStep)
        requires
            reg.wf(),
        ensures
            spec_decode(*reg, old(self)@) is NeedMore ==> r is NeedMore && final(self)@ == old(
                self,
            )@,
            spec_decode(*reg, old(self)@) is Corrupt ==> r is Corrupt && final(self)@ == old(
                self,
            )@,
            spec_decode(*reg, old(self)@) matches SpecDecodeStep::Found {
                flags,
                packet_type,
                data,
                consumed,
            } ==> {
                &&& r matches DecodeStep::Packet(p)
                &&& p.flags == flags
                &&& p.packet_type == packet_type
                &&& p.data@ == data
                &&& p.wf(*reg)
                &&& final(self)@ == old(self)@.skip(consumed)
            },
    {
        let n = self.remaining();
        if n < 1 {
            return DecodeStep::NeedMore;
        }
        let flags = self.byte_at(0);
        if !crate::net::packet::has_flag(flags, PacketFlag::FixedHeader) {
            return DecodeStep::Corrupt;
        }
        let type_len: usize = if crate::net::packet::has_flag(flags, PacketFlag::ShortType) {
            1
        } else {
            2
        };
        if n < 1 + type_len {
            return DecodeStep::NeedMore;
        }
        let id: u16 = if type_len == 1 {
            self.byte_at(1) as u16
        } else {
            (self.byte_at(1) as u16) * 256 + (self.byte_at(2) as u16)
        };
        let packet_type = match PacketType::from_u16(id) {
            Some(t) => t,
            None => { return DecodeStep::Corrupt; },
        };
        if !packets::has(reg, packet_type) {
            return DecodeStep::Corrupt;
        }
        let info = packets::get(reg, packet_type);
        let size_len: usize = match info.fixed_size {
            Some(_) => 0,
            None => if crate::net::packet::has_flag(flags, PacketFlag::ShortSize) {
                1
            } else {
                3
            },
        };
        let header_len = 1 + type_len + size_len;
        if n < header_len {
            return DecodeStep::NeedMore;
        }
        let data_len: usize = match info.fixed_size {
            Some(fs) => fs,
            None => if size_len == 1 {
                self.byte_at(1 + type_len) as usize
            } else {
                (self.byte_at(1 + type_len) as usize) * 65536 + (self.byte_at(2 + type_len)
                    as usize) * 256 + (self.byte_at(3 + type_len) as usize)
            },
        };
        if n - header_len < data_len {
            return DecodeStep::NeedMore;
        }
        let ghost s = self@;
        let _header = self.take_front(header_len);
        let data = self.take_front(data_len);
        proof {
            assert(data@ =~= s.subrange(header_len as int, header_len + data_len));
            assert(self@ =~= s.skip(header_len + data_len));
        }
        let packet = Packet::new(reg, packet_type, data);
        DecodeStep::Packet(packet)
    }

    /// Decode one packet if a complete one is buffered. The caller keeps
    /// the stream at packet boundaries, so a corrupt front is excluded.
    pub fn next_packet(&mut self, reg: &PacketRegistry) -> (r: Option<Packet>)
        requires
            reg.wf(),
            !(spec_decode(*reg, old(self)@) is Corrupt),
        ensures
            spec_decode(*reg, old(self)@) is NeedMore ==> r is None && final(self)@ == old(
                self,
            )@,
            spec_decode(*reg, old(self)@) matches SpecDecodeStep::Found {
                flags,
                packet_type,
                data,
                consumed,
            } ==> {
                &&& r matches Some(p)
                &&& p.flags == flags
                &&& p.packet_type == packet_type
                &&& p.data@ == data
                &&& p.wf(*reg)
                &&& final(self)@ == old(self)@.skip(consumed)
            },
    {
        match self.try_next_packet(reg) {
            DecodeStep::Packet(p) => Some(p),
            DecodeStep::NeedMore => None,
            DecodeStep::Corrupt => {
                proof {
                    assert(false);
                }
                None
            },
        }
    }

    /// Drain every fully-buffered packet from the front of the stream, in
    /// arrival order. Returns the packets and whether draining stopped on
    /// a corrupt front; only unconsumed trailing bytes stay buffered.
    pub fn drain_packets(&mut self, reg: &PacketRegistry) -> (r: (Vec<Packet>, bool))
        requires
            reg.wf(),
        ensures
            r.0@.len() == spec_drain(*reg, old(self)@).0.len(),
            forall|i: int|
                0 <= i < r.0@.len() ==> {
                    let image = spec_drain(*reg, old(self)@).0[i];
                    &&& (#[trigger] r.0@[i]).flags == image.flags
                    &&& r.0@[i].packet_type == image.packet_type
                    &&& r.0@[i].data@ == image.data
                    &&& r.0@[i].wf(*reg)
                },
            r.1 == spec_drain(*reg, old(self)@).2,
            final(self)@ == spec_drain(*reg, old(self)@).1,
    {
        let ghost orig = self@;
        let mut out: Vec<Packet> = Vec::new();
        loop
            invariant
                reg.wf(),
                spec_drain(*reg, orig).0 =~= out@.map_values(
                    |p: Packet| SpecPacketImage { flags: p.flags, packet_type: p.packet_type, data: p.data@ },
                ) + spec_drain(*reg, self@).0,
                spec_drain(*reg, orig).1 == spec_drain(*reg, self@).1,
                spec_drain(*reg, orig).2 == spec_drain(*reg, self@).2,
                forall|i: int| 0 <= i < out@.len() ==> (#[trigger] out@[i]).wf(*reg),
            ensures
                spec_drain(*reg, self@).0.len() == 0,
                spec_drain(*reg, self@).1 == self@,
                out@.len() == spec_drain(*reg, orig).0.len(),
                forall|i: int|
                    0 <= i < out@.len() ==> {
                        let image = spec_drain(*reg, orig).0[i];
                        &&& (#[trigger] out@[i]).flags == image.flags
                        &&& out@[i].packet_type == image.packet_type
                        &&& out@[i].data@ == image.data
                        &&& out@[i].wf(*reg)
                    },
            decreases self@.len(),
        {
            let ghost cur = self@;
            proof {
                if spec_decode(*reg, cur) is Found {
                    lemma_decode_found_bounds(*reg, cur);
                }
            }
            match self.try_next_packet(reg) {
                DecodeStep::Packet(p) => {
                    out.push(p);
                    proof {
                        let img = SpecPacketImage {
                            flags: p.flags,
                            packet_type: p.packet_type,
                            data: p.data@,
                        };
                        assert(spec_drain(*reg, cur).0 =~= seq![img] + spec_drain(
                            *reg,
                            self@,
                        ).0);
                        assert(out@.map_values(
                            |q: Packet| SpecPacketImage { flags: q.flags, packet_type: q.packet_type, data: q.data@ },
                        ) =~= out@.subrange(0, out@.len() - 1).map_values(
                            |q: Packet| SpecPacketImage { flags: q.flags, packet_type: q.packet_type, data: q.data@ },
                        ).push(img));
                        assert(out@.subrange(0, out@.len() - 1).map_values(
                            |q: Packet| SpecPacketImage { flags: q.flags, packet_type: q.packet_type, data: q.data@ },
                        ) + spec_drain(*reg, cur).0 =~= out@.map_values(
                            |q: Packet| SpecPacketImage { flags: q.flags, packet_type: q.packet_type, data: q.data@ },
                        ) + spec_drain(*reg, self@).0);
                    }
                },
                DecodeStep::NeedMore => {
                    proof {
                        assert(spec_drain(*reg, self@).0.len() == 0);
                    }
                    break ;
                },
                DecodeStep::Corrupt => {
                    proof {
                        assert(spec_drain(*reg, self@).0.len() == 0);
                    }
                    break ;
                },
            }
        }
        let corrupt = match self.try_next_packet(reg) {
            DecodeStep::Corrupt => true,
            _ => false,
        };
        (out, corrupt)
    }
}

} // verus!
