use vstd::prelude::*;

use crate::net::packets::{type_id, PacketRegistry, PacketType};
use crate::utils::byte_buffer::ByteBuffer;

verus! {

/// Flag bits of the header's first byte.
#[derive(Debug, Copy, Clone, PartialEq, Eq, Structural)]
pub enum PacketFlag {
    /// Bit 7, always set; a stream whose next byte lacks it is corrupt.
    FixedHeader,
    /// Bit 6: the type field is one byte instead of two.
    ShortType,
    /// Bit 5: the size field is one byte instead of three (only meaningful
    /// when the packet type has no fixed payload size).
    ShortSize,
}

impl PacketFlag {
    /// Bit mask of this flag within the flags byte.
    pub open spec fn spec_mask(self) -> u8 {
        match self {
            PacketFlag::FixedHeader => 0x80,
            PacketFlag::ShortType => 0x40,
            PacketFlag::ShortSize => 0x20,
        }
    }

    /// Bit mask of this flag within the flags byte.
    pub fn mask(self) -> (r: u8)
        ensures
            r == self.spec_mask(),
    {
        match self {
            PacketFlag::FixedHeader => 0x80,
            PacketFlag::ShortType => 0x40,
            PacketFlag::ShortSize => 0x20,
        }
    }
}

/// Whether the flag's bit is set in the flags byte.
pub open spec fn spec_has_flag(flags: u8, f: PacketFlag) -> bool {
    flags & f.spec_mask() != 0
}

/// Whether the flag's bit is set in the flags byte.
pub fn has_flag(flags: u8, f: PacketFlag) -> (r: bool)
    ensures
        r == spec_has_flag(flags, f),
{
    flags & f.mask() != 0
}

/// Static metadata keyed by packet type. When `fixed_size` is present the
/// payload length is never transmitted; it is implied by the type.
#[derive(Debug, Copy, Clone)]
pub struct PacketInfo {
    pub packet_type: PacketType,
    pub name: &'static str,
    pub fixed_size: Option<usize>,
}

/// A decoded or to-be-encoded unit: flags byte, packet type, owned payload.
pub struct Packet {
    pub flags: u8,
    pub packet_type: PacketType,
    pub data: ByteBuffer,
}

/// The flags byte that construction derives from the actual type id and
/// payload length; never caller-supplied.
pub open spec fn canonical_flags(t: PacketType, data_len: nat) -> u8 {
    if type_id(t) < 256 && data_len < 256 {
        0xE0
    } else if type_id(t) < 256 {
        0xC0
    } else if data_len < 256 {
        0xA0
    } else {
        0x80
    }
}

/// How the canonical flags byte answers the three flag tests.
pub proof fn lemma_canonical_flags(t: PacketType, data_len: nat)
    ensures
        spec_has_flag(canonical_flags(t, data_len), PacketFlag::FixedHeader),
        spec_has_flag(canonical_flags(t, data_len), PacketFlag::ShortType) <==> type_id(t) < 256,
        spec_has_flag(canonical_flags(t, data_len), PacketFlag::ShortSize) <==> data_len < 256,
{
    assert(0xE0u8 & 0x80 != 0 && 0xE0u8 & 0x40 != 0 && 0xE0u8 & 0x20 != 0) by (bit_vector);
    assert(0xC0u8 & 0x80 != 0 && 0xC0u8 & 0x40 != 0 && 0xC0u8 & 0x20 == 0) by (bit_vector);
    assert(0xA0u8 & 0x80 != 0 && 0xA0u8 & 0x40 == 0 && 0xA0u8 & 0x20 != 0) by (bit_vector);
    assert(0x80u8 & 0x80 != 0 && 0x80u8 & 0x40 == 0 && 0x80u8 & 0x20 == 0) by (bit_vector);
}

/// Big-endian bytes of the type field: one byte for ids under 256, else two.
pub open spec fn spec_type_bytes(id: u16) -> Seq<u8> {
    if id < 256 {
        seq![id as u8]
    } else {
        seq![(id / 256) as u8, (id % 256) as u8]
    }
}

/// Big-endian bytes of the size field: absent for fixed-size types, one
/// byte for payloads under 256 bytes, else three.
pub open spec fn spec_size_bytes(fixed: Option<usize>, len: nat) -> Seq<u8> {
    match fixed {
        Some(_) => Seq::<u8>::empty(),
        None => if len < 256 {
            seq![len as u8]
        } else {
            seq![(len / 65536) as u8, ((len / 256) % 256) as u8, (len % 256) as u8]
        },
    }
}

/// Complete wire image of a packet: flags byte, type field, size field,
/// payload.
pub open spec fn spec_encode(reg: PacketRegistry, p: Packet) -> Seq<u8> {
    seq![p.flags] + spec_type_bytes(type_id(p.packet_type)) + spec_size_bytes(
        reg.fixed_size_spec(p.packet_type),
        p.data@.len(),
    ) + p.data@
}

impl Packet {
    /// A packet fit for the wire under the given registry: its type is
    /// registered, its flags are the canonical ones, its payload obeys the
    /// type's fixed size if any, and its length fits the three-byte size
    /// field.
    pub open spec fn wf(self, reg: PacketRegistry) -> bool {
        &&& reg.has_spec(self.packet_type)
        &&& self.flags == canonical_flags(self.packet_type, self.data@.len())
        &&& match reg.fixed_size_spec(self.packet_type) {
            Some(n) => self.data@.len() == n,
            None => true,
        }
        &&& self.data@.len() < 0x1000000
    }

    /// Build a packet for a registered type, deriving the flags byte from
    /// the type id and payload length. A fixed-size type must be given a
    /// payload of exactly that size.
    pub fn new(reg: &PacketRegistry, packet_type: PacketType, data: Vec<u8>) -> (r: Packet)
        requires
            reg.wf(),
            reg.has_spec(packet_type),
            match reg.fixed_size_spec(packet_type) {
                Some(n) => data@.len() == n,
                None => true,
            },
            data@.len() < 0x1000000,
        ensures
            r.wf(*reg),
            r.packet_type == packet_type,
            r.data@ == data@,
            r.flags == canonical_flags(packet_type, data@.len()),
    {
        let short_type = packet_type.to_u16() < 256;
        let short_size = data.len() < 256;
        let flags: u8 = if short_type && short_size {
            0xE0
        } else if short_type {
            0xC0
        } else if short_size {
            0xA0
        } else {
            0x80
        };
        Packet { flags, packet_type, data: ByteBuffer::from_vec(data) }
    }

    /// Payload length in bytes.
    pub fn data_size(&self) -> (r: usize)
        ensures
            r == self.data@.len(),
    {
        self.data.len()
    }

    /// Whether the flags byte marks a one-byte type field.
    pub fn short_type(&self) -> (r: bool)
        ensures
            r == spec_has_flag(self.flags, PacketFlag::ShortType),
    {
        has_flag(self.flags, PacketFlag::ShortType)
    }

    /// Whether the flags byte marks a one-byte size field.
    pub fn short_size(&self) -> (r: bool)
        ensures
            r == spec_has_flag(self.flags, PacketFlag::ShortSize),
    {
        has_flag(self.flags, PacketFlag::ShortSize)
    }
}

/// Header sizing: which short-form flags a well-formed packet carries and
/// how long its wire image is. The type field shrinks to one byte exactly
/// for ids under 256, and the size field to one byte exactly for payloads
/// under 256 bytes (and vanishes for fixed-size types).
pub proof fn lemma_header_sizing(reg: PacketRegistry, p: Packet)
    requires
        reg.wf(),
        p.wf(reg),
    ensures
        spec_has_flag(p.flags, PacketFlag::ShortType) <==> type_id(p.packet_type) < 256,
        spec_has_flag(p.flags, PacketFlag::ShortSize) <==> p.data@.len() < 256,
        spec_encode(reg, p).len() == 1 + (if type_id(p.packet_type) < 256 {
            1int
        } else {
            2int
        }) + (match reg.fixed_size_spec(p.packet_type) {
            Some(_) => 0int,
            None => if p.data@.len() < 256 {
                1int
            } else {
                3int
            },
        }) + p.data@.len(),
{
    lemma_canonical_flags(p.packet_type, p.data@.len());
}

impl Clone for Packet {
    fn clone(&self) -> (r: Self)
        ensures
            r.flags == self.flags,
            r.packet_type == self.packet_type,
            r.data@ == self.data@,
    {
        Packet { flags: self.flags, packet_type: self.packet_type, data: self.data.clone() }
    }
}

} // verus!
