use vstd::prelude::*;

use std::collections::VecDeque;

use crate::net::packet::{spec_encode, Packet};
use crate::net::packets::{self, PacketRegistry};
use crate::utils::byte_buffer::ByteBuffer;

verus! {

/// Upper bound on the wire header length, used when judging whether a
/// packet still fits a buffer under construction.
pub const MAX_PACKET_HEADER_SIZE: usize = 22;

/// Concatenated wire image of a run of packets, in order.
pub open spec fn spec_encode_all(reg: PacketRegistry, s: Seq<Packet>) -> Seq<u8>
    decreases s.len(),
{
    if s.len() == 0 {
        Seq::<u8>::empty()
    } else {
        spec_encode(reg, s[0]) + spec_encode_all(reg, s.skip(1))
    }
}

/// Extending a run by one packet appends that packet's wire image.
pub proof fn lemma_encode_all_snoc(reg: PacketRegistry, s: Seq<Packet>, j: int)
    requires
        0 <= j < s.len(),
    ensures
        spec_encode_all(reg, s.take(j + 1)) == spec_encode_all(reg, s.take(j)) + spec_encode(
            reg,
            s[j],
        ),
    decreases j,
{
    if j == 0 {
        assert(s.take(1).skip(1) =~= Seq::<Packet>::empty());
        assert(s.take(0) =~= Seq::<Packet>::empty());
        assert(spec_encode_all(reg, Seq::<Packet>::empty()) == Seq::<u8>::empty());
        assert(s.take(1)[0] == s[0]);
        assert(spec_encode_all(reg, s.take(1)) == spec_encode(reg, s.take(1)[0])
            + spec_encode_all(reg, s.take(1).skip(1)));
        assert(spec_encode_all(reg, s.take(1)) =~= spec_encode(reg, s[0]));
        assert(spec_encode_all(reg, s.take(0)) + spec_encode(reg, s[0]) =~= spec_encode(
            reg,
            s[0],
        ));
    } else {
        let t = s.skip(1);
        lemma_encode_all_snoc(reg, t, j - 1);
        assert(s.take(j + 1).skip(1) =~= t.take(j));
        assert(s.take(j).skip(1) =~= t.take(j - 1));
        assert(s.take(j + 1)[0] == s[0]);
        assert(s.take(j)[0] == s[0]);
        assert(t[j - 1] == s[j]);
        assert(spec_encode_all(reg, s.take(j + 1)) == spec_encode(reg, s[0]) + spec_encode_all(
            reg,
            t.take(j),
        ));
        assert(spec_encode(reg, s[0]) + (spec_encode_all(reg, t.take(j - 1)) + spec_encode(
            reg,
            s[j],
        )) =~= (spec_encode(reg, s[0]) + spec_encode_all(reg, t.take(j - 1))) + spec_encode(
            reg,
            s[j],
        ));
    }
}

/// Whether the packet at position `j` of the queue still fits a buffer
/// already holding the wire image of the packets before it, under the
/// conservative header bound.
pub open spec fn fits(reg: PacketRegistry, s: Seq<Packet>, j: int, target: nat) -> bool {
    s[j].data@.len() + MAX_PACKET_HEADER_SIZE + spec_encode_all(reg, s.take(j)).len() <= target
}

/// First position at or after `j` where packing stops: the end of the
/// queue, or the first packet that no longer fits.
pub open spec fn greedy_from(reg: PacketRegistry, s: Seq<Packet>, target: nat, j: int) -> int
    decreases s.len() - j when j <= s.len()
{
    if j >= s.len() {
        j
    } else if !fits(reg, s, j, target) {
        j
    } else {
        greedy_from(reg, s, target, j + 1)
    }
}

/// How many queued packets one packing pass takes: none if the queue is
/// empty, else at least the first packet and then greedily as many as fit.
pub open spec fn greedy_count(reg: PacketRegistry, s: Seq<Packet>, target: nat) -> int {
    if s.len() == 0 {
        0
    } else {
        greedy_from(reg, s, target, 1)
    }
}

/// `greedy_from` lands exactly on the first stopping position.
proof fn lemma_greedy_from_reaches(
    reg: PacketRegistry,
    s: Seq<Packet>,
    target: nat,
    i: int,
    j: int,
)
    requires
        0 <= i <= j <= s.len(),
        forall|k: int| i <= k < j ==> fits(reg, s, k, target),
        j == s.len() || !fits(reg, s, j, target),
    ensures
        greedy_from(reg, s, target, i) == j,
    decreases j - i,
{
    if i < j {
        lemma_greedy_from_reaches(reg, s, target, i + 1, j);
    }
}

/// The stopping position never lies before where the search began nor
/// past the end of the queue.
pub proof fn lemma_greedy_bounds(reg: PacketRegistry, s: Seq<Packet>, target: nat, j: int)
    requires
        0 <= j <= s.len(),
    ensures
        j <= greedy_from(reg, s, target, j) <= s.len(),
    decreases s.len() - j,
{
    if j < s.len() && fits(reg, s, j, target) {
        lemma_greedy_bounds(reg, s, target, j + 1);
    }
}

/// Batching: when every queued packet beyond the first still fits under
/// the target, one packing pass takes the whole queue into a single
/// buffer, in enqueue order.
pub proof fn lemma_batch_all(reg: PacketRegistry, s: Seq<Packet>, target: nat)
    requires
        s.len() > 0,
        forall|k: int| 1 <= k < s.len() ==> fits(reg, s, k, target),
    ensures
        greedy_count(reg, s, target) == s.len(),
{
    lemma_greedy_from_reaches(reg, s, target, 1, s.len() as int);
}

/// Oversized-packet admission: a packing pass always takes at least the
/// first queued packet, so a packet larger than the target is still
/// emitted rather than dropped.
pub proof fn lemma_oversized_admitted(reg: PacketRegistry, s: Seq<Packet>, target: nat)
    requires
        s.len() > 0,
    ensures
        1 <= greedy_count(reg, s, target) <= s.len(),
{
    lemma_greedy_bounds(reg, s, target, 1);
}

/// Deferral: a packet that would push the buffer over the target stops
/// the pass right before it, leaving it queued for the next buffer.
pub proof fn lemma_overflow_deferred(reg: PacketRegistry, s: Seq<Packet>, target: nat)
    requires
        s.len() >= 2,
        !fits(reg, s, 1, target),
    ensures
        greedy_count(reg, s, target) == 1,
{
}

/// The buffers that repeated packing passes cut the queue into: each pass
/// takes a greedy run of packets and lays their wire images end to end.
pub open spec fn spec_pack_all(reg: PacketRegistry, s: Seq<Packet>, target: nat) -> Seq<Seq<u8>>
    decreases s.len(),
{
    if s.len() == 0 {
        Seq::<Seq<u8>>::empty()
    } else {
        let k = greedy_count(reg, s, target);
        if 1 <= k <= s.len() {
            seq![spec_encode_all(reg, s.take(k))] + spec_pack_all(reg, s.skip(k), target)
        } else {
            Seq::<Seq<u8>>::empty()
        }
    }
}

/// Batches a FIFO queue of pending packets into transport-ready buffers no
/// larger than `target_size`, except that a single oversized packet is
/// still emitted alone rather than dropped.
pub struct PacketEncoder {
    pub target_size: usize,
    pub buffers: VecDeque<ByteBuffer>,
    pub packets: VecDeque<Packet>,
}

impl PacketEncoder {
    /// Every queued packet is fit for the wire under the registry.
    pub open spec fn queue_wf(self, reg: PacketRegistry) -> bool {
        forall|i: int| 0 <= i < self.packets@.len() ==> (#[trigger] self.packets@[i]).wf(reg)
    }

    /// Fresh encoder with the given buffer target size and empty queues.
    pub fn new(target_size: usize) -> (r: PacketEncoder)
        ensures
            r.target_size == target_size,
            r.buffers@.len() == 0,
            r.packets@.len() == 0,
    {
        PacketEncoder { target_size, buffers: VecDeque::new(), packets: VecDeque::new() }
    }

    /// Enqueue one packet behind the ones already pending.
    pub fn add_packet(&mut self, packet: Packet)
        ensures
            final(self).packets@ == old(self).packets@.push(packet),
            final(self).buffers@ == old(self).buffers@,
            final(self).target_size == old(self).target_size,
    {
        self.packets.push_back(packet);
    }

    /// Return the next completed buffer if one is ready; otherwise run one
    /// packing pass over the queue and return what it produced, or `None`
    /// if nothing was pending.
    pub fn next_buffer(&mut self, reg: &PacketRegistry) -> (r: Option<ByteBuffer>)
        requires
            reg.wf(),
            old(self).queue_wf(*reg),
        ensures
            final(self).target_size == old(self).target_size,
            final(self).queue_wf(*reg),
            old(self).buffers@.len() > 0 ==> {
                &&& r matches Some(b) && b == old(self).buffers@[0]
                &&& final(self).buffers@ == old(self).buffers@.subrange(
                    1,
                    old(self).buffers@.len() as int,
                )
                &&& final(self).packets@ == old(self).packets@
            },
            old(self).buffers@.len() == 0 && old(self).packets@.len() == 0 ==> {
                &&& r is None
                &&& final(self).buffers@ == old(self).buffers@
                &&& final(self).packets@ == old(self).packets@
            },
            old(self).buffers@.len() == 0 && old(self).packets@.len() > 0 ==> {
                let k = greedy_count(*reg, old(self).packets@, old(self).target_size as nat);
                &&& r matches Some(b) && b@ == spec_encode_all(
                    *reg,
                    old(self).packets@.take(k),
                )
                &&& final(self).packets@ == old(self).packets@.skip(k)
                &&& final(self).buffers@ == old(self).buffers@
            },
    {
        if self.buffers.len() > 0 {
            return self.buffers.pop_front();
        }
        self.pack(reg, self.target_size);
        self.buffers.pop_front()
    }

    /// One packing pass: greedily pop queued packets and write each one's
    /// header and payload into a fresh buffer, stopping before a packet
    /// that would push a non-empty buffer over `target_size`; that packet
    /// stays queued for the next buffer. A packet too large for an empty
    /// buffer is still written out alone.
    fn pack(&mut self, reg: &PacketRegistry, target_size: usize)
        requires
            reg.wf(),
            old(self).queue_wf(*reg),
        ensures
            final(self).target_size == old(self).target_size,
            final(self).queue_wf(*reg),
            old(self).packets@.len() == 0 ==> *final(self) == *old(self),
            old(self).packets@.len() > 0 ==> {
                let k = greedy_count(*reg, old(self).packets@, target_size as nat);
                &&& final(self).packets@ == old(self).packets@.skip(k)
                &&& final(self).buffers@.len() == old(self).buffers@.len() + 1
                &&& final(self).buffers@.subrange(0, old(self).buffers@.len() as int) == old(
                    self,
                ).buffers@
                &&& final(self).buffers@.last()@ == spec_encode_all(
                    *reg,
                    old(self).packets@.take(k),
                )
            },
    {
        if self.packets.len() == 0 {
            return ;
        }
        let ghost q = self.packets@;
        let mut result: Vec<u8> = Vec::with_capacity(target_size);
        let mut packed: usize = 0;
        loop
            invariant
                q.len() > 0,
                q.len() <= usize::MAX,
                reg.wf(),
                packed <= q.len(),
                self.packets@ == q.skip(packed as int),
                forall|i: int| 0 <= i < q.len() ==> (#[trigger] q[i]).wf(*reg),
                result@ == spec_encode_all(*reg, q.take(packed as int)),
                result@.len() == 0 <==> packed == 0,
                forall|k: int| 1 <= k < packed ==> fits(*reg, q, k, target_size as nat),
                self.buffers@ == old(self).buffers@,
                self.target_size == old(self).target_size,
            ensures
                1 <= packed <= q.len(),
                self.packets@ == q.skip(packed as int),
                result@ == spec_encode_all(*reg, q.take(packed as int)),
                forall|k: int| 1 <= k < packed ==> fits(*reg, q, k, target_size as nat),
                packed == q.len() || !fits(*reg, q, packed as int, target_size as nat),
                self.buffers@ == old(self).buffers@,
                self.target_size == old(self).target_size,
            decreases q.len() - packed,
        {
            if self.packets.len() == 0 {
                break ;
            }
            if result.len() > 0 {
                let next_size = self.packets[0].data_size();
                proof {
                    assert(self.packets@[0] == q[packed as int]);
                }
                let room = if target_size >= result.len() {
                    target_size - result.len()
                } else {
                    0
                };
                if room < MAX_PACKET_HEADER_SIZE || next_size > room - MAX_PACKET_HEADER_SIZE {
                    proof {
                        assert(!fits(*reg, q, packed as int, target_size as nat));
                    }
                    break ;
                }
            }
            let packet = self.packets.pop_front().unwrap();
            proof {
                assert(packed < q.len());
                assert(packet == q[packed as int]);
                assert(self.packets@ =~= q.skip(packed as int + 1));
            }
            // Flags byte: construction made it canonical for this packet.
            result.push(packet.flags);
            // Type field.
            let id = packet.packet_type.to_u16();
            if id < 256 {
                result.push(id as u8);
            } else {
                result.push((id / 256) as u8);
                result.push((id % 256) as u8);
            }
            // Size field, absent for fixed-size types.
            let info = packets::get(reg, packet.packet_type);
            if info.fixed_size.is_none() {
                let n = packet.data_size();
                if n < 256 {
                    result.push(n as u8);
                } else {
                    result.push((n / 65536) as u8);
                    result.push(((n / 256) % 256) as u8);
                    result.push((n % 256) as u8);
                }
            }
            // Payload.
            let mut payload = packet.data.to_vec();
            result.append(&mut payload);
            proof {
                lemma_encode_all_snoc(*reg, q, packed as int);
                assert(result@ =~= spec_encode_all(*reg, q.take(packed as int)) + spec_encode(
                    *reg,
                    q[packed as int],
                ));
            }
            packed = packed + 1;
        }
        proof {
            lemma_greedy_from_reaches(*reg, q, target_size as nat, 1, packed as int);
            assert(greedy_count(*reg, q, target_size as nat) == packed as int);
        }
        self.buffers.push_back(ByteBuffer::from_vec(result));
        proof {
            assert(self.buffers@.subrange(0, old(self).buffers@.len() as int) =~= old(
                self,
            ).buffers@);
        }
    }
}

} // verus!
