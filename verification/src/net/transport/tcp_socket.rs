use vstd::prelude::*;

use std::collections::VecDeque;

use crate::utils::buffer_processor::{BufferProcessor, Direction};
use crate::utils::byte_buffer::ByteBuffer;

verus! {

/// Result of folding a buffer through the stages at positions `i..` in
/// registration order (the outbound direction).
pub open spec fn pipeline_out_from<P: BufferProcessor>(ps: Seq<P>, data: Seq<u8>, i: int) -> Seq<
    u8,
>
    decreases ps.len() - i when 0 <= i <= ps.len()
{
    if i >= ps.len() {
        data
    } else {
        pipeline_out_from(ps, ps[i].spec_transform(data, Direction::Out), i + 1)
    }
}

/// Result of folding a buffer through every stage in registration order;
/// what one outbound buffer becomes.
pub open spec fn pipeline_out<P: BufferProcessor>(ps: Seq<P>, data: Seq<u8>) -> Seq<u8> {
    pipeline_out_from(ps, data, 0)
}

/// Result of folding a buffer through the stages at positions `..i` in
/// reverse registration order (the inbound direction).
pub open spec fn pipeline_in_from<P: BufferProcessor>(ps: Seq<P>, data: Seq<u8>, i: int) -> Seq<
    u8,
>
    decreases i when 0 <= i <= ps.len()
{
    if i <= 0 {
        data
    } else {
        pipeline_in_from(ps, ps[i - 1].spec_transform(data, Direction::In), i - 1)
    }
}

/// Result of folding a buffer through every stage in reverse registration
/// order; what one inbound buffer becomes.
pub open spec fn pipeline_in<P: BufferProcessor>(ps: Seq<P>, data: Seq<u8>) -> Seq<u8> {
    pipeline_in_from(ps, data, ps.len() as int)
}

/// One peer's transport: the four buffer queues around a TCP stream and
/// the transform pipeline between them. The OS stream itself lives with
/// the caller, which feeds read bytes in and drains write buffers out.
pub struct TcpSocket<P: BufferProcessor> {
    pub connected: bool,
    pub buffer_processors: Vec<P>,
    pub unprocessed_in: VecDeque<ByteBuffer>,
    pub unprocessed_out: VecDeque<ByteBuffer>,
    pub processed_in: VecDeque<ByteBuffer>,
    pub processed_out: VecDeque<ByteBuffer>,
}

impl<P: BufferProcessor> TcpSocket<P> {
    /// The registered transform stages, in registration order.
    pub open spec fn spec_processors(&self) -> Seq<P> {
        self.buffer_processors@
    }

    /// Whether the first successful write has happened.
    pub open spec fn spec_connected(&self) -> bool {
        self.connected
    }

    /// Fresh transport: not yet connected, no stages, empty queues.
    pub fn new() -> (r: TcpSocket<P>)
        ensures
            !r.spec_connected(),
            r.spec_processors().len() == 0,
            r.unprocessed_in@.len() == 0,
            r.unprocessed_out@.len() == 0,
            r.processed_in@.len() == 0,
            r.processed_out@.len() == 0,
    {
        TcpSocket {
            connected: false,
            buffer_processors: Vec::new(),
            unprocessed_in: VecDeque::new(),
            unprocessed_out: VecDeque::new(),
            processed_in: VecDeque::new(),
            processed_out: VecDeque::new(),
        }
    }

    /// Whether the first successful write has happened.
    pub fn is_connected(&self) -> (r: bool)
        ensures
            r == self.spec_connected(),
    {
        self.connected
    }

    /// Record the first successful write; the caller disables send
    /// coalescing on the OS stream at the same moment.
    pub fn connected(&mut self)
        ensures
            *final(self) == (TcpSocket { connected: true, ..*old(self) }),
    {
        self.connected = true;
    }

    /// Tear down: the caller shuts the OS stream; the transport forgets
    /// the connected state.
    pub fn close(&mut self)
        ensures
            *final(self) == (TcpSocket { connected: false, ..*old(self) }),
    {
        self.connected = false;
    }

    /// Append a transform stage; it will run last on outbound buffers and
    /// first on inbound ones.
    pub fn add_buffer_processor(&mut self, buffer_processor: P)
        ensures
            *final(self) == (TcpSocket {
                buffer_processors: final(self).buffer_processors,
                ..*old(self)
            }),
            final(self).spec_processors() == old(self).spec_processors().push(buffer_processor),
    {
        self.buffer_processors.push(buffer_processor);
    }

    /// Feed bytes read from the OS stream into the inbound queue.
    pub fn push_read(&mut self, data: Vec<u8>)
        ensures
            *final(self) == (TcpSocket { unprocessed_in: final(self).unprocessed_in, ..*old(self) }),
            final(self).unprocessed_in@.len() == old(self).unprocessed_in@.len() + 1,
            final(self).unprocessed_in@.last()@ == data@,
            forall|i: int|
                0 <= i < old(self).unprocessed_in@.len() ==> final(self).unprocessed_in@[i] == old(self).unprocessed_in@[i],
    {
        self.unprocessed_in.push_back(ByteBuffer::from_vec(data));
    }

    /// Drain the unprocessed outbound queue through the pipeline in
    /// registration order, appending the results to the processed
    /// outbound queue in the same order.
    pub fn process_out(&mut self)
        ensures
            final(self).connected == old(self).connected,
            final(self).spec_processors() == old(self).spec_processors(),
            final(self).unprocessed_in@ == old(self).unprocessed_in@,
            final(self).processed_in@ == old(self).processed_in@,
            final(self).unprocessed_out@.len() == 0,
            final(self).processed_out@.len() == old(self).processed_out@.len() + old(self).unprocessed_out@.len(),
            forall|i: int|
                0 <= i < old(self).processed_out@.len() ==> final(self).processed_out@[i] == old(self).processed_out@[i],
            forall|i: int|
                0 <= i < old(self).unprocessed_out@.len() ==> (#[trigger] final(self).processed_out@[old(self).processed_out@.len() + i])@ == pipeline_out(
                    old(self).spec_processors(),
                    old(self).unprocessed_out@[i]@,
                ),
    {
        let _queued = self.unprocessed_out.len();
        let ghost q = self.unprocessed_out@;
        let ghost ps = self.buffer_processors@;
        let ghost out0 = self.processed_out@;
        let mut moved: usize = 0;
        loop
            invariant
                moved <= q.len(),
                q.len() <= usize::MAX,
                self.connected == old(self).connected,
                self.buffer_processors@ == ps,
                self.unprocessed_in@ == old(self).unprocessed_in@,
                self.processed_in@ == old(self).processed_in@,
                self.unprocessed_out@ == q.skip(moved as int),
                self.processed_out@.len() == out0.len() + moved,
                forall|i: int| 0 <= i < out0.len() ==> self.processed_out@[i] == out0[i],
                forall|i: int|
                    0 <= i < moved ==> (#[trigger] self.processed_out@[out0.len() + i])@
                        == pipeline_out(ps, q[i]@),
            ensures
                moved == q.len(),
                self.connected == old(self).connected,
                self.buffer_processors@ == ps,
                self.unprocessed_in@ == old(self).unprocessed_in@,
                self.processed_in@ == old(self).processed_in@,
                self.unprocessed_out@.len() == 0,
                self.processed_out@.len() == out0.len() + q.len(),
                forall|i: int| 0 <= i < out0.len() ==> self.processed_out@[i] == out0[i],
                forall|i: int|
                    0 <= i < q.len() ==> (#[trigger] self.processed_out@[out0.len() + i])@
                        == pipeline_out(ps, q[i]@),
            decreases q.len() - moved,
        {
            if self.unprocessed_out.len() == 0 {
                break ;
            }
            let mut buffer = self.unprocessed_out.pop_front().unwrap();
            proof {
                assert(buffer == q[moved as int]);
                assert(self.unprocessed_out@ =~= q.skip(moved as int + 1));
            }
            let ghost b0 = buffer@;
            let n = self.buffer_processors.len();
            let mut i: usize = 0;
            while i < n
                invariant
                    n == ps.len(),
                    i <= n,
                    self.buffer_processors@ == ps,
                    pipeline_out(ps, b0) == pipeline_out_from(ps, buffer@, i as int),
                decreases n - i,
            {
                let processor = &self.buffer_processors[i];
                processor.process_buffer(&mut buffer, Direction::Out);
                i = i + 1;
            }
            self.processed_out.push_back(buffer);
            moved = moved + 1;
        }
    }

    /// Drain the unprocessed inbound queue through the pipeline in
    /// reverse registration order, appending the results to the processed
    /// inbound queue in the same order.
    pub fn process_in(&mut self)
        ensures
            final(self).connected == old(self).connected,
            final(self).spec_processors() == old(self).spec_processors(),
            final(self).unprocessed_out@ == old(self).unprocessed_out@,
            final(self).processed_out@ == old(self).processed_out@,
            final(self).unprocessed_in@.len() == 0,
            final(self).processed_in@.len() == old(self).processed_in@.len() + old(self).unprocessed_in@.len(),
            forall|i: int|
                0 <= i < old(self).processed_in@.len() ==> final(self).processed_in@[i] == old(self).processed_in@[i],
            forall|i: int|
                0 <= i < old(self).unprocessed_in@.len() ==> (#[trigger] final(self).processed_in@[old(self).processed_in@.len() + i])@ == pipeline_in(
                    old(self).spec_processors(),
                    old(self).unprocessed_in@[i]@,
                ),
    {
        let _queued = self.unprocessed_in.len();
        let ghost q = self.unprocessed_in@;
        let ghost ps = self.buffer_processors@;
        let ghost in0 = self.processed_in@;
        let mut moved: usize = 0;
        loop
            invariant
                moved <= q.len(),
                q.len() <= usize::MAX,
                self.connected == old(self).connected,
                self.buffer_processors@ == ps,
                self.unprocessed_out@ == old(self).unprocessed_out@,
                self.processed_out@ == old(self).processed_out@,
                self.unprocessed_in@ == q.skip(moved as int),
                self.processed_in@.len() == in0.len() + moved,
                forall|i: int| 0 <= i < in0.len() ==> self.processed_in@[i] == in0[i],
                forall|i: int|
                    0 <= i < moved ==> (#[trigger] self.processed_in@[in0.len() + i])@
                        == pipeline_in(ps, q[i]@),
            ensures
                moved == q.len(),
                self.connected == old(self).connected,
                self.buffer_processors@ == ps,
                self.unprocessed_out@ == old(self).unprocessed_out@,
                self.processed_out@ == old(self).processed_out@,
                self.unprocessed_in@.len() == 0,
                self.processed_in@.len() == in0.len() + q.len(),
                forall|i: int| 0 <= i < in0.len() ==> self.processed_in@[i] == in0[i],
                forall|i: int|
                    0 <= i < q.len() ==> (#[trigger] self.processed_in@[in0.len() + i])@
                        == pipeline_in(ps, q[i]@),
            decreases q.len() - moved,
        {
            if self.unprocessed_in.len() == 0 {
                break ;
            }
            let mut buffer = self.unprocessed_in.pop_front().unwrap();
            proof {
                assert(buffer == q[moved as int]);
                assert(self.unprocessed_in@ =~= q.skip(moved as int + 1));
            }
            let ghost b0 = buffer@;
            let n = self.buffer_processors.len();
            let mut i: usize = n;
            while i > 0
                invariant
                    n == ps.len(),
                    i <= n,
                    self.buffer_processors@ == ps,
                    pipeline_in(ps, b0) == pipeline_in_from(ps, buffer@, i as int),
                decreases i,
            {
                i = i - 1;
                let processor = &self.buffer_processors[i];
                processor.process_buffer(&mut buffer, Direction::In);
            }
            self.processed_in.push_back(buffer);
            moved = moved + 1;
        }
    }

    /// The front processed outbound buffer, copied out for an OS write
    /// attempt, if any is pending.
    pub fn front_out(&self) -> (r: Option<Vec<u8>>)
        ensures
            match r {
                Some(v) => self.processed_out@.len() > 0 && v@ == self.processed_out@[0]@,
                None => self.processed_out@.len() == 0,
            },
    {
        if self.processed_out.len() > 0 {
            Some(self.processed_out[0].to_vec())
        } else {
            None
        }
    }

    /// Record that the OS accepted `n` bytes of the front outbound
    /// buffer. A short write only advances past the bytes actually
    /// written; the buffer is popped once fully drained, never re-issued.
    pub fn mark_written(&mut self, n: usize)
        requires
            old(self).processed_out@.len() > 0,
            n <= old(self).processed_out@[0]@.len(),
        ensures
            *final(self) == (TcpSocket { processed_out: final(self).processed_out, ..*old(self) }),
            n < old(self).processed_out@[0]@.len() ==> {
                &&& final(self).processed_out@.len() == old(self).processed_out@.len()
                &&& final(self).processed_out@[0]@ == old(self).processed_out@[0]@.skip(n as int)
                &&& forall|i: int|
                    1 <= i < old(self).processed_out@.len() ==> final(self).processed_out@[i]
                        == old(self).processed_out@[i]
            },
            n == old(self).processed_out@[0]@.len() ==> final(self).processed_out@ == old(self).processed_out@.skip(1),
    {
        let front_len = self.processed_out[0].len();
        if n < front_len {
            let mut buffer = self.processed_out.pop_front().unwrap();
            buffer.skip(n);
            self.processed_out.push_front(buffer);
            proof {
                assert(self.processed_out@ =~= seq![self.processed_out@[0]] + old(self).processed_out@.skip(1));
                assert forall|i: int|
                    1 <= i < old(self).processed_out@.len() implies self.processed_out@[i] == old(self).processed_out@[i] by {
                    assert(self.processed_out@[i] == old(self).processed_out@.skip(1)[i - 1]);
                }
            }
        } else {
            self.processed_out.pop_front();
        }
    }
}

} // verus!
