use vstd::prelude::*;

use crate::utils::byte_buffer::ByteBuffer;

verus! {

/// Which way a buffer is travelling through the transform pipeline.
#[derive(Debug, Copy, Clone, PartialEq, Eq, Structural)]
pub enum Direction {
    In,
    Out,
}

/// One reversible byte-buffer transform stage. Stages registered on a
/// socket run in registration order on outbound buffers and in reverse
/// registration order on inbound buffers.
pub trait BufferProcessor: Sized {
    /// The function this stage applies to a buffer travelling in the
    /// given direction.
    spec fn spec_transform(&self, data: Seq<u8>, direction: Direction) -> Seq<u8>;

    /// Apply the stage's transform to the buffer in place.
    fn process_buffer(&self, buffer: &mut ByteBuffer, direction: Direction)
        ensures
            final(buffer)@ == self.spec_transform(old(buffer)@, direction),
    ;
}

/// A stage that passes every buffer through unchanged; the default stage
/// installed on new connections.
pub struct LogBufferProcessor;

impl BufferProcessor for LogBufferProcessor {
    open spec fn spec_transform(&self, data: Seq<u8>, direction: Direction) -> Seq<u8> {
        data
    }

    fn process_buffer(&self, buffer: &mut ByteBuffer, direction: Direction) {
    }
}

} // verus!
