use vstd::prelude::*;
use crate::buffers::RingBuffer;

verus! {

/// How many bytes a pipe can hold.
pub const BUFFER_SIZE: usize = 256;

/// A Pipe is a simple fifo queue of byte data, allowing data to be passed
/// between different processes.
pub struct Pipe {
    /// Ring buffer containing pipe data
    pub data_buffer: RingBuffer,
}

impl Pipe {
    pub open spec fn wf(&self) -> bool {
        self.data_buffer.wf() && self.data_buffer.capacity() == BUFFER_SIZE
    }

    /// An empty pipe.
    pub fn new() -> (r: Pipe)
        ensures
            r.wf(),
            r.data_buffer@.len() == 0,
    {
        Pipe { data_buffer: RingBuffer::new(BUFFER_SIZE) }
    }

    /// Get the number of bytes that have been written, but not yet read
    pub fn available_bytes(&self) -> (r: usize)
        ensures
            r == self.data_buffer@.len(),
    {
        self.data_buffer.available_bytes()
    }

    /// Return true if there are bytes to read
    pub fn can_read(&self) -> (r: bool)
        ensures
            r == (self.data_buffer@.len() > 0),
    {
        self.available_bytes() > 0
    }
}

} // verus!
