//! Ring buffers between terminals and the processes reading and writing
//! their device files.
use vstd::prelude::*;
use crate::buffers::RingBuffer;
use crate::files::handle::IOHandle;
use crate::task::id::ProcessID;

verus! {

/// Capacity of each terminal buffer.
pub const BUFFER_SIZE: usize = 512;

/// Ring buffers for reading and writing to a TTY device file.
pub struct TTYReadWriteBuffers {
    /// Ring buffer for data sent from the TTY to readers
    pub output_buffer: RingBuffer,
    /// Ring buffer containing data written to the TTY
    pub input_buffer: RingBuffer,
}

impl TTYReadWriteBuffers {
    pub open spec fn wf(&self) -> bool {
        &&& self.output_buffer.wf() && self.output_buffer.capacity() == BUFFER_SIZE
        &&& self.input_buffer.wf() && self.input_buffer.capacity() == BUFFER_SIZE
    }

    pub fn new() -> (r: TTYReadWriteBuffers)
        ensures
            r.wf(),
            r.output_buffer@.len() == 0,
            r.input_buffer@.len() == 0,
    {
        TTYReadWriteBuffers { output_buffer: RingBuffer::new(BUFFER_SIZE), input_buffer: RingBuffer::new(BUFFER_SIZE) }
    }

    /// Read what the terminal sent to its readers.
    pub fn read(&mut self, buffer: &mut [u8]) -> (r: usize)
        requires
            old(self).wf(),
        ensures
            final(self).wf(),
            r == if old(buffer)@.len() < old(self).output_buffer@.len() {
                old(buffer)@.len() as int
            } else {
                old(self).output_buffer@.len() as int
            },
            final(buffer)@ == old(self).output_buffer@.subrange(0, r as int)
                + old(buffer)@.subrange(r as int, old(buffer)@.len() as int),
            final(self).output_buffer@ == old(self).output_buffer@.subrange(r as int, old(self).output_buffer@.len() as int),
            final(self).input_buffer@ == old(self).input_buffer@,
    {
        let r = self.output_buffer.read(buffer);
        assert(buffer@ =~= old(self).output_buffer@.subrange(0, r as int)
            + old(buffer)@.subrange(r as int, old(buffer)@.len() as int));
        r
    }

    /// Write data for the terminal to process.
    pub fn write(&mut self, buffer: &[u8]) -> (r: usize)
        requires
            old(self).wf(),
        ensures
            final(self).wf(),
            r == if buffer@.len() < BUFFER_SIZE - old(self).input_buffer@.len() {
                buffer@.len() as int
            } else {
                BUFFER_SIZE - old(self).input_buffer@.len()
            },
            final(self).input_buffer@ == old(self).input_buffer@ + buffer@.subrange(0, r as int),
            final(self).output_buffer@ == old(self).output_buffer@,
    {
        self.input_buffer.write(buffer)
    }
}

/// An open handle to a terminal device, and the process holding it.
#[derive(Copy, Clone, Debug, PartialEq, Eq, Structural)]
pub struct Descriptor {
    pub process: ProcessID,
    pub handle: IOHandle,
}

/// How far a line read has come: the bytes placed in the destination so
/// far, and the last byte taken from the terminal (0 before the first).
#[derive(Copy, Clone, Debug, PartialEq, Eq, Structural)]
pub struct ReadProgress {
    pub bytes_read: usize,
    pub last_byte: u8,
}

/// Take typed bytes into `dest` from position `n`, until `dest` is full, a
/// newline has been taken, or the input runs out. A backspace takes back the
/// previous byte instead of being stored. Returns the destination, the new
/// position, the last byte taken, and how many bytes were taken.
pub open spec fn take_line(dest: Seq<u8>, n: int, last: u8, input: Seq<u8>) -> (Seq<u8>, int, u8, int)
    decreases input.len(),
{
    if n >= dest.len() || last == 0x0a || input.len() == 0 {
        (dest, n, last, 0)
    } else {
        let b = input[0];
        let (d2, n2) = if b == 8 {
            (dest, if n > 0 { n - 1 } else { 0 })
        } else {
            (dest.update(n, b), n + 1)
        };
        let rest = take_line(d2, n2, b, input.drop_first());
        (rest.0, rest.1, rest.2, rest.3 + 1)
    }
}

/// Stores input from the keyboard that is waiting to be read.
pub struct TTYReaderBuffer {
    /// Ring buffer of typed bytes waiting for readers
    pub buffer: RingBuffer,
}

impl TTYReaderBuffer {
    pub open spec fn wf(&self) -> bool {
        self.buffer.wf() && self.buffer.capacity() == BUFFER_SIZE
    }

    pub fn new() -> (r: Self)
        ensures
            r.wf(),
            r.buffer@.len() == 0,
    {
        TTYReaderBuffer { buffer: RingBuffer::new(BUFFER_SIZE) }
    }

    /// Whether a read has finished: the destination is full or a whole line
    /// has been read.
    pub fn read_finished(&self, progress: ReadProgress, dest_len: usize) -> (r: bool)
        ensures
            r == (progress.bytes_read >= dest_len || progress.last_byte == 0x0a),
    {
        progress.bytes_read >= dest_len || progress.last_byte == 0x0a
    }

    /// Continue reading a line into `dest` with the typed bytes available.
    /// When the read is not finished once they run out, the reader blocks
    /// until more input arrives and then continues.
    pub fn read(&mut self, dest: &mut [u8], progress: ReadProgress) -> (r: ReadProgress)
        requires
            old(self).wf(),
            progress.bytes_read <= old(dest)@.len(),
        ensures
            final(self).wf(),
            ({
                let (d, n, last, taken) = take_line(old(dest)@, progress.bytes_read as int, progress.last_byte, old(self).buffer@);
                &&& final(dest)@ == d
                &&& r.bytes_read == n
                &&& r.last_byte == last
                &&& final(self).buffer@ == old(self).buffer@.subrange(taken, old(self).buffer@.len() as int)
            }),
    {
        let ghost input = self.buffer@;
        let ghost d0 = dest@;
        let mut bytes_read = progress.bytes_read;
        let mut last = progress.last_byte;
        let ghost mut taken: int = 0;
        while bytes_read < dest.len() && last != 0x0a && self.buffer.available_bytes() > 0
            invariant
                self.wf(),
                0 <= taken <= input.len(),
                self.buffer@ == input.subrange(taken, input.len() as int),
                bytes_read <= dest@.len(),
                dest@.len() == d0.len(),
                ({
                    let whole = take_line(d0, progress.bytes_read as int, progress.last_byte, input);
                    let rest = take_line(dest@, bytes_read as int, last, self.buffer@);
                    whole.0 == rest.0 && whole.1 == rest.1 && whole.2 == rest.2 && whole.3 == taken + rest.3
                }),
            decreases self.buffer@.len(),
        {
            let mut byte_buffer: Vec<u8> = vec![0u8];
            assert(byte_buffer@.len() == 1);
            let ghost held = self.buffer@;
            let partial_read = self.buffer.read(byte_buffer.as_mut_slice());
            assert(partial_read == 1);
            assert(byte_buffer@ == held.subrange(0, 1));
            let b = byte_buffer[0];
            proof {
                assert(b == input[taken]);
                assert(self.buffer@ =~= input.subrange(taken + 1, input.len() as int));
                assert(input.subrange(taken, input.len() as int).drop_first()
                    =~= input.subrange(taken + 1, input.len() as int));
                taken = taken + 1;
            }
            if b == 8 {
                // handle backspace
                if bytes_read > 0 {
                    bytes_read = bytes_read - 1;
                }
            } else {
                dest[bytes_read] = b;
                bytes_read = bytes_read + partial_read;
            }
            last = b;
        }
        ReadProgress { bytes_read, last_byte: last }
    }

    /// Add typed bytes for readers, as many as fit.
    pub fn add_data(&mut self, data: &[u8]) -> (r: usize)
        requires
            old(self).wf(),
        ensures
            final(self).wf(),
            r == if data@.len() < BUFFER_SIZE - old(self).buffer@.len() {
                data@.len() as int
            } else {
                BUFFER_SIZE - old(self).buffer@.len()
            },
            final(self).buffer@ == old(self).buffer@ + data@.subrange(0, r as int),
    {
        self.buffer.write(data)
    }
}

/// Holds what programs write to a terminal device, until the terminal
/// displays it.
pub struct TTYWriterBuffer {
    pub buffer: RingBuffer,
}

impl TTYWriterBuffer {
    pub open spec fn wf(&self) -> bool {
        self.buffer.wf() && self.buffer.capacity() == BUFFER_SIZE
    }

    pub fn new() -> (r: Self)
        ensures
            r.wf(),
            r.buffer@.len() == 0,
    {
        TTYWriterBuffer { buffer: RingBuffer::new(BUFFER_SIZE) }
    }

    /// Queue bytes written through `_handle`, as many as fit.
    pub fn write(&mut self, _handle: IOHandle, buffer: &[u8]) -> (r: usize)
        requires
            old(self).wf(),
        ensures
            final(self).wf(),
            r == if buffer@.len() < BUFFER_SIZE - old(self).buffer@.len() {
                buffer@.len() as int
            } else {
                BUFFER_SIZE - old(self).buffer@.len()
            },
            final(self).buffer@ == old(self).buffer@ + buffer@.subrange(0, r as int),
    {
        self.buffer.write(buffer)
    }

    /// Take queued bytes, as many as fit in `buffer`.
    pub fn read(&mut self, buffer: &mut [u8]) -> (r: usize)
        requires
            old(self).wf(),
        ensures
            final(self).wf(),
            r == if old(buffer)@.len() < old(self).buffer@.len() {
                old(buffer)@.len() as int
            } else {
                old(self).buffer@.len() as int
            },
            final(buffer)@ == old(self).buffer@.subrange(0, r as int)
                + old(buffer)@.subrange(r as int, old(buffer)@.len() as int),
            final(self).buffer@ == old(self).buffer@.subrange(r as int, old(self).buffer@.len() as int),
    {
        let r = self.buffer.read(buffer);
        assert(buffer@ =~= old(self).buffer@.subrange(0, r as int)
            + old(buffer)@.subrange(r as int, old(buffer)@.len() as int));
        r
    }

    pub fn available_bytes(&self) -> (r: usize)
        ensures
            r == self.buffer@.len(),
    {
        self.buffer.available_bytes()
    }
}

} // verus!
