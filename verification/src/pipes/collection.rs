//! All pipes, with the handles that refer to them. A pipe is reached through
//! a read handle or a write handle; handles and pipes keep their indices
//! while they exist.
use vstd::prelude::*;
use crate::collections::{first_empty, lemma_first_empty, SlotList};
use crate::files::handle::LocalHandle;
use super::errors::PipeError;
use super::handle::PipeHandle;
use super::pipe::{Pipe, BUFFER_SIZE};

verus! {

/// Which pipe a handle reaches, for reading (`for_read`) or for writing;
/// or why it reaches none.
pub open spec fn pipe_for(handles: Seq<Option<PipeHandle>>, pipes: Seq<Option<Pipe>>, handle: LocalHandle, for_read: bool) -> Result<int, PipeError> {
    if handle.0 >= handles.len() || handles[handle.0 as int] is None {
        Err(PipeError::InvalidHandle)
    } else {
        match handles[handle.0 as int].unwrap() {
            PipeHandle::ReadHandle(i) => if !for_read {
                Err(PipeError::WrongHandleType)
            } else if i >= pipes.len() || pipes[i as int] is None {
                Err(PipeError::UnknownPipe)
            } else {
                Ok(i as int)
            },
            PipeHandle::WriteHandle(i) => if for_read {
                Err(PipeError::WrongHandleType)
            } else if i >= pipes.len() || pipes[i as int] is None {
                Err(PipeError::UnknownPipe)
            } else {
                Ok(i as int)
            },
        }
    }
}

pub struct PipeCollection {
    pub pipes: SlotList<Pipe>,
    pub handles: SlotList<PipeHandle>,
}

impl PipeCollection {
    /// Every pipe has a buffer of the standard size.
    pub open spec fn wf(&self) -> bool {
        forall|i: int| 0 <= i < self.pipes@.len() && (#[trigger] self.pipes@[i]) is Some ==> self.pipes@[i].unwrap().wf()
    }

    /// The bytes waiting in pipe `i`.
    pub open spec fn contents(&self, i: int) -> Seq<u8> {
        self.pipes@[i].unwrap().data_buffer@
    }

    pub fn new() -> (r: PipeCollection)
        ensures
            r.wf(),
            r.pipes@.len() == 0,
            r.handles@.len() == 0,
    {
        PipeCollection { pipes: SlotList::new(), handles: SlotList::new() }
    }

    /// Create a pipe and a pair of read/write handles to it.
    pub fn create(&mut self) -> (r: Result<(LocalHandle, LocalHandle), PipeError>)
        requires
            old(self).wf(),
            old(self).handles@.len() + 2 <= u32::MAX,
        ensures
            final(self).wf(),
            ({
                let p = first_empty(old(self).pipes@);
                let h = old(self).handles@;
                let rh = first_empty(h);
                let wh = first_empty(if rh < h.len() { h.update(rh, Some(PipeHandle::ReadHandle(p as usize))) } else { h.push(Some(PipeHandle::ReadHandle(p as usize))) });
                &&& r == Ok::<(LocalHandle, LocalHandle), PipeError>((LocalHandle(rh as u32), LocalHandle(wh as u32)))
                &&& final(self).pipes@.len() == if p < old(self).pipes@.len() { old(self).pipes@.len() as int } else { p + 1 }
                &&& final(self).handles@.len() == (if wh < h.len() { h.len() as int } else { wh + 1 })
                &&& final(self).pipes@[p] is Some
                &&& final(self).contents(p).len() == 0
                &&& final(self).handles@[rh] == Some(PipeHandle::ReadHandle(p as usize))
                &&& final(self).handles@[wh] == Some(PipeHandle::WriteHandle(p as usize))
                &&& rh != wh
                &&& 0 <= rh <= h.len() && 0 <= wh <= h.len() + 1
                &&& forall|i: int| 0 <= i < old(self).pipes@.len() && i != p ==> #[trigger] final(self).pipes@[i] == old(self).pipes@[i]
                &&& forall|i: int| 0 <= i < h.len() && i != rh && i != wh ==> #[trigger] final(self).handles@[i] == h[i]
            }),
    {
        proof {
            lemma_first_empty(self.pipes@);
            lemma_first_empty(self.handles@);
        }
        let pipe_index = self.pipes.insert(Pipe::new());
        let ghost mid = self.handles@;
        let read_index = self.handles.insert(PipeHandle::ReadHandle(pipe_index));
        proof {
            lemma_first_empty(self.handles@);
        }
        let write_index = self.handles.insert(PipeHandle::WriteHandle(pipe_index));
        proof {
            lemma_first_empty(self.handles@);
            assert(self.handles@[read_index as int] == Some(PipeHandle::ReadHandle(pipe_index)));
            assert forall|i: int| 0 <= i < self.pipes@.len() && (#[trigger] self.pipes@[i]) is Some implies self.pipes@[i].unwrap().wf() by {
                if i != pipe_index {
                    assert(old(self).pipes@[i] == self.pipes@[i]);
                }
            }
        }
        Ok((LocalHandle::new(read_index as u32), LocalHandle::new(write_index as u32)))
    }

    /// Read available bytes into `buffer`, using a pipe read handle. Returns
    /// the number of bytes copied to the buffer.
    pub fn read(&mut self, handle: LocalHandle, buffer: &mut [u8]) -> (r: Result<usize, PipeError>)
        requires
            old(self).wf(),
        ensures
            final(self).wf(),
            final(self).handles@ == old(self).handles@,
            match pipe_for(old(self).handles@, old(self).pipes@, handle, true) {
                Err(e) => r == Err::<usize, PipeError>(e) && final(self).pipes@ == old(self).pipes@
                    && final(buffer)@ == old(buffer)@,
                Ok(i) => {
                    let held = old(self).contents(i);
                    let n = if old(buffer)@.len() < held.len() { old(buffer)@.len() as int } else { held.len() as int };
                    &&& r == Ok::<usize, PipeError>(n as usize)
                    &&& final(buffer)@ == held.subrange(0, n) + old(buffer)@.subrange(n, old(buffer)@.len() as int)
                    &&& final(self).pipes@[i] is Some
                    &&& final(self).contents(i) == held.subrange(n, held.len() as int)
                    &&& final(self).pipes@.len() == old(self).pipes@.len()
                    &&& forall|j: int| 0 <= j < old(self).pipes@.len() && j != i ==> #[trigger] final(self).pipes@[j] == old(self).pipes@[j]
                },
            },
    {
        let index = match self.handles.get(handle.as_usize()) {
            Some(PipeHandle::ReadHandle(index)) => *index,
            Some(PipeHandle::WriteHandle(_)) => return Err(PipeError::WrongHandleType),
            None => return Err(PipeError::InvalidHandle),
        };
        let slot_count = self.pipes.len();
        let mut pipe = match self.pipes.remove(index) {
            Some(pipe) => pipe,
            None => return Err(PipeError::UnknownPipe),
        };
        assert(pipe.wf());
        assert(index < slot_count);
        let read = pipe.data_buffer.read(buffer);
        self.pipes.replace(index, pipe);
        proof {
            assert(self.pipes@ == old(self).pipes@.update(index as int, Some(pipe)));
            assert(buffer@ =~= old(self).contents(index as int).subrange(0, read as int)
                + old(buffer)@.subrange(read as int, old(buffer)@.len() as int));
        }
        Ok(read)
    }

    /// Write bytes from `buffer` into the pipe, using a pipe write handle.
    /// Returns the number of bytes copied to the pipe.
    pub fn write(&mut self, handle: LocalHandle, buffer: &[u8]) -> (r: Result<usize, PipeError>)
        requires
            old(self).wf(),
        ensures
            final(self).wf(),
            final(self).handles@ == old(self).handles@,
            match pipe_for(old(self).handles@, old(self).pipes@, handle, false) {
                Err(e) => r == Err::<usize, PipeError>(e) && final(self).pipes@ == old(self).pipes@,
                Ok(i) => {
                    let held = old(self).contents(i);
                    let room = BUFFER_SIZE - held.len();
                    let n = if buffer@.len() < room { buffer@.len() as int } else { room };
                    &&& r == Ok::<usize, PipeError>(n as usize)
                    &&& final(self).pipes@[i] is Some
                    &&& final(self).contents(i) == held + buffer@.subrange(0, n)
                    &&& final(self).pipes@.len() == old(self).pipes@.len()
                    &&& forall|j: int| 0 <= j < old(self).pipes@.len() && j != i ==> #[trigger] final(self).pipes@[j] == old(self).pipes@[j]
                },
            },
    {
        let index = match self.handles.get(handle.as_usize()) {
            Some(PipeHandle::WriteHandle(index)) => *index,
            Some(PipeHandle::ReadHandle(_)) => return Err(PipeError::WrongHandleType),
            None => return Err(PipeError::InvalidHandle),
        };
        let slot_count = self.pipes.len();
        let mut pipe = match self.pipes.remove(index) {
            Some(pipe) => pipe,
            None => return Err(PipeError::UnknownPipe),
        };
        assert(pipe.wf());
        assert(index < slot_count);
        let written = pipe.data_buffer.write(buffer);
        self.pipes.replace(index, pipe);
        proof {
            assert(self.pipes@ == old(self).pipes@.update(index as int, Some(pipe)));
        }
        Ok(written)
    }

    /// The number of bytes waiting in the pipe of a read handle.
    pub fn get_available_bytes(&self, handle: LocalHandle) -> (r: Result<usize, PipeError>)
        ensures
            match pipe_for(self.handles@, self.pipes@, handle, true) {
                Err(e) => r == Err::<usize, PipeError>(e),
                Ok(i) => r == Ok::<usize, PipeError>(self.contents(i).len() as usize),
            },
    {
        let index = match self.handles.get(handle.as_usize()) {
            Some(PipeHandle::ReadHandle(index)) => *index,
            Some(PipeHandle::WriteHandle(_)) => return Err(PipeError::WrongHandleType),
            None => return Err(PipeError::InvalidHandle),
        };
        match self.pipes.get(index) {
            Some(pipe) => Ok(pipe.available_bytes()),
            None => Err(PipeError::UnknownPipe),
        }
    }
}

/// Bytes written through a pipe's write handle are read back, in order,
/// through its read handle: writing `data` into a pipe holding `held` and
/// then reading enough leaves the reader with `held` followed by the part of
/// `data` that fit.
pub proof fn lemma_pipe_fifo(held: Seq<u8>, data: Seq<u8>, n: int, want: int)
    requires
        held.len() <= BUFFER_SIZE,
        n == if data.len() < BUFFER_SIZE - held.len() { data.len() as int } else { BUFFER_SIZE - held.len() },
        want >= held.len() + n,
    ensures
        ({
            let after_write = held + data.subrange(0, n);
            let got = if want < after_write.len() { want } else { after_write.len() as int };
            &&& got == held.len() + n
            &&& after_write.subrange(0, got) == held + data.subrange(0, n)
            &&& after_write.subrange(got, after_write.len() as int).len() == 0
        }),
{
    let after_write = held + data.subrange(0, n);
    assert(after_write.subrange(0, after_write.len() as int) =~= after_write);
}

} // verus!
