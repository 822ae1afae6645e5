//! The device files of the terminals, such as DEV:\TTY1, through which a
//! shell reads keyboard input and writes to the screen.
use vstd::prelude::*;
use crate::collections::{first_empty, SlotList};
use crate::files::handle::IOHandle;
use crate::task::id::ProcessID;
use super::buffers::{Descriptor, ReadProgress, TTYReaderBuffer, TTYWriterBuffer};

verus! {

/// Device driver representing a TTY.
#[derive(Copy, Clone, Debug, PartialEq, Eq, Structural)]
pub struct TTYDevice {
    pub tty_id: usize,
}

impl TTYDevice {
    pub fn for_tty(tty_id: usize) -> (r: TTYDevice)
        ensures
            r.tty_id == tty_id,
    {
        TTYDevice { tty_id }
    }
}

/// The state behind one terminal device file: its buffers, and the handles
/// open on it.
pub struct TTYDeviceData {
    pub next_handle: usize,
    pub read_buffer: TTYReaderBuffer,
    pub write_buffer: TTYWriterBuffer,
    pub open_io: SlotList<Descriptor>,
}

impl TTYDeviceData {
    pub open spec fn wf(&self) -> bool {
        self.read_buffer.wf() && self.write_buffer.wf()
    }

    pub fn new() -> (r: Self)
        ensures
            r.wf(),
            r.next_handle == 1,
            r.read_buffer.buffer@.len() == 0,
            r.write_buffer.buffer@.len() == 0,
            r.open_io@.len() == 0,
    {
        TTYDeviceData {
            next_handle: 1,
            read_buffer: TTYReaderBuffer::new(),
            write_buffer: TTYWriterBuffer::new(),
            open_io: SlotList::new(),
        }
    }

    /// Open a new handle on the device for `process`.
    pub fn open(&mut self, process: ProcessID) -> (r: Result<IOHandle, ()>)
        ensures
            r == Ok::<IOHandle, ()>(IOHandle(old(self).next_handle)),
            final(self).next_handle == if old(self).next_handle == usize::MAX { 0 } else { old(self).next_handle + 1 },
            ({
                let d = Descriptor { process, handle: IOHandle(old(self).next_handle) };
                let i = first_empty(old(self).open_io@);
                &&& i < old(self).open_io@.len() ==> final(self).open_io@ == old(self).open_io@.update(i, Some(d))
                &&& i == old(self).open_io@.len() ==> final(self).open_io@ == old(self).open_io@.push(Some(d))
            }),
            final(self).read_buffer == old(self).read_buffer,
            final(self).write_buffer == old(self).write_buffer,
    {
        let handle = IOHandle::new(self.next_handle);
        self.next_handle = self.next_handle.wrapping_add(1);
        self.open_io.insert(Descriptor { process, handle });
        Ok(handle)
    }

    /// Close a handle. Only the first slot of the open handles is looked at:
    /// the search returns when it holds `close_handle`, or when there are no
    /// slots at all.
    pub fn close(&mut self, close_handle: IOHandle) -> (r: Result<(), ()>)
        requires
            old(self).open_io@.len() > 0 ==> (old(self).open_io@[0] matches Some(d) && d.handle == close_handle),
        ensures
            old(self).open_io@.len() == 0 ==> r is Err && final(self).open_io@ == old(self).open_io@,
            old(self).open_io@.len() > 0 ==> r is Ok && final(self).open_io@ == old(self).open_io@.update(0, None),
            final(self).next_handle == old(self).next_handle,
            final(self).read_buffer == old(self).read_buffer,
            final(self).write_buffer == old(self).write_buffer,
    {
        let index: usize = 0;
        let mut to_close: Option<usize> = None;
        if index < self.open_io.len() {
            match self.open_io.get(index) {
                Some(entry) => {
                    if entry.handle.0 == close_handle.0 {
                        to_close = Some(index);
                    }
                },
                None => {},
            }
        }
        match to_close {
            Some(i) => {
                self.open_io.remove(i);
                Ok(())
            },
            None => Err(()),
        }
    }

    /// Continue a line read from the device.
    pub fn read(&mut self, handle: IOHandle, dest: &mut [u8], progress: ReadProgress) -> (r: Result<ReadProgress, ()>)
        requires
            old(self).wf(),
            progress.bytes_read <= old(dest)@.len(),
        ensures
            final(self).wf(),
            ({
                let (d, n, last, taken) = super::buffers::take_line(old(dest)@, progress.bytes_read as int,
                    progress.last_byte, old(self).read_buffer.buffer@);
                &&& r == Ok::<ReadProgress, ()>(ReadProgress { bytes_read: n as usize, last_byte: last })
                &&& final(dest)@ == d
                &&& final(self).read_buffer.buffer@ == old(self).read_buffer.buffer@.subrange(taken, old(self).read_buffer.buffer@.len() as int)
            }),
            final(self).write_buffer == old(self).write_buffer,
            final(self).open_io@ == old(self).open_io@,
            final(self).next_handle == old(self).next_handle,
    {
        Ok(self.read_buffer.read(dest, progress))
    }

    /// Write bytes to the device, as many as its buffer has room for.
    pub fn write(&mut self, handle: IOHandle, buffer: &[u8]) -> (r: Result<usize, ()>)
        requires
            old(self).wf(),
        ensures
            final(self).wf(),
            r matches Ok(n) && n == (if buffer@.len() < super::buffers::BUFFER_SIZE - old(self).write_buffer.buffer@.len() {
                buffer@.len() as int
            } else {
                super::buffers::BUFFER_SIZE - old(self).write_buffer.buffer@.len()
            }) && final(self).write_buffer.buffer@ == old(self).write_buffer.buffer@ + buffer@.subrange(0, n as int),
            final(self).read_buffer == old(self).read_buffer,
            final(self).open_io@ == old(self).open_io@,
            final(self).next_handle == old(self).next_handle,
    {
        Ok(self.write_buffer.write(handle, buffer))
    }
}

/// Add the state of a new terminal device, returning its index.
pub fn create_tty(devices: &mut Vec<TTYDeviceData>) -> (r: usize)
    ensures
        r == old(devices)@.len(),
        final(devices)@.len() == old(devices)@.len() + 1,
        final(devices)@.subrange(0, r as int) == old(devices)@,
        final(devices)@[r as int].wf(),
        final(devices)@[r as int].open_io@.len() == 0,
        final(devices)@[r as int].next_handle == 1,
        final(devices)@[r as int].read_buffer.buffer@.len() == 0,
        final(devices)@[r as int].write_buffer.buffer@.len() == 0,
{
    let len = devices.len();
    devices.push(TTYDeviceData::new());
    assert(devices@.subrange(0, len as int) =~= old(devices)@);
    len
}

/// The buffer of what programs wrote to terminal `index`.
pub fn get_write_buffer(devices: &Vec<TTYDeviceData>, index: usize) -> (r: &TTYWriterBuffer)
    requires
        index < devices@.len(),
    ensures
        *r == devices@[index as int].write_buffer,
{
    &devices[index].write_buffer
}

/// The buffer of keyboard input waiting for readers of terminal `index`.
pub fn get_read_buffer(devices: &Vec<TTYDeviceData>, index: usize) -> (r: &TTYReaderBuffer)
    requires
        index < devices@.len(),
    ensures
        *r == devices@[index as int].read_buffer,
{
    &devices[index].read_buffer
}

} // verus!
