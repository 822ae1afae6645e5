use vstd::prelude::*;

verus! {

/// A file handle for a pipe can be a read-only handle, or a write-only
/// handle; either holds the index of its pipe.
#[derive(Copy, Clone, Debug, PartialEq, Eq, Structural)]
pub enum PipeHandle {
    ReadHandle(usize),
    WriteHandle(usize),
}

impl PipeHandle {
    pub fn can_read(&self) -> (r: bool)
        ensures
            r == (*self is ReadHandle),
    {
        match self {
            PipeHandle::ReadHandle(_) => true,
            PipeHandle::WriteHandle(_) => false,
        }
    }

    pub fn can_write(&self) -> (r: bool)
        ensures
            r == (*self is WriteHandle),
    {
        match self {
            PipeHandle::WriteHandle(_) => true,
            PipeHandle::ReadHandle(_) => false,
        }
    }

    pub fn to_index(&self) -> (r: usize)
        ensures
            r == match *self {
                PipeHandle::ReadHandle(i) => i,
                PipeHandle::WriteHandle(i) => i,
            },
    {
        match self {
            PipeHandle::ReadHandle(i) => *i,
            PipeHandle::WriteHandle(i) => *i,
        }
    }
}

} // verus!
