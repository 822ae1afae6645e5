//! Handles: indices naming open files and devices.
use vstd::prelude::*;

verus! {

/// A process-level handle to an open file: an index into its file map.
#[derive(Copy, Clone, Debug, PartialEq, Eq, Structural)]
pub struct FileHandle(pub u32);

/// A handle local to a drive or filesystem.
#[derive(Copy, Clone, Debug, PartialEq, Eq, Structural)]
pub struct LocalHandle(pub u32);

/// A handle local to a device driver.
#[derive(Copy, Clone, Debug, PartialEq, Eq, Structural)]
pub struct IOHandle(pub usize);

impl FileHandle {
    pub fn new(index: u32) -> (r: Self)
        ensures
            r.0 == index,
    {
        FileHandle(index)
    }

    pub fn as_u32(&self) -> (r: u32)
        ensures
            r == self.0,
    {
        self.0
    }

    pub fn as_usize(&self) -> (r: usize)
        ensures
            r == self.0,
    {
        self.0 as usize
    }
}

impl LocalHandle {
    pub fn new(index: u32) -> (r: Self)
        ensures
            r.0 == index,
    {
        LocalHandle(index)
    }

    pub fn as_u32(&self) -> (r: u32)
        ensures
            r == self.0,
    {
        self.0
    }

    pub fn as_usize(&self) -> (r: usize)
        ensures
            r == self.0,
    {
        self.0 as usize
    }
}

impl IOHandle {
    pub fn new(index: usize) -> (r: Self)
        ensures
            r.0 == index,
    {
        IOHandle(index)
    }

    pub fn as_usize(&self) -> (r: usize)
        ensures
            r == self.0,
    {
        self.0
    }
}

} // verus!
