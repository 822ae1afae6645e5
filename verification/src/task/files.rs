use vstd::prelude::*;
use crate::collections::SlotList;
use crate::files::handle::LocalHandle;

verus! {

#[derive(Copy, Clone, Debug, PartialEq, Eq, Structural)]
pub struct DriveID(pub usize);

impl DriveID {
    pub fn new(id: usize) -> (r: DriveID)
        ensures
            r.0 == id,
    {
        DriveID(id)
    }

    pub fn as_u32(&self) -> (r: u32)
        ensures
            r == self.0 as u32,
    {
        self.0 as u32
    }
}

/// An open file: the drive it belongs to, and the handle local to that drive
/// through which it is accessed.
#[derive(Copy, Clone, Debug, PartialEq, Eq, Structural)]
pub struct OpenFile {
    pub drive: DriveID,
    pub local_handle: LocalHandle,
}

/// The slots of a process's open files. A FileHandle is an index into it.
pub type FileMap = SlotList<OpenFile>;

} // verus!
