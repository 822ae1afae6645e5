//! Directory entries as reported to userspace.
use vstd::prelude::*;

verus! {

#[derive(Copy, Clone, Debug, PartialEq, Eq, Structural)]
pub enum DirEntryType {
    Empty,
    Directory,
    File,
}

/// One entry of a directory listing: an 8.3 name padded with spaces.
#[derive(Copy, Clone, Debug)]
pub struct DirEntryInfo {
    pub file_name: [u8; 8],
    pub file_ext: [u8; 3],
    pub entry_type: DirEntryType,
    pub byte_size: usize,
}

impl DirEntryInfo {
    /// An entry naming nothing: blank name and extension, size 0.
    pub fn empty() -> (r: DirEntryInfo)
        ensures
            r.file_name@ == seq![0x20u8, 0x20, 0x20, 0x20, 0x20, 0x20, 0x20, 0x20],
            r.file_ext@ == seq![0x20u8, 0x20, 0x20],
            r.entry_type == DirEntryType::Empty,
            r.byte_size == 0,
    {
        let r = DirEntryInfo {
            file_name: [0x20, 0x20, 0x20, 0x20, 0x20, 0x20, 0x20, 0x20],
            file_ext: [0x20, 0x20, 0x20],
            entry_type: DirEntryType::Empty,
            byte_size: 0,
        };
        assert(r.file_name@ =~= seq![0x20u8, 0x20, 0x20, 0x20, 0x20, 0x20, 0x20, 0x20]);
        assert(r.file_ext@ =~= seq![0x20u8, 0x20, 0x20]);
        r
    }

    pub fn is_empty(&self) -> (r: bool)
        ensures
            r == (self.entry_type == DirEntryType::Empty),
    {
        match self.entry_type {
            DirEntryType::Empty => true,
            _ => false,
        }
    }
}

} // verus!
