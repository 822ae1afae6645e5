use vstd::prelude::*;
use super::address::PhysicalAddress;

verus! {

/// The physical address of a page directory. When switching to a process,
/// this address is written to CR3.
#[derive(Copy, Clone, Debug, PartialEq, Eq, Structural)]
pub struct PageTableReference(pub PhysicalAddress);

impl PageTableReference {
    pub fn new(addr: PhysicalAddress) -> (r: Self)
        ensures
            r.0 == addr,
    {
        PageTableReference(addr)
    }

    pub fn get_address(&self) -> (r: PhysicalAddress)
        ensures
            r == self.0,
    {
        self.0
    }
}

/// An entry of a page directory or a page table, by the flags the kernel
/// reads and sets: present, writable, user-accessible, copy-on-write (a bit
/// left to the operating system), and the frame it points to.
#[derive(Copy, Clone, Debug, PartialEq, Eq, Structural)]
pub struct PageEntry {
    pub present: bool,
    pub writable: bool,
    pub user: bool,
    pub cow: bool,
    pub address: PhysicalAddress,
}

impl PageEntry {
    /// A zeroed entry: not present.
    pub open spec fn zero() -> PageEntry {
        PageEntry { present: false, writable: false, user: false, cow: false, address: PhysicalAddress(0) }
    }

    pub fn empty() -> (r: PageEntry)
        ensures
            r == PageEntry::zero(),
    {
        PageEntry { present: false, writable: false, user: false, cow: false, address: PhysicalAddress(0) }
    }
}

} // verus!
