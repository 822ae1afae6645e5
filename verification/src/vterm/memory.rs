//! Backups of memory-mapped devices, such as video RAM.
use vstd::prelude::*;
use crate::memory::address::{PhysicalAddress, VirtualAddress};

verus! {

/// A memory backup tracks a memory-mapped device (like video RAM) that is
/// backed by an in-memory copy. While a process using the device is
/// inactive, it updates the backup copy, which is restored to the device
/// once it is active again.
#[derive(Copy, Clone, Debug, PartialEq, Eq, Structural)]
pub struct MemoryBackup {
    /// The location of the actual hardware on the memory bus
    pub physical_address: PhysicalAddress,
    /// The physical address of the memory used to back it up, useful for
    /// making new page mappings
    pub buffer_frame: PhysicalAddress,
    /// The virtual address (in kernel space) of the backup page
    pub mapped_to: VirtualAddress,
}

impl MemoryBackup {
    pub fn get_buffer_physical_address(&self) -> (r: PhysicalAddress)
        ensures
            r == self.buffer_frame,
    {
        self.buffer_frame
    }

    /// Where the device memory is accessible from the kernel: physical
    /// memory is mapped 0xc0000000 bytes up.
    pub fn get_kernel_location(&self) -> (r: VirtualAddress)
        requires
            self.physical_address.0 + 0xc0000000 <= u32::MAX,
        ensures
            r.0 == self.physical_address.0 + 0xc0000000,
    {
        VirtualAddress::new(self.physical_address.0 + 0xc0000000)
    }
}

} // verus!
