//! Addresses in the 32-bit physical and virtual address spaces.
use vstd::prelude::*;

verus! {

/// Size of a single page of memory, in bytes.
pub const PAGE_SIZE_IN_BYTES: usize = 0x1000;

/// An address in the 32-bit virtual address space.
#[derive(Copy, Clone, Debug, PartialEq, Eq, PartialOrd, Ord, Hash, Structural)]
pub struct VirtualAddress(pub u32);

/// An address in the 32-bit physical address space.
#[derive(Copy, Clone, Debug, PartialEq, Eq, PartialOrd, Ord, Hash, Structural)]
pub struct PhysicalAddress(pub u32);

/// Round an address down to the start of its page.
pub open spec fn page_floor(a: int) -> int {
    a - a % 0x1000
}

/// Round an address up to the next page boundary (itself, when it is one).
pub open spec fn page_ceil(a: int) -> int {
    if a % 0x1000 == 0 {
        a
    } else {
        a - a % 0x1000 + 0x1000
    }
}

pub proof fn lemma_mask_is_page_floor(x: u32)
    ensures
        (x & 0xfffff000u32) as int == page_floor(x as int),
        x & 0xfffu32 == x % 0x1000,
{
    assert(x & 0xfffff000u32 == x - x % 0x1000) by (bit_vector);
    assert(x & 0xfffu32 == x % 0x1000) by (bit_vector);
}

impl VirtualAddress {
    pub open spec fn val(self) -> int {
        self.0 as int
    }

    pub fn new(addr: u32) -> (r: VirtualAddress)
        ensures
            r.0 == addr,
    {
        VirtualAddress(addr)
    }

    pub fn as_usize(&self) -> (r: usize)
        ensures
            r == self.0,
    {
        self.0 as usize
    }

    pub fn as_u32(&self) -> (r: u32)
        ensures
            r == self.0,
    {
        self.0
    }

    /// The address `delta` bytes above this one.
    pub fn offset(&self, delta: usize) -> (r: VirtualAddress)
        requires
            self.0 + delta <= u32::MAX,
        ensures
            r.0 == self.0 + delta,
    {
        VirtualAddress((self.0 as usize + delta) as u32)
    }

    /// The address `delta` bytes below this one.
    pub fn offset_back(&self, delta: usize) -> (r: VirtualAddress)
        requires
            delta <= self.0,
        ensures
            r.0 == self.0 - delta,
    {
        VirtualAddress((self.0 as usize - delta) as u32)
    }

    /// The number of bytes from `other` up to this address.
    pub fn distance_from(&self, other: VirtualAddress) -> (r: usize)
        requires
            other.0 <= self.0,
        ensures
            r == self.0 - other.0,
    {
        (self.0 - other.0) as usize
    }

    pub fn is_page_aligned(&self) -> (r: bool)
        ensures
            r == (self.0 % 0x1000 == 0),
    {
        proof {
            lemma_mask_is_page_floor(self.0);
        }
        self.0 & 0xfff == 0
    }

    /// The start of the page containing this address.
    pub fn prev_page_barrier(&self) -> (r: VirtualAddress)
        ensures
            r.0 == page_floor(self.0 as int),
    {
        proof {
            lemma_mask_is_page_floor(self.0);
        }
        VirtualAddress(self.0 & 0xfffff000)
    }

    /// The first page boundary at or above this address.
    pub fn next_page_barrier(&self) -> (r: VirtualAddress)
        requires
            page_ceil(self.0 as int) <= u32::MAX,
        ensures
            r.0 == page_ceil(self.0 as int),
    {
        proof {
            lemma_mask_is_page_floor(self.0);
        }
        if self.0 & 0xfff == 0 {
            *self
        } else {
            VirtualAddress((self.0 & 0xfffff000) + 0x1000)
        }
    }

    /// Index of the page directory entry that covers this address.
    pub fn get_page_directory_index(&self) -> (r: usize)
        ensures
            r == self.0 / 0x400000,
            r < 1024,
    {
        let a = self.0;
        assert(a >> 22u32 == a / 0x400000) by (bit_vector);
        (a >> 22) as usize
    }
}

impl PhysicalAddress {
    pub fn new(addr: u32) -> (r: PhysicalAddress)
        ensures
            r.0 == addr,
    {
        PhysicalAddress(addr)
    }

    pub fn as_usize(&self) -> (r: usize)
        ensures
            r == self.0,
    {
        self.0 as usize
    }

    pub fn as_u32(&self) -> (r: u32)
        ensures
            r == self.0,
    {
        self.0
    }
}

} // verus!
