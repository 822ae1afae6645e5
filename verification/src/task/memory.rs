//! Processes are protected and separated by independent memory address
//! spaces. The 32-bit kernel supports 4GiB of virtual memory: the lower 3GiB
//! belong to the process in userspace, memory above 3GiB is reserved for the
//! kernel.
//!
//! Each space holds fixed execution mappings, arbitrary mmaps, an
//! upward-growing heap and a downward-growing stack. Calls to mmap that do not
//! ask for a location are placed near the top of the space, moving downwards
//! as space is occupied.
use vstd::prelude::*;
use core::ops::Range;
use super::mmap_laws::{lemma_mmap_keeps_disjoint, lemma_request_honored, low_request_clear, map_disjoint, request_honored};
use super::unmap_laws::{lemma_munmap_frees_range, map_holds, within};
use super::mmap_list::{
    find_slot, insert_region, lemma_region_map_all, region_map, regions_fit, regions_sorted, remove_region,
};
use crate::memory::address::{
    page_ceil, page_floor, PhysicalAddress, VirtualAddress, PAGE_SIZE_IN_BYTES,
};

verus! {

pub const USER_KERNEL_BARRIER: usize = 0xc0000000;

/// Top of the kernel-space area available to mmap: just below the area
/// reserved for the kernel stacks of all processes.
pub const KERNEL_MMAP_TOP: usize = 0xefc04000;

// ---------------------------------------------------------------------------
// Execution sections and segments

/// A mapping between part of an executable file and its location inside an
/// execution segment. When a frame of virtual memory needs to be initialized,
/// this mapping determines which bytes to load from the source file.
#[derive(Copy, Clone, Debug, PartialEq, Eq, Structural)]
pub struct ExecutionSection {
    /// Where in the memory segment the section is copied to
    pub segment_offset: usize,
    /// Where the section is found in the executable file. If None, the section
    /// is backed by zeroes.
    pub executable_offset: Option<usize>,
    /// Section size, in bytes
    pub size: usize,
}

/// The section restricted to the part of its segment that lies in
/// `[range_start, range_end)`.
pub open spec fn clipped_section(s: ExecutionSection, range_start: int, range_end: int) -> ExecutionSection {
    let start = if s.segment_offset < range_start { range_start } else { s.segment_offset as int };
    let offset = if s.segment_offset < range_start {
        match s.executable_offset {
            Some(off) => Some((off + (range_start - s.segment_offset)) as usize),
            None => None,
        }
    } else {
        s.executable_offset
    };
    let sec_end = s.segment_offset + s.size;
    let end = if range_end < sec_end { range_end } else { sec_end };
    ExecutionSection {
        segment_offset: start as usize,
        executable_offset: offset,
        size: (if end > start { end - start } else { 0 }) as usize,
    }
}

impl ExecutionSection {
    /// The virtual address range covered by this section, given the starting
    /// address of its parent segment.
    pub fn as_virtual_range(&self, segment_start: VirtualAddress) -> (r: Range<VirtualAddress>)
        requires
            segment_start.0 + self.segment_offset + self.size <= u32::MAX,
        ensures
            r.start.0 == segment_start.0 + self.segment_offset,
            r.end.0 == segment_start.0 + self.segment_offset + self.size,
    {
        let start = segment_start.offset(self.segment_offset);
        let end = start.offset(self.size);
        Range { start, end }
    }

    /// Restrict the section to the part of the segment found in `range`.
    pub fn clip_to(&self, range: Range<usize>) -> (r: ExecutionSection)
        requires
            self.segment_offset + self.size <= usize::MAX,
            self.segment_offset < range.start ==> match self.executable_offset {
                Some(off) => off + (range.start - self.segment_offset) <= usize::MAX,
                None => true,
            },
        ensures
            r == clipped_section(*self, range.start as int, range.end as int),
    {
        let (start, offset) = if self.segment_offset < range.start {
            let delta = range.start - self.segment_offset;
            let off = match self.executable_offset {
                Some(off) => Some(off + delta),
                None => None,
            };
            (range.start, off)
        } else {
            (self.segment_offset, self.executable_offset)
        };
        let sec_end = self.segment_offset + self.size;
        let end = if range.end < sec_end { range.end } else { sec_end };
        let size = if end > start { end - start } else { 0 };
        ExecutionSection { segment_offset: start, executable_offset: offset, size }
    }

    pub fn is_empty(&self) -> (r: bool)
        ensures
            r == (self.size == 0),
    {
        self.size == 0
    }
}

/// Errors raised while editing the memory layout of a process.
#[derive(Copy, Clone, Debug, PartialEq, Eq, Structural)]
pub enum ProcessMemoryError {
    /// A segment was created outside of page alignment
    SegmentWrongAlignment,
    /// A section was constructed outside the bounds of its parent segment
    SectionOutOfBounds,
    /// A mmap was attempted outside of page alignment
    MMapWrongAlignment,
    /// Not enough memory for the requested mapping
    NotEnoughMemory,
    /// A mapping or unmapping was requested outside of process memory
    MapOutOfBounds,
    /// Attempted to unmap a region of memory that wasn't a multiple of page size
    MUnmapNotPageMultiple,
}

/// A series of virtual memory pages associated with data stored in an
/// executable file. Each segment has a single set of permissions and is page
/// aligned.
pub struct ExecutionSegment {
    /// Where the segment begins in virtual memory; page-aligned.
    pub address: VirtualAddress,
    /// The size of the segment in bytes, a multiple of the page size.
    pub size: usize,
    /// The sections found in this segment.
    pub sections: Vec<ExecutionSection>,
    /// Is the segment user-writable?
    pub can_write: bool,
}

/// Does the section, placed in a segment starting at `start`, hold `addr`?
pub open spec fn section_holds(start: VirtualAddress, s: ExecutionSection, addr: VirtualAddress) -> bool {
    start.0 + s.segment_offset <= addr.0 < start.0 + s.segment_offset + s.size
}

impl ExecutionSegment {
    /// Every section's address range is representable.
    pub open spec fn sections_fit(&self) -> bool {
        forall|i: int| 0 <= i < self.sections@.len() ==>
            self.address.0 + #[trigger] self.sections@[i].segment_offset + self.sections@[i].size <= u32::MAX
    }

    /// Some section of the segment holds `addr`.
    pub open spec fn holds(&self, addr: VirtualAddress) -> bool {
        exists|i: int| 0 <= i < self.sections@.len() && section_holds(self.address, #[trigger] self.sections@[i], addr)
    }

    /// A new segment at `address` holding `pages` pages and no sections.
    pub fn at_address(address: VirtualAddress, pages: usize) -> (r: Result<Self, ProcessMemoryError>)
        requires
            pages * 0x1000 <= usize::MAX,
        ensures
            match r {
                Ok(seg) => address.0 % 0x1000 == 0 && seg.address == address
                    && seg.size == pages * 0x1000 && seg.sections@.len() == 0 && !seg.can_write,
                Err(e) => address.0 % 0x1000 != 0 && e == ProcessMemoryError::SegmentWrongAlignment,
            },
    {
        if !address.is_page_aligned() {
            return Err(ProcessMemoryError::SegmentWrongAlignment);
        }
        Ok(Self { address, size: pages * PAGE_SIZE_IN_BYTES, sections: Vec::new(), can_write: false })
    }

    /// Add a section, refusing one that reaches beyond the segment.
    pub fn add_section(&mut self, section: ExecutionSection) -> (r: Result<(), ProcessMemoryError>)
        requires
            section.segment_offset + section.size <= usize::MAX,
        ensures
            final(self).address == old(self).address,
            final(self).size == old(self).size,
            final(self).can_write == old(self).can_write,
            section.segment_offset + section.size > old(self).size ==> {
                &&& r == Err::<(), ProcessMemoryError>(ProcessMemoryError::SectionOutOfBounds)
                &&& final(self).sections@ == old(self).sections@
            },
            section.segment_offset + section.size <= old(self).size ==> {
                &&& r is Ok
                &&& final(self).sections@ == old(self).sections@.push(section)
            },
    {
        if section.segment_offset + section.size > self.size {
            return Err(ProcessMemoryError::SectionOutOfBounds);
        }
        self.sections.push(section);
        Ok(())
    }

    pub fn set_user_can_write(&mut self, flag: bool)
        ensures
            final(self).can_write == flag,
            final(self).address == old(self).address,
            final(self).size == old(self).size,
            final(self).sections@ == old(self).sections@,
    {
        self.can_write = flag;
    }

    pub fn user_can_write(&self) -> (r: bool)
        ensures
            r == self.can_write,
    {
        self.can_write
    }

    /// Is the address found in any of the segment's sections?
    pub fn contains_address(&self, addr: &VirtualAddress) -> (r: bool)
        requires
            self.sections_fit(),
        ensures
            r == self.holds(*addr),
    {
        let mut i: usize = 0;
        while i < self.sections.len()
            invariant
                i <= self.sections@.len(),
                self.sections_fit(),
                forall|j: int| 0 <= j < i ==> !section_holds(self.address, #[trigger] self.sections@[j], *addr),
            decreases self.sections@.len() - i,
        {
            let range = self.sections[i].as_virtual_range(self.address);
            if range.start.0 <= addr.0 && addr.0 < range.end.0 {
                return true;
            }
            i += 1;
        }
        false
    }

    pub fn get_starting_address(&self) -> (r: VirtualAddress)
        ensures
            r == self.address,
    {
        self.address
    }

    pub fn get_size(&self) -> (r: usize)
        ensures
            r == self.size,
    {
        self.size
    }

    /// The sections of the segment, in the order they were added.
    pub fn sections_iter(&self) -> (r: &Vec<ExecutionSection>)
        ensures
            r@ == self.sections@,
    {
        &self.sections
    }
}

impl Clone for ExecutionSegment {
    fn clone(&self) -> (r: Self)
        ensures
            r.address == self.address,
            r.size == self.size,
            r.sections@ == self.sections@,
            r.can_write == self.can_write,
    {
        let mut sections: Vec<ExecutionSection> = Vec::new();
        let mut i: usize = 0;
        while i < self.sections.len()
            invariant
                i <= self.sections@.len(),
                sections@ == self.sections@.subrange(0, i as int),
            decreases self.sections@.len() - i,
        {
            sections.push(self.sections[i]);
            i += 1;
            assert(sections@ =~= self.sections@.subrange(0, i as int));
        }
        assert(sections@ =~= self.sections@);
        Self { address: self.address, size: self.size, sections, can_write: self.can_write }
    }
}

// ---------------------------------------------------------------------------
// mmap regions

/// How a mmap region behaves when a page fault occurs: where the memory or
/// data that it points to is found.
#[derive(Copy, Clone, Debug, PartialEq, Eq, Structural)]
pub enum MMapBacking {
    /// Points directly to a same-sized region of physical memory.
    Direct(PhysicalAddress),
    /// Backed by an arbitrary section of physical memory.
    Anonymous,
    /// Like Anonymous, but in the first 16MiB, for ISA DMA.
    DMA,
    /// Backed by the contents of a file.
    DeviceFile,
}

/// A section of memory allocated by the `mmap` syscall.
#[derive(Copy, Clone, Debug, PartialEq, Eq, Structural)]
pub struct MMapRegion {
    pub address: VirtualAddress,
    pub size: usize,
    pub backed_by: MMapBacking,
}

impl MMapRegion {
    pub open spec fn end(self) -> int {
        self.address.0 + self.size
    }

    pub open spec fn holds(self, addr: VirtualAddress) -> bool {
        self.address.0 <= addr.0 < self.end()
    }

    pub fn get_address_range(&self) -> (r: Range<VirtualAddress>)
        requires
            self.end() <= u32::MAX,
        ensures
            r.start == self.address,
            r.end.0 == self.end(),
    {
        let start = self.address;
        let end = start.offset(self.size);
        Range { start, end }
    }

    pub fn contains_address(&self, addr: &VirtualAddress) -> (r: bool)
        requires
            self.end() <= u32::MAX,
        ensures
            r == self.holds(*addr),
    {
        let range = self.get_address_range();
        range.start.0 <= addr.0 && addr.0 < range.end.0
    }

    pub fn is_empty(&self) -> (r: bool)
        ensures
            r == (self.size == 0),
    {
        self.size == 0
    }
}

// ---------------------------------------------------------------------------
// Ranges

/// Do two half-open address ranges share at least one address?
pub open spec fn ranges_intersect(a: Range<VirtualAddress>, b: Range<VirtualAddress>) -> bool {
    &&& a.start.0 < a.end.0
    &&& b.start.0 < b.end.0
    &&& a.start.0 < b.end.0
    &&& b.start.0 < a.end.0
}

/// Whether two address ranges overlap: their lengths add up to more than the
/// span from the lowest start to the highest end.
pub fn ranges_overlap(a: &Range<VirtualAddress>, b: &Range<VirtualAddress>) -> (r: bool)
    requires
        a.start.0 <= a.end.0,
        b.start.0 <= b.end.0,
        (a.end.0 - a.start.0) + (b.end.0 - b.start.0) <= usize::MAX,
    ensures
        r == ranges_intersect(*a, *b),
{
    let min = if a.start.0 < b.start.0 { a.start } else { b.start };
    let max = if a.end.0 > b.end.0 { a.end } else { b.end };
    let a_length = a.end.distance_from(a.start);
    let b_length = b.end.distance_from(b.start);
    (a_length + b_length) > max.distance_from(min)
}


// ---------------------------------------------------------------------------
// The memory layout of an address space

/// The lowest starting address of the segments (0xffffffff for none).
pub open spec fn segments_low(segs: Seq<ExecutionSegment>) -> int
    decreases segs.len(),
{
    if segs.len() == 0 {
        0xffffffff
    } else {
        let rest = segments_low(segs.drop_last());
        let a = segs.last().address.0 as int;
        if a < rest { a } else { rest }
    }
}

/// The highest end address of the segments (0 for none).
pub open spec fn segments_high(segs: Seq<ExecutionSegment>) -> int
    decreases segs.len(),
{
    if segs.len() == 0 {
        0
    } else {
        let rest = segments_high(segs.drop_last());
        let e = segs.last().address.0 + segs.last().size;
        if e > rest { e } else { rest }
    }
}

/// Where the execution segments start: 0 when there are none.
pub open spec fn exec_start_of(segs: Seq<ExecutionSegment>) -> int {
    if segs.len() == 0 { 0 } else { segments_low(segs) }
}

/// Every segment ends inside the 32-bit address space.
pub open spec fn segments_fit(segs: Seq<ExecutionSegment>) -> bool {
    forall|i: int| 0 <= i < segs.len() ==> #[trigger] segs[i].address.0 + segs[i].size <= u32::MAX
}

pub proof fn lemma_segments_bounds(segs: Seq<ExecutionSegment>)
    requires
        segments_fit(segs),
    ensures
        0 <= segments_high(segs) <= u32::MAX,
        0 <= segments_low(segs) <= 0xffffffff,
        forall|i: int| 0 <= i < segs.len() ==> #[trigger] segs[i].address.0 + segs[i].size <= segments_high(segs),
        forall|i: int| 0 <= i < segs.len() ==> segments_low(segs) <= #[trigger] segs[i].address.0,
    decreases segs.len(),
{
    if segs.len() > 0 {
        let rest = segs.drop_last();
        assert(segments_fit(rest)) by {
            assert forall|i: int| 0 <= i < rest.len() implies #[trigger] rest[i].address.0 + rest[i].size <= u32::MAX by {
                assert(rest[i] == segs[i]);
            }
        }
        lemma_segments_bounds(rest);
        assert forall|i: int| 0 <= i < segs.len() implies #[trigger] segs[i].address.0 + segs[i].size <= segments_high(segs) by {
            if i < segs.len() - 1 {
                assert(rest[i] == segs[i]);
            }
        }
        assert forall|i: int| 0 <= i < segs.len() implies segments_low(segs) <= #[trigger] segs[i].address.0 by {
            if i < segs.len() - 1 {
                assert(rest[i] == segs[i]);
            }
        }
    }
}

/// Walk the mmap regions from the highest down, looking for a gap of `size`
/// bytes between the (page-rounded) end of a region and the start of the
/// region above it; the first `n` regions are left to visit. With no gap
/// found, the space is taken below the lowest region.
pub open spec fn search_free(s: Seq<MMapRegion>, n: int, prev_start: int, size: int) -> int
    decreases n,
{
    if n <= 0 {
        page_floor(prev_start - size)
    } else {
        let r = s[n - 1];
        let region_end = page_ceil(r.end());
        if prev_start - region_end >= size {
            page_floor(prev_start - size)
        } else {
            search_free(s, n - 1, r.address.0 as int, size)
        }
    }
}

/// The walk of `search_free` never subtracts below zero and never rounds
/// past the top of the address space.
pub open spec fn search_free_defined(s: Seq<MMapRegion>, n: int, prev_start: int, size: int) -> bool
    decreases n,
{
    if n <= 0 {
        prev_start >= size
    } else {
        let r = s[n - 1];
        let region_end = page_ceil(r.end());
        &&& region_end <= u32::MAX
        &&& prev_start >= region_end
        &&& (prev_start - region_end >= size || search_free_defined(s, n - 1, r.address.0 as int, size))
    }
}

pub proof fn lemma_search_free_bounds(s: Seq<MMapRegion>, n: int, prev_start: int, size: int)
    requires
        search_free_defined(s, n, prev_start, size),
        n <= s.len(),
        size >= 0,
    ensures
        0 <= search_free(s, n, prev_start, size),
        search_free(s, n, prev_start, size) + size <= prev_start,
        search_free(s, n, prev_start, size) % 0x1000 == 0,
    decreases n,
{
    if n > 0 {
        let r = s[n - 1];
        let region_end = page_ceil(r.end());
        if prev_start - region_end < size {
            lemma_search_free_bounds(s, n - 1, r.address.0 as int, size);
        }
    }
}

/// Kernel-level description of the memory layout of one address space.
pub struct MemoryRegions {
    /// Execution segments holding the program's code and data.
    pub execution_segments: Vec<ExecutionSegment>,
    /// Caches the first address following all execution segments
    pub heap_start: VirtualAddress,
    /// Size of the heap found after the execution segments, controlled by the
    /// `brk`/`sbrk` syscalls.
    pub heap_size: usize,
    /// The highest location available to this space; only space below it is
    /// allocated for mmap operations
    pub memory_top: usize,
    /// The mmap regions, ordered by starting address
    pub mmap_regions: Vec<MMapRegion>,
}

impl MemoryRegions {
    /// The invariant kept by every operation on the layout.
    pub open spec fn wf(&self) -> bool {
        &&& regions_sorted(self.mmap_regions@)
        &&& regions_fit(self.mmap_regions@)
        &&& self.memory_top <= u32::MAX
    }

    /// The mmap regions, keyed by starting address.
    pub open spec fn regions(&self) -> Map<u32, MMapRegion> {
        region_map(self.mmap_regions@)
    }

    /// The end of the heap, rounded up to a page boundary.
    pub open spec fn heap_page_end(&self) -> int {
        page_ceil(self.heap_start.0 + self.heap_size)
    }

    pub open spec fn heap_fits(&self) -> bool {
        self.heap_page_end() <= u32::MAX
    }

    pub open spec fn exec_start(&self) -> int {
        exec_start_of(self.execution_segments@)
    }

    pub open spec fn heap_page_range(&self) -> Range<VirtualAddress> {
        Range { start: self.heap_start, end: VirtualAddress(self.heap_page_end() as u32) }
    }

    /// Whether `range` can be mapped: either it ends before the execution
    /// segments, or it meets neither the heap nor any mmap region.
    pub open spec fn fits_range(&self, range: Range<VirtualAddress>) -> bool {
        ||| range.end.0 <= self.exec_start()
        ||| {
            &&& !ranges_intersect(range, self.heap_page_range())
            &&& forall|i: int| 0 <= i < self.mmap_regions@.len() ==> !ranges_intersect(
                #[trigger] region_range(self.mmap_regions@[i]), range)
        }
    }

    /// `can_fit_range` computes without overflow.
    pub open spec fn fits_range_defined(&self, range: Range<VirtualAddress>) -> bool {
        &&& range.start.0 <= range.end.0
        &&& range.end.0 > self.exec_start() ==> {
            &&& self.heap_fits()
            &&& (range.end.0 - range.start.0) + (self.heap_page_end() - self.heap_start.0) <= usize::MAX
            &&& forall|i: int| 0 <= i < self.mmap_regions@.len() ==>
                (range.end.0 - range.start.0) + (#[trigger] self.mmap_regions@[i]).size <= usize::MAX
        }
    }

    /// Where `find_free_mmap_space` places a region of `size` bytes.
    pub open spec fn free_space(&self, size: int) -> Option<int> {
        if self.memory_top - size < self.heap_page_end() {
            None
        } else {
            Some(search_free(self.mmap_regions@, self.mmap_regions@.len() as int, self.memory_top as int, size))
        }
    }

    /// `find_free_mmap_space` computes without overflow.
    pub open spec fn free_space_defined(&self, size: int) -> bool {
        &&& size <= self.memory_top
        &&& self.heap_fits()
        &&& self.memory_top - size >= self.heap_page_end() ==> search_free_defined(
            self.mmap_regions@, self.mmap_regions@.len() as int, self.memory_top as int, size)
    }

    /// An empty userspace layout, topped by the kernel barrier.
    pub fn new() -> (r: Self)
        ensures
            r.wf(),
            r.execution_segments@.len() == 0,
            r.heap_start.0 == 0,
            r.heap_size == 0,
            r.memory_top == USER_KERNEL_BARRIER,
            r.mmap_regions@.len() == 0,
    {
        Self::with_memory_top(USER_KERNEL_BARRIER)
    }

    /// An empty layout whose mmaps are allocated below `top`.
    pub fn with_memory_top(top: usize) -> (r: Self)
        requires
            top <= u32::MAX,
        ensures
            r.wf(),
            r.execution_segments@.len() == 0,
            r.heap_start.0 == 0,
            r.heap_size == 0,
            r.memory_top == top,
            r.mmap_regions@.len() == 0,
    {
        Self {
            execution_segments: Vec::new(),
            heap_start: VirtualAddress::new(0),
            heap_size: 0,
            memory_top: top,
            mmap_regions: Vec::new(),
        }
    }

    /// The lowest address of any execution segment (0 without segments).
    pub fn get_execution_segments_start(&self) -> (r: VirtualAddress)
        ensures
            r.0 == self.exec_start(),
    {
        if self.execution_segments.len() == 0 {
            return VirtualAddress::new(0);
        }
        let mut low = VirtualAddress::new(0xffffffff);
        let mut i: usize = 0;
        while i < self.execution_segments.len()
            invariant
                i <= self.execution_segments@.len(),
                self.execution_segments@.len() > 0,
                low.0 == segments_low(self.execution_segments@.subrange(0, i as int)),
            decreases self.execution_segments@.len() - i,
        {
            let start = self.execution_segments[i].get_starting_address();
            assert(self.execution_segments@.subrange(0, i + 1).drop_last() =~= self.execution_segments@.subrange(0, i as int));
            if start.0 < low.0 {
                low = start;
            }
            i += 1;
        }
        assert(self.execution_segments@.subrange(0, i as int) =~= self.execution_segments@);
        low
    }

    /// The highest end address of any execution segment (0 without segments).
    pub fn get_execution_segments_end(&self) -> (r: VirtualAddress)
        requires
            segments_fit(self.execution_segments@),
        ensures
            r.0 == segments_high(self.execution_segments@),
    {
        if self.execution_segments.len() == 0 {
            return VirtualAddress::new(0);
        }
        let mut high = VirtualAddress::new(0);
        let mut i: usize = 0;
        while i < self.execution_segments.len()
            invariant
                i <= self.execution_segments@.len(),
                segments_fit(self.execution_segments@),
                high.0 == segments_high(self.execution_segments@.subrange(0, i as int)),
            decreases self.execution_segments@.len() - i,
        {
            let segment = &self.execution_segments[i];
            assert(self.execution_segments@.subrange(0, i + 1).drop_last() =~= self.execution_segments@.subrange(0, i as int));
            assert(segment.address.0 + segment.size <= u32::MAX);
            let end = segment.get_starting_address().offset(segment.get_size());
            if end.0 > high.0 {
                high = end;
            }
            i += 1;
        }
        assert(self.execution_segments@.subrange(0, i as int) =~= self.execution_segments@);
        high
    }

    /// The first execution segment holding `addr`, used when handling a page
    /// fault.
    pub fn get_execution_segment_containing_address(&self, addr: &VirtualAddress) -> (r: Option<&ExecutionSegment>)
        requires
            forall|i: int| 0 <= i < self.execution_segments@.len() ==> (#[trigger] self.execution_segments@[i]).sections_fit(),
        ensures
            match r {
                Some(seg) => exists|i: int| 0 <= i < self.execution_segments@.len()
                    && *seg == self.execution_segments@[i]
                    && self.execution_segments@[i].holds(*addr)
                    && forall|j: int| 0 <= j < i ==> !(#[trigger] self.execution_segments@[j]).holds(*addr),
                None => forall|j: int| 0 <= j < self.execution_segments@.len() ==> !(#[trigger] self.execution_segments@[j]).holds(*addr),
            },
    {
        let mut i: usize = 0;
        while i < self.execution_segments.len()
            invariant
                i <= self.execution_segments@.len(),
                forall|i: int| 0 <= i < self.execution_segments@.len() ==> (#[trigger] self.execution_segments@[i]).sections_fit(),
                forall|j: int| 0 <= j < i ==> !(#[trigger] self.execution_segments@[j]).holds(*addr),
            decreases self.execution_segments@.len() - i,
        {
            let segment = &self.execution_segments[i];
            if segment.contains_address(addr) {
                return Some(segment);
            }
            i += 1;
        }
        None
    }

    /// Replace the execution segments with a new set, moving the heap to
    /// just after them and emptying it. The previous segments are returned so
    /// that they can be unmapped.
    pub fn reset_execution_segments(&mut self, segments: Vec<ExecutionSegment>) -> (r: Vec<ExecutionSegment>)
        requires
            segments_fit(segments@),
        ensures
            r@ == old(self).execution_segments@,
            final(self).execution_segments@ == segments@,
            final(self).heap_start.0 == segments_high(segments@),
            final(self).heap_size == 0,
            final(self).memory_top == old(self).memory_top,
            final(self).mmap_regions@ == old(self).mmap_regions@,
    {
        let mut old_segments = segments;
        core::mem::swap(&mut self.execution_segments, &mut old_segments);
        let heap_start = self.get_execution_segments_end();
        self.heap_start = heap_start;
        self.heap_size = 0;
        old_segments
    }

    pub fn get_heap_start(&self) -> (r: VirtualAddress)
        ensures
            r == self.heap_start,
    {
        self.heap_start
    }

    pub fn get_heap_size(&self) -> (r: usize)
        ensures
            r == self.heap_size,
    {
        self.heap_size
    }

    pub fn set_heap_size(&mut self, size: usize)
        ensures
            final(self).heap_size == size,
            final(self).heap_start == old(self).heap_start,
            final(self).memory_top == old(self).memory_top,
            final(self).execution_segments@ == old(self).execution_segments@,
            final(self).mmap_regions@ == old(self).mmap_regions@,
    {
        self.heap_size = size;
    }

    /// The addresses occupied by the heap.
    pub fn get_heap_address_range(&self) -> (r: Range<VirtualAddress>)
        requires
            self.heap_start.0 + self.heap_size <= u32::MAX,
        ensures
            r.start == self.heap_start,
            r.end.0 == self.heap_start.0 + self.heap_size,
    {
        let start = self.heap_start;
        let end = start.offset(self.heap_size);
        Range { start, end }
    }

    /// Like `get_heap_address_range`, with the end rounded up to the next page
    /// boundary.
    pub fn get_heap_page_range(&self) -> (r: Range<VirtualAddress>)
        requires
            self.heap_fits(),
        ensures
            r == self.heap_page_range(),
    {
        assert(self.heap_start.0 + self.heap_size <= page_ceil(self.heap_start.0 + self.heap_size));
        let start = self.heap_start;
        let mut end: u32 = start.offset(self.heap_size).as_u32();
        let ghost e = end;
        if end & 0xfff != 0 {
            assert(e & 0xfffu32 == e % 0x1000 && (e & 0xfffu32 != 0 ==> e < 0xfffff000u32 ==>
                (((e + 0x1000u32) as u32) & 0xfffff000u32) == e - e % 0x1000 + 0x1000)) by (bit_vector);
            assert(e < 0xfffff000u32);
            end = (end + 0x1000) & 0xfffff000;
        } else {
            assert(e & 0xfffu32 == e % 0x1000) by (bit_vector);
        }
        Range { start, end: VirtualAddress::new(end) }
    }

    /// Can `range` be mapped without touching the heap or another mmap?
    pub fn can_fit_range(&self, range: Range<VirtualAddress>) -> (r: bool)
        requires
            self.wf(),
            self.fits_range_defined(range),
        ensures
            r == self.fits_range(range),
    {
        if range.end.0 <= self.get_execution_segments_start().0 {
            return true;
        }
        let heap_range = self.get_heap_page_range();
        if ranges_overlap(&range, &heap_range) {
            return false;
        }
        let mut i: usize = 0;
        while i < self.mmap_regions.len()
            invariant
                self.wf(),
                self.fits_range_defined(range),
                range.end.0 > self.exec_start(),
                i <= self.mmap_regions@.len(),
                forall|j: int| 0 <= j < i ==> !ranges_intersect(#[trigger] region_range(self.mmap_regions@[j]), range),
            decreases self.mmap_regions@.len() - i,
        {
            let region = &self.mmap_regions[i];
            assert(region.end() <= u32::MAX);
            let r_range = region.get_address_range();
            assert(r_range == region_range(self.mmap_regions@[i as int]));
            if ranges_overlap(&r_range, &range) {
                return false;
            }
            i += 1;
        }
        true
    }

    /// Find an appropriately sized space for a mmap region of `size` bytes,
    /// walking down from the top of memory. The hint is not used.
    pub fn find_free_mmap_space(&self, _hint: Option<VirtualAddress>, size: usize) -> (r: Option<VirtualAddress>)
        requires
            self.wf(),
            self.free_space_defined(size as int),
        ensures
            match r {
                Some(a) => self.free_space(size as int) == Some(a.0 as int),
                None => self.free_space(size as int) is None,
            },
            r is None <==> self.memory_top - size < self.heap_page_end(),
            regions_disjoint(self.mmap_regions@) ==> (r matches Some(a) ==> {
                &&& a.0 % 0x1000 == 0
                &&& a.0 + size <= self.memory_top
                &&& forall|k: int| 0 <= k < self.mmap_regions@.len() ==> !ranges_intersect(
                    #[trigger] region_range(self.mmap_regions@[k]),
                    Range { start: a, end: VirtualAddress((a.0 + size) as u32) })
            }),
    {
        let heap_end = self.get_heap_page_range().end;
        if ((self.memory_top - size) as u32) < heap_end.0 {
            return None;
        }
        let ghost s = self.mmap_regions@;
        assert(heap_end.0 == self.heap_page_end());
        assert(self.memory_top - size >= self.heap_page_end());
        assert(self.free_space(size as int) == Some(search_free(s, s.len() as int, self.memory_top as int, size as int)));
        proof {
            if regions_disjoint(s) {
                lemma_free_space_is_free(*self, size as int);
            }
        }
        let mut prev_start = VirtualAddress::new(self.memory_top as u32);
        let mut n: usize = self.mmap_regions.len();
        while n > 0
            invariant
                self.wf(),
                s == self.mmap_regions@,
                n <= s.len(),
                search_free_defined(s, n as int, prev_start.0 as int, size as int),
                search_free(s, n as int, prev_start.0 as int, size as int)
                    == search_free(s, s.len() as int, self.memory_top as int, size as int),
                self.free_space(size as int) == Some(search_free(s, s.len() as int, self.memory_top as int, size as int)),
                regions_disjoint(s) ==> {
                    let a0 = search_free(s, s.len() as int, self.memory_top as int, size as int);
                    &&& a0 % 0x1000 == 0
                    &&& 0 <= a0
                    &&& a0 + size <= self.memory_top
                    &&& forall|k: int| 0 <= k < s.len() ==> !ranges_intersect(
                        #[trigger] region_range(s[k]),
                        Range { start: VirtualAddress(a0 as u32), end: VirtualAddress((a0 + size) as u32) })
                },
            decreases n,
        {
            let region = &self.mmap_regions[n - 1];
            assert(region.end() <= u32::MAX);
            let region_end = region.address.offset(region.size).next_page_barrier();
            let free_space = prev_start.distance_from(region_end);
            if free_space >= size {
                let found = prev_start.offset_back(size).prev_page_barrier();
                assert(search_free(s, n as int, prev_start.0 as int, size as int) == page_floor(prev_start.0 - size));
                return Some(found);
            }
            prev_start = region.address;
            n -= 1;
        }
        let below = ((prev_start.as_usize() - size) as u32) & 0xfffff000;
        proof {
            crate::memory::address::lemma_mask_is_page_floor((prev_start.0 - size) as u32);
        }
        Some(VirtualAddress::new(below))
    }
}


/// Where `mmap` places a region of `size` bytes: at the requested address if
/// it is page aligned and fits, otherwise in the space found by walking down
/// from the top of memory.
pub open spec fn mmap_location(m: MemoryRegions, addr: Option<VirtualAddress>, size: int) -> Result<int, ProcessMemoryError> {
    match addr {
        Some(req) => if req.0 % 0x1000 != 0 {
            Err(ProcessMemoryError::MMapWrongAlignment)
        } else if m.fits_range(Range { start: req, end: VirtualAddress((req.0 + size) as u32) }) {
            Ok(req.0 as int)
        } else {
            match m.free_space(size) {
                Some(a) => Ok(a),
                None => Err(ProcessMemoryError::NotEnoughMemory),
            }
        },
        None => match m.free_space(size) {
            Some(a) => Ok(a),
            None => Err(ProcessMemoryError::NotEnoughMemory),
        },
    }
}

/// `mmap` computes without overflow.
pub open spec fn mmap_defined(m: MemoryRegions, addr: Option<VirtualAddress>, size: int) -> bool {
    match addr {
        Some(req) => req.0 % 0x1000 == 0 ==> {
            let range = Range { start: req, end: VirtualAddress((req.0 + size) as u32) };
            &&& req.0 + size <= u32::MAX
            &&& m.fits_range_defined(range)
            &&& !m.fits_range(range) ==> m.free_space_defined(size)
        },
        None => m.free_space_defined(size),
    }
}

/// The changes `munmap` makes, found by walking the regions in order of
/// address from index `i` with `len` bytes left to unmap from `start`. Each
/// change names a region by its starting address and the byte range to cut
/// out of it, relative to its start.
pub open spec fn unmap_walk(s: Seq<MMapRegion>, i: int, start: int, len: int) -> Seq<(u32, int, int)>
    decreases s.len() - i,
{
    if i < 0 || i >= s.len() {
        Seq::empty()
    } else {
        let rs = s[i].address.0 as int;
        let re = s[i].end();
        let skip = start < rs && start + len > rs;
        let start2 = if skip { rs } else { start };
        let len2 = if skip { len - (rs - start) } else { len };
        if rs <= start2 && start2 < re {
            let can = re - start2;
            let to_remove = if can > len2 { len2 } else { can };
            let remaining = if can > len2 { 0 } else { len2 - can };
            let change = (s[i].address.0, start2 - rs, start2 - rs + to_remove);
            if remaining == 0 {
                seq![change]
            } else {
                seq![change] + unmap_walk(s, i + 1, start2 + to_remove, remaining)
            }
        } else {
            unmap_walk(s, i + 1, start2, len2)
        }
    }
}

/// Cut the byte range `[cut_start, cut_end)` out of the region starting at
/// `key`, keeping the parts before and after the cut.
pub open spec fn apply_cut(m: Map<u32, MMapRegion>, change: (u32, int, int)) -> Map<u32, MMapRegion> {
    let (key, cut_start, cut_end) = change;
    if !m.contains_key(key) {
        m
    } else {
        let region = m[key];
        let m0 = m.remove(key);
        let m1 = if cut_start > 0 {
            m0.insert(region.address.0, MMapRegion { address: region.address, size: cut_start as usize, backed_by: region.backed_by })
        } else {
            m0
        };
        if cut_end < region.size {
            let new_size = region.size - cut_end;
            let new_address = region.address.0 + (region.size - new_size);
            m1.insert(new_address as u32, MMapRegion {
                address: VirtualAddress(new_address as u32),
                size: new_size as usize,
                backed_by: region.backed_by,
            })
        } else {
            m1
        }
    }
}

/// Apply a series of cuts, in order.
pub open spec fn apply_cuts(m: Map<u32, MMapRegion>, changes: Seq<(u32, int, int)>) -> Map<u32, MMapRegion>
    decreases changes.len(),
{
    if changes.len() == 0 {
        m
    } else {
        apply_cut(apply_cuts(m, changes.drop_last()), changes.last())
    }
}

/// Each cut lies inside the address space and inside its region.
pub open spec fn cuts_ok(changes: Seq<(u32, int, int)>) -> bool {
    forall|i: int| 0 <= i < changes.len() ==> {
        let (key, a, b) = #[trigger] changes[i];
        0 <= a <= b && key + b <= u32::MAX
    }
}

pub proof fn lemma_unmap_walk_ok(s: Seq<MMapRegion>, i: int, start: int, len: int)
    requires
        regions_fit(s),
        len >= 0,
    ensures
        cuts_ok(unmap_walk(s, i, start, len)),
    decreases s.len() - i,
{
    if 0 <= i < s.len() {
        let rs = s[i].address.0 as int;
        let re = s[i].end();
        let skip = start < rs && start + len > rs;
        let start2 = if skip { rs } else { start };
        let len2 = if skip { len - (rs - start) } else { len };
        if rs <= start2 && start2 < re {
            let can = re - start2;
            let to_remove = if can > len2 { len2 } else { can };
            let remaining = if can > len2 { 0 } else { len2 - can };
            let change = (s[i].address.0, start2 - rs, start2 - rs + to_remove);
            let rest = unmap_walk(s, i + 1, start2 + to_remove, remaining);
            lemma_unmap_walk_ok(s, i + 1, start2 + to_remove, remaining);
            assert(s[i].end() <= u32::MAX);
            let w = unmap_walk(s, i, start, len);
            if remaining == 0 {
                assert(w == seq![change]);
            } else {
                assert(w == seq![change] + rest);
            }
            assert forall|k: int| 0 <= k < w.len() implies {
                let (key, a, b) = #[trigger] w[k];
                0 <= a <= b && key + b <= u32::MAX
            } by {
                if k > 0 {
                    assert(w[k] == rest[k - 1]);
                } else {
                    assert(w[k] == change);
                }
            }
        } else {
            lemma_unmap_walk_ok(s, i + 1, start2, len2);
        }
    }
}

/// The view of an exec list of cuts.
pub open spec fn cuts_view(v: Seq<(VirtualAddress, Range<usize>)>) -> Seq<(u32, int, int)> {
    v.map_values(|c: (VirtualAddress, Range<usize>)| (c.0.0, c.1.start as int, c.1.end as int))
}

impl MemoryRegions {
    /// Create a memory mapping of `size` bytes backed by `backing`. The page
    /// table is not modified: pages are filled when first accessed. On
    /// success, returns the address of the mapped block.
    pub fn mmap(&mut self, addr: Option<VirtualAddress>, size: usize, backing: MMapBacking) -> (r: Result<VirtualAddress, ProcessMemoryError>)
        requires
            old(self).wf(),
            mmap_defined(*old(self), addr, size as int),
        ensures
            final(self).wf(),
            final(self).execution_segments@ == old(self).execution_segments@,
            final(self).heap_start == old(self).heap_start,
            final(self).heap_size == old(self).heap_size,
            final(self).memory_top == old(self).memory_top,
            match r {
                Ok(a) => {
                    &&& mmap_location(*old(self), addr, size as int) == Ok::<int, ProcessMemoryError>(a.0 as int)
                    &&& final(self).regions() == old(self).regions().insert(a.0, MMapRegion { address: a, size, backed_by: backing })
                    &&& regions_disjoint(old(self).mmap_regions@) && low_request_clear(*old(self), addr, size as int) ==> {
                        &&& a.0 % 0x1000 == 0
                        &&& forall|k: u32| #[trigger] old(self).regions().contains_key(k) ==> !ranges_intersect(
                            region_range(old(self).regions()[k]), Range { start: a, end: VirtualAddress((a.0 + size) as u32) })
                        &&& map_disjoint(final(self).regions())
                    }
                    &&& request_honored(*old(self), addr, size as int, a.0 as int)
                },
                Err(e) => {
                    &&& mmap_location(*old(self), addr, size as int) == Err::<int, ProcessMemoryError>(e)
                    &&& final(self).mmap_regions@ == old(self).mmap_regions@
                },
            },
    {
        let ghost start_state = *self;
        let location: Option<VirtualAddress> = match addr {
            Some(request_start) => {
                if !request_start.is_page_aligned() {
                    return Err(ProcessMemoryError::MMapWrongAlignment);
                }
                let request_end = request_start.offset(size);
                if self.can_fit_range(Range { start: request_start, end: request_end }) {
                    Some(request_start)
                } else {
                    self.find_free_mmap_space(Some(request_start), size)
                }
            },
            None => self.find_free_mmap_space(None, size),
        };
        match location {
            Some(free_space) => {
                proof {
                    if self.free_space_defined(size as int) && self.memory_top - size >= self.heap_page_end() {
                        lemma_search_free_bounds(self.mmap_regions@, self.mmap_regions@.len() as int, self.memory_top as int, size as int);
                    }
                }
                let mapping = MMapRegion { address: free_space, size, backed_by: backing };
                assert(mapping.end() <= u32::MAX);
                let ghost before = self.mmap_regions@;
                insert_region(&mut self.mmap_regions, mapping);
                assert(regions_fit(self.mmap_regions@)) by {
                    assert forall|i: int| 0 <= i < self.mmap_regions@.len() implies #[trigger] self.mmap_regions@[i].end() <= u32::MAX by {
                        if self.mmap_regions@[i] != mapping {
                            let j = choose|j: int| 0 <= j < before.len() && before[j] == self.mmap_regions@[i];
                            assert(before[j].end() <= u32::MAX);
                        }
                    }
                }
                proof {
                    lemma_request_honored(start_state, addr, size, free_space.0 as int);
                    if regions_disjoint(start_state.mmap_regions@) && low_request_clear(start_state, addr, size as int) {
                        lemma_mmap_keeps_disjoint(start_state, addr, size, backing, free_space.0 as int);
                        assert(VirtualAddress(free_space.0 as u32) == free_space);
                    }
                }
                Ok(free_space)
            },
            None => Err(ProcessMemoryError::NotEnoughMemory),
        }
    }

    /// Remove `length` bytes of mappings starting at `addr`. Regions that are
    /// partly covered keep the parts outside the unmapped range. On success,
    /// returns the range of addresses that are now free, so that page table
    /// entries can be invalidated.
    pub fn munmap(&mut self, addr: VirtualAddress, length: usize) -> (r: Result<Range<VirtualAddress>, ProcessMemoryError>)
        requires
            old(self).wf(),
            addr.0 < USER_KERNEL_BARRIER ==> addr.0 + length <= usize::MAX,
        ensures
            final(self).wf(),
            final(self).execution_segments@ == old(self).execution_segments@,
            final(self).heap_start == old(self).heap_start,
            final(self).heap_size == old(self).heap_size,
            final(self).memory_top == old(self).memory_top,
            length % 0x1000 != 0 ==> r == Err::<Range<VirtualAddress>, ProcessMemoryError>(ProcessMemoryError::MUnmapNotPageMultiple),
            length % 0x1000 == 0 && (addr.0 >= USER_KERNEL_BARRIER || addr.0 + length > USER_KERNEL_BARRIER)
                ==> r == Err::<Range<VirtualAddress>, ProcessMemoryError>(ProcessMemoryError::MapOutOfBounds),
            r is Err ==> final(self).mmap_regions@ == old(self).mmap_regions@,
            length % 0x1000 == 0 && addr.0 < USER_KERNEL_BARRIER && addr.0 + length <= USER_KERNEL_BARRIER ==> {
                &&& r matches Ok(range) && range.start == addr && range.end.0 == addr.0 + length
                &&& final(self).regions() == apply_cuts(old(self).regions(), unmap_walk(old(self).mmap_regions@, 0, addr.0 as int, length as int))
                &&& regions_disjoint(old(self).mmap_regions@) ==> {
                    &&& forall|x: VirtualAddress| map_holds(final(self).regions(), x)
                        <==> (map_holds(old(self).regions(), x) && !(addr.0 <= x.0 < addr.0 + length))
                    &&& within(old(self).regions(), final(self).regions())
                    &&& map_disjoint(final(self).regions())
                }
            },
    {
        let ghost start_state = *self;
        assert(length & 0xfffusize == length % 0x1000) by (bit_vector);
        if length & 0xfff != 0 {
            return Err(ProcessMemoryError::MUnmapNotPageMultiple);
        }
        if addr.as_usize() >= USER_KERNEL_BARRIER || addr.as_usize() + length > USER_KERNEL_BARRIER {
            return Err(ProcessMemoryError::MapOutOfBounds);
        }
        let ghost s = self.mmap_regions@;
        let ghost full = unmap_walk(s, 0, addr.0 as int, length as int);
        proof {
            lemma_unmap_walk_ok(s, 0, addr.0 as int, length as int);
        }
        // Find the set of regions that are cut, and where each is cut
        let mut unmap_start = addr;
        let mut unmap_length = length;
        let mut modified_regions: Vec<(VirtualAddress, Range<usize>)> = Vec::new();
        let mut i: usize = 0;
        let mut done = false;
        while i < self.mmap_regions.len() && !done
            invariant
                self.wf(),
                s == self.mmap_regions@,
                self.execution_segments@ == old(self).execution_segments@,
                self.heap_start == old(self).heap_start,
                self.heap_size == old(self).heap_size,
                self.memory_top == old(self).memory_top,
                i <= s.len(),
                unmap_start.0 + unmap_length == addr.0 + length,
                addr.0 + length <= USER_KERNEL_BARRIER,
                done ==> cuts_view(modified_regions@) == full,
                !done ==> cuts_view(modified_regions@) + unmap_walk(s, i as int, unmap_start.0 as int, unmap_length as int) == full,
            decreases s.len() - i,
        {
            let region = &self.mmap_regions[i];
            assert(region.end() <= u32::MAX);
            let region_range = region.get_address_range();
            let ghost prev_mods = modified_regions@;
            let ghost st = unmap_start.0 as int;
            let ghost ln = unmap_length as int;
            if unmap_start.0 < region_range.start.0 && unmap_start.0 as usize + unmap_length > region_range.start.0 as usize {
                let delta = region_range.start.distance_from(unmap_start);
                unmap_length -= delta;
                unmap_start = unmap_start.offset(delta);
            }
            if region_range.start.0 <= unmap_start.0 && unmap_start.0 < region_range.end.0 {
                let can_unmap = region_range.end.distance_from(unmap_start);
                let (to_remove, remaining) = if can_unmap > unmap_length {
                    (unmap_length, 0)
                } else {
                    (can_unmap, unmap_length - can_unmap)
                };
                unmap_length = remaining;
                let remove_start = unmap_start.distance_from(region_range.start);
                let remove_end = remove_start + to_remove;
                modified_regions.push((region_range.start, Range { start: remove_start, end: remove_end }));
                unmap_start = unmap_start.offset(to_remove);
                proof {
                    let change = (s[i as int].address.0, remove_start as int, remove_end as int);
                    assert(cuts_view(modified_regions@) =~= cuts_view(prev_mods).push(change));
                    if remaining == 0 {
                        assert(unmap_walk(s, i as int, st, ln) == seq![change]);
                    } else {
                        assert(unmap_walk(s, i as int, st, ln) == seq![change] + unmap_walk(s, i + 1, unmap_start.0 as int, unmap_length as int));
                        assert(cuts_view(modified_regions@) + unmap_walk(s, i + 1, unmap_start.0 as int, unmap_length as int)
                            =~= cuts_view(prev_mods) + unmap_walk(s, i as int, st, ln));
                    }
                }
                if remaining == 0 {
                    done = true;
                }
            }
            i += 1;
        }
        proof {
            if !done {
                assert(cuts_view(modified_regions@) + unmap_walk(s, i as int, unmap_start.0 as int, unmap_length as int) =~= cuts_view(modified_regions@));
            }
        }
        // Remove every cut region, and put back the parts that remain
        let ghost m0 = region_map(s);
        let mut j: usize = 0;
        while j < modified_regions.len()
            invariant
                regions_sorted(self.mmap_regions@),
                regions_fit(self.mmap_regions@),
                self.execution_segments@ == old(self).execution_segments@,
                self.heap_start == old(self).heap_start,
                self.heap_size == old(self).heap_size,
                self.memory_top == old(self).memory_top,
                self.memory_top <= u32::MAX,
                j <= modified_regions@.len(),
                cuts_view(modified_regions@) == full,
                cuts_ok(full),
                region_map(self.mmap_regions@) == apply_cuts(m0, full.subrange(0, j as int)),
            decreases modified_regions@.len() - j,
        {
            let modification = &modified_regions[j];
            let key = modification.0.0;
            let cut_start = modification.1.start;
            let cut_end = modification.1.end;
            let ghost cur = region_map(self.mmap_regions@);
            let ghost change = full[j as int];
            assert(change == (key, cut_start as int, cut_end as int));
            assert(full.subrange(0, j + 1).drop_last() =~= full.subrange(0, j as int));
            assert(0 <= cut_start <= cut_end && key + cut_end <= u32::MAX) by {
                assert(cuts_ok(full));
                let (k2, a, b) = full[j as int];
            }
            let ghost before = self.mmap_regions@;
            match remove_region(&mut self.mmap_regions, key) {
                Some(region) => {
                    proof {
                        lemma_region_map_all(before);
                        let idx = choose|idx: int| 0 <= idx < before.len() && before[idx].address.0 == key;
                        assert(region == before[idx]);
                        assert(region.end() <= u32::MAX);
                    }
                    assert(region.address.0 == key) by {
                        lemma_region_map_all(before);
                        let idx = choose|idx: int| 0 <= idx < before.len() && before[idx].address.0 == key;
                    }
                    let ghost mid = self.mmap_regions@;
                    if cut_start > 0 {
                        let piece = MMapRegion { address: region.address, size: cut_start, backed_by: region.backed_by };
                        insert_region(&mut self.mmap_regions, piece);
                        proof { lemma_fit_after_insert(mid, self.mmap_regions@, piece); }
                    }
                    let ghost mid2 = self.mmap_regions@;
                    if cut_end < region.size {
                        let new_size = region.size - cut_end;
                        let new_address = region.address.offset(region.size - new_size);
                        let piece = MMapRegion { address: new_address, size: new_size, backed_by: region.backed_by };
                        insert_region(&mut self.mmap_regions, piece);
                        proof { lemma_fit_after_insert(mid2, self.mmap_regions@, piece); }
                    }
                    proof {
                        lemma_fit_after_remove(before, mid);
                    }
                },
                None => {},
            }
            assert(region_map(self.mmap_regions@) == apply_cut(cur, change));
            j += 1;
        }
        assert(full.subrange(0, j as int) =~= full);
        proof {
            if regions_disjoint(start_state.mmap_regions@) {
                lemma_munmap_frees_range(start_state, *self, addr, length);
            }
        }
        Ok(Range { start: addr, end: addr.offset(length) })
    }

    /// The first mmap region (in order of address) holding `addr`, used when
    /// handling a page fault.
    pub fn get_mapping_containing_address(&self, addr: &VirtualAddress) -> (r: Option<&MMapRegion>)
        requires
            self.wf(),
        ensures
            match r {
                Some(region) => exists|i: int| 0 <= i < self.mmap_regions@.len()
                    && *region == self.mmap_regions@[i]
                    && region.holds(*addr)
                    && forall|j: int| 0 <= j < i ==> !(#[trigger] self.mmap_regions@[j]).holds(*addr),
                None => forall|j: int| 0 <= j < self.mmap_regions@.len() ==> !(#[trigger] self.mmap_regions@[j]).holds(*addr),
            },
    {
        let mut i: usize = 0;
        while i < self.mmap_regions.len()
            invariant
                self.wf(),
                i <= self.mmap_regions@.len(),
                forall|j: int| 0 <= j < i ==> !(#[trigger] self.mmap_regions@[j]).holds(*addr),
            decreases self.mmap_regions@.len() - i,
        {
            let region = &self.mmap_regions[i];
            assert(region.end() <= u32::MAX);
            if region.contains_address(addr) {
                return Some(region);
            }
            i += 1;
        }
        None
    }

    /// The region starting at `addr`, if any.
    pub fn mmap_region_at(&self, addr: VirtualAddress) -> (r: Option<MMapRegion>)
        requires
            self.wf(),
        ensures
            match r {
                Some(region) => self.regions().contains_key(addr.0) && self.regions()[addr.0] == region,
                None => !self.regions().contains_key(addr.0),
            },
    {
        proof {
            lemma_region_map_all(self.mmap_regions@);
        }
        let (idx, found) = find_slot(&self.mmap_regions, addr.0);
        if found {
            Some(self.mmap_regions[idx])
        } else {
            proof {
                assert forall|i: int| 0 <= i < self.mmap_regions@.len() implies #[trigger] self.mmap_regions@[i].address.0 != addr.0 by {
                    if i >= idx {
                        assert(self.mmap_regions@[idx as int].address.0 <= self.mmap_regions@[i].address.0);
                    }
                }
            }
            None
        }
    }

    /// The number of mmap regions.
    pub fn mmap_region_count(&self) -> (r: usize)
        ensures
            r == self.mmap_regions@.len(),
    {
        self.mmap_regions.len()
    }
}

proof fn lemma_fit_after_insert(before: Seq<MMapRegion>, after: Seq<MMapRegion>, piece: MMapRegion)
    requires
        regions_fit(before),
        piece.end() <= u32::MAX,
        forall|i: int| 0 <= i < after.len() ==> #[trigger] after[i] == piece || before.contains(after[i]),
    ensures
        regions_fit(after),
{
    assert forall|i: int| 0 <= i < after.len() implies #[trigger] after[i].end() <= u32::MAX by {
        if after[i] != piece {
            let j = choose|j: int| 0 <= j < before.len() && before[j] == after[i];
            assert(before[j].end() <= u32::MAX);
        }
    }
}

proof fn lemma_fit_after_remove(before: Seq<MMapRegion>, after: Seq<MMapRegion>)
    requires
        regions_fit(before),
        forall|i: int| 0 <= i < after.len() ==> before.contains(#[trigger] after[i]),
    ensures
        regions_fit(after),
{
    assert forall|i: int| 0 <= i < after.len() implies #[trigger] after[i].end() <= u32::MAX by {
        let j = choose|j: int| 0 <= j < before.len() && before[j] == after[i];
        assert(before[j].end() <= u32::MAX);
    }
}

/// A relocation performed when executable memory is paged in from its file.
#[derive(Copy, Clone, Debug, PartialEq, Eq, Structural)]
pub enum Relocation {
    /// The only relocation of a DOS EXE: add a 16-bit offset to the word at an
    /// address
    DosExe(VirtualAddress, u16),
}

impl Relocation {
    pub fn get_address(&self) -> (r: VirtualAddress)
        ensures
            r == match *self {
                Relocation::DosExe(addr, _) => addr,
            },
    {
        match self {
            Relocation::DosExe(addr, _) => *addr,
        }
    }
}

/// Map memory in the kernel-space layout, which is shared between all
/// processes.
pub fn kernel_mmap(kernel_memory: &mut MemoryRegions, addr: Option<VirtualAddress>, size: usize, backing: MMapBacking) -> (r: Result<VirtualAddress, ProcessMemoryError>)
    requires
        old(kernel_memory).wf(),
        mmap_defined(*old(kernel_memory), addr, size as int),
    ensures
        final(kernel_memory).wf(),
        final(kernel_memory).execution_segments@ == old(kernel_memory).execution_segments@,
        final(kernel_memory).heap_start == old(kernel_memory).heap_start,
        final(kernel_memory).heap_size == old(kernel_memory).heap_size,
        final(kernel_memory).memory_top == old(kernel_memory).memory_top,
        match r {
            Ok(a) => {
                &&& mmap_location(*old(kernel_memory), addr, size as int) == Ok::<int, ProcessMemoryError>(a.0 as int)
                &&& final(kernel_memory).regions() == old(kernel_memory).regions().insert(a.0, MMapRegion { address: a, size, backed_by: backing })
            },
            Err(e) => {
                &&& mmap_location(*old(kernel_memory), addr, size as int) == Err::<int, ProcessMemoryError>(e)
                &&& final(kernel_memory).mmap_regions@ == old(kernel_memory).mmap_regions@
            },
        },
{
    let location = kernel_memory.mmap(addr, size, backing)?;
    Ok(location)
}

/// A copy of the kernel-space mmap region holding `addr`, if any.
pub fn get_kernel_mapping(kernel_memory: &MemoryRegions, addr: VirtualAddress) -> (r: Option<MMapRegion>)
    requires
        kernel_memory.wf(),
    ensures
        match r {
            Some(region) => exists|i: int| 0 <= i < kernel_memory.mmap_regions@.len()
                && region == kernel_memory.mmap_regions@[i]
                && region.holds(addr)
                && forall|j: int| 0 <= j < i ==> !(#[trigger] kernel_memory.mmap_regions@[j]).holds(addr),
            None => forall|j: int| 0 <= j < kernel_memory.mmap_regions@.len() ==> !(#[trigger] kernel_memory.mmap_regions@[j]).holds(addr),
        },
{
    match kernel_memory.get_mapping_containing_address(&addr) {
        Some(m) => Some(*m),
        None => None,
    }
}

/// Each region ends at or before the start of every region above it.
pub open spec fn regions_disjoint(s: Seq<MMapRegion>) -> bool {
    forall|i: int, j: int| 0 <= i < j < s.len() ==> #[trigger] s[i].end() <= #[trigger] s[j].address.0
}

proof fn lemma_page_bounds(x: int, y: int)
    requires
        0 <= y <= x,
        y % 0x1000 == 0,
    ensures
        page_floor(x) >= y,
        page_floor(x) % 0x1000 == 0,
        page_ceil(x) >= x,
        page_ceil(x) % 0x1000 == 0,
{
    assert(page_floor(x) >= y) by (nonlinear_arith)
        requires 0 <= y <= x, y % 0x1000 == 0, page_floor(x) == x - x % 0x1000;
    assert(page_floor(x) % 0x1000 == 0) by (nonlinear_arith)
        requires 0 <= x, page_floor(x) == x - x % 0x1000;
    assert(page_ceil(x) % 0x1000 == 0) by (nonlinear_arith)
        requires 0 <= x, page_ceil(x) == (if x % 0x1000 == 0 { x } else { x - x % 0x1000 + 0x1000 });
}

proof fn lemma_search_free_is_free(s: Seq<MMapRegion>, n: int, prev_start: int, size: int)
    requires
        regions_sorted(s),
        regions_disjoint(s),
        regions_fit(s),
        prev_start <= u32::MAX,
        search_free_defined(s, n, prev_start, size),
        0 <= n <= s.len(),
        size >= 0,
        forall|k: int| n <= k < s.len() ==> prev_start <= #[trigger] s[k].address.0,
    ensures
        ({
            let a = search_free(s, n, prev_start, size);
            forall|k: int| 0 <= k < s.len() ==> !ranges_intersect(
                #[trigger] region_range(s[k]),
                Range { start: VirtualAddress(a as u32), end: VirtualAddress((a + size) as u32) })
        }),
    decreases n,
{
    lemma_search_free_bounds(s, n, prev_start, size);
    let a = search_free(s, n, prev_start, size);
    if n > 0 {
        let r = s[n - 1];
        let region_end = page_ceil(r.end());
        if prev_start - region_end >= size {
            lemma_page_bounds(r.end(), 0);
            lemma_page_bounds(prev_start - size, region_end);
            assert forall|k: int| 0 <= k < s.len() implies !ranges_intersect(
                #[trigger] region_range(s[k]),
                Range { start: VirtualAddress(a as u32), end: VirtualAddress((a + size) as u32) }) by {
                assert(s[k].end() <= u32::MAX);
                if k < n - 1 {
                    assert(s[k].end() <= s[n - 1].address.0);
                }
            }
        } else {
            assert forall|k: int| n - 1 <= k < s.len() implies r.address.0 <= #[trigger] s[k].address.0 by {
                if k > n - 1 {
                    assert(s[n - 1].address.0 < s[k].address.0);
                }
            }
            lemma_search_free_is_free(s, n - 1, r.address.0 as int, size);
        }
    }
}

/// A region placed by walking down from the top of memory is page aligned,
/// ends at or below the top of memory, and shares no address with any
/// existing region, when the existing regions do not overlap one another.
pub proof fn lemma_free_space_is_free(m: MemoryRegions, size: int)
    requires
        m.wf(),
        regions_disjoint(m.mmap_regions@),
        0 <= size,
        m.free_space_defined(size),
        m.free_space(size) is Some,
    ensures
        ({
            let a = m.free_space(size).unwrap();
            &&& a % 0x1000 == 0
            &&& 0 <= a
            &&& a + size <= m.memory_top
            &&& forall|k: int| 0 <= k < m.mmap_regions@.len() ==> !ranges_intersect(
                #[trigger] region_range(m.mmap_regions@[k]),
                Range { start: VirtualAddress(a as u32), end: VirtualAddress((a + size) as u32) })
        }),
{
    let s = m.mmap_regions@;
    lemma_search_free_bounds(s, s.len() as int, m.memory_top as int, size);
    lemma_search_free_is_free(s, s.len() as int, m.memory_top as int, size);
}

/// What a segment holds, as plain values.
pub open spec fn segment_view(seg: ExecutionSegment) -> (VirtualAddress, usize, Seq<ExecutionSection>, bool) {
    (seg.address, seg.size, seg.sections@, seg.can_write)
}

/// The contents of each segment of a list.
pub open spec fn segment_views(segs: Seq<ExecutionSegment>) -> Seq<(VirtualAddress, usize, Seq<ExecutionSection>, bool)> {
    segs.map_values(|s: ExecutionSegment| segment_view(s))
}

impl Clone for MemoryRegions {
    /// A copy of the layout, used when forking a process.
    fn clone(&self) -> (r: Self)
        ensures
            segment_views(r.execution_segments@) == segment_views(self.execution_segments@),
            r.heap_start == self.heap_start,
            r.heap_size == self.heap_size,
            r.memory_top == self.memory_top,
            r.mmap_regions@ == self.mmap_regions@,
    {
        let mut segments: Vec<ExecutionSegment> = Vec::new();
        let mut i: usize = 0;
        while i < self.execution_segments.len()
            invariant
                i <= self.execution_segments@.len(),
                segments@.len() == i,
                forall|j: int| 0 <= j < i ==> segment_view(#[trigger] segments@[j]) == segment_view(self.execution_segments@[j]),
            decreases self.execution_segments@.len() - i,
        {
            segments.push(self.execution_segments[i].clone());
            i += 1;
        }
        assert(segments@.map_values(|s: ExecutionSegment| segment_view(s))
            =~= self.execution_segments@.map_values(|s: ExecutionSegment| segment_view(s)));
        let mut regions: Vec<MMapRegion> = Vec::new();
        let mut k: usize = 0;
        while k < self.mmap_regions.len()
            invariant
                k <= self.mmap_regions@.len(),
                regions@ == self.mmap_regions@.subrange(0, k as int),
            decreases self.mmap_regions@.len() - k,
        {
            regions.push(self.mmap_regions[k]);
            k += 1;
            assert(regions@ =~= self.mmap_regions@.subrange(0, k as int));
        }
        assert(self.mmap_regions@.subrange(0, k as int) =~= self.mmap_regions@);
        MemoryRegions {
            execution_segments: segments,
            heap_start: self.heap_start,
            heap_size: self.heap_size,
            memory_top: self.memory_top,
            mmap_regions: regions,
        }
    }
}

/// The address range of a region.
pub open spec fn region_range(r: MMapRegion) -> Range<VirtualAddress> {
    Range { start: r.address, end: VirtualAddress(r.end() as u32) }
}

} // verus!
