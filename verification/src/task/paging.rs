//! Bookkeeping for pages shared copy-on-write between forked processes.
//! Each shared frame has an entry counting the processes that map it; a
//! frame mapped by fewer than two processes is no longer shared and has no
//! entry.
use vstd::prelude::*;
use std::collections::BTreeMap;
use core::ops::Range;
use crate::files::handle::LocalHandle;
use crate::memory::address::{page_floor, PhysicalAddress, VirtualAddress};
use super::files::DriveID;
use super::memory::{clipped_section, ExecutionSection, ExecutionSegment, MMapBacking, MMapRegion, MemoryRegions, Relocation, USER_KERNEL_BARRIER};
use super::process::Process;

verus! {

broadcast use {vstd::std_specs::btree::group_btree_axioms, vstd::laws_cmp::group_laws_cmp};

/// Every frame in the table is shared by at least two processes.
pub open spec fn cow_counts_valid(m: Map<usize, usize>) -> bool {
    forall|k: usize| #[trigger] m.contains_key(k) ==> m[k] >= 2
}

/// Size of the user stack found just below the kernel barrier.
pub const STACK_SIZE: usize = 0x2000;

/// The parts of a segment's sections that fall in the page found
/// `page_offset` bytes into the segment, in section order and without empty
/// parts: each is its address (`base` is where the segment starts), its size,
/// and where its bytes are found in the executable (`None` for zeroes).
pub open spec fn page_sections(base: int, sections: Seq<ExecutionSection>, page_offset: int) -> Seq<(VirtualAddress, usize, Option<usize>)>
    decreases sections.len(),
{
    if sections.len() == 0 {
        seq![]
    } else {
        let rest = page_sections(base, sections.drop_last(), page_offset);
        let c = clipped_section(sections.last(), page_offset, page_offset + 0x1000);
        if c.size == 0 {
            rest
        } else {
            rest.push((VirtualAddress((base + c.segment_offset) as u32), c.size, c.executable_offset))
        }
    }
}

/// The relocations whose address lies in `[start, end)`, in order.
pub open spec fn relocations_between(rels: Seq<Relocation>, start: int, end: int) -> Seq<Relocation>
    decreases rels.len(),
{
    if rels.len() == 0 {
        seq![]
    } else {
        let rest = relocations_between(rels.drop_last(), start, end);
        let Relocation::DosExe(addr, _) = rels.last();
        if start <= addr.0 < end { rest.push(rels.last()) } else { rest }
    }
}

/// How a page fault in userspace is served.
pub enum DemandPage {
    /// A fresh writable page of zeroes: the fault hit the heap or the stack.
    Zeroed,
    /// A page of the executable: map it with the given write permission, fill
    /// each section from the file (or with zeroes), then apply the
    /// relocations.
    FromExecutable {
        drive: DriveID,
        handle: LocalHandle,
        writable: bool,
        sections: Vec<(VirtualAddress, usize, Option<usize>)>,
        relocations: Vec<Relocation>,
    },
    /// Nothing backs the address: the fault is an error.
    Unbacked,
}

/// The addresses of `page_on_demand` can be computed without overflow: the
/// heap fits the address space, the faulting page is not the last one, every
/// segment is page-aligned with representable sections, and file offsets
/// moved up to the page stay representable.
pub open spec fn demand_defined(process: Process, address: VirtualAddress) -> bool {
    let m = process.memory;
    &&& m.heap_start.0 + m.heap_size <= u32::MAX
    &&& page_floor(address.0 as int) + 0x1000 <= u32::MAX
    &&& forall|i: int| 0 <= i < m.execution_segments@.len() ==> {
        let seg = #[trigger] m.execution_segments@[i];
        &&& seg.sections_fit()
        &&& seg.address.0 % 0x1000 == 0
        &&& forall|k: int| 0 <= k < seg.sections@.len() ==> ((#[trigger] seg.sections@[k]).executable_offset matches Some(o)
            ==> o + (page_floor(address.0 as int) - seg.address.0) <= usize::MAX)
    }
}

/// Decide how to serve a page fault at `address` in `process`. Heap and
/// stack pages are filled with zeroes; a page of an execution segment holding
/// the address is filled from the executable file; anything else, or an
/// executable page of a process with no open executable, is unbacked.
pub fn page_on_demand(process: &Process, address: VirtualAddress) -> (r: DemandPage)
    requires
        demand_defined(*process, address),
    ensures
        ({
            let m = process.memory;
            let in_heap = m.heap_start.0 <= address.0 < m.heap_start.0 + m.heap_size;
            let in_stack = USER_KERNEL_BARRIER - STACK_SIZE <= address.0 < USER_KERNEL_BARRIER;
            let page = page_floor(address.0 as int);
            if in_heap || in_stack {
                r is Zeroed
            } else if process.exec_file is None || !(exists|i: int| 0 <= i < m.execution_segments@.len()
                && (#[trigger] m.execution_segments@[i]).holds(address)) {
                r is Unbacked
            } else {
                let i = choose|i: int| 0 <= i < m.execution_segments@.len()
                    && (#[trigger] m.execution_segments@[i]).holds(address)
                    && forall|j: int| 0 <= j < i ==> !(#[trigger] m.execution_segments@[j]).holds(address);
                let seg = m.execution_segments@[i];
                let parts = page_sections(seg.address.0 as int, seg.sections@, page - seg.address.0);
                if parts.len() == 0 {
                    r is Unbacked
                } else {
                    r matches DemandPage::FromExecutable { drive, handle, writable, sections, relocations }
                        && process.exec_file == Some((drive, handle))
                        && writable == seg.can_write
                        && sections@ == parts
                        && relocations@ == relocations_between(process.relocations@, page, page + 0x1000)
                }
            }
        }),
{
    let stack_range = Range { start: VirtualAddress::new(0xc0000000 - 0x2000), end: VirtualAddress::new(0xc0000000) };
    let heap_range = process.memory.get_heap_address_range();
    if (heap_range.start.0 <= address.0 && address.0 < heap_range.end.0)
        || (stack_range.start.0 <= address.0 && address.0 < stack_range.end.0) {
        return DemandPage::Zeroed;
    }
    let page_start = address.prev_page_barrier();
    let page_end = page_start.offset(0x1000);
    let mut relocations: Vec<Relocation> = Vec::new();
    let mut k: usize = 0;
    while k < process.relocations.len()
        invariant
            k <= process.relocations@.len(),
            relocations@ == relocations_between(process.relocations@.take(k as int), page_start.0 as int, page_end.0 as int),
        decreases process.relocations@.len() - k,
    {
        let rel = process.relocations[k];
        let addr = rel.get_address();
        proof {
            assert(process.relocations@.take(k + 1).drop_last() =~= process.relocations@.take(k as int));
        }
        if addr.0 >= page_start.0 && addr.0 < page_end.0 {
            relocations.push(rel);
        }
        k += 1;
    }
    assert(process.relocations@.take(k as int) =~= process.relocations@);
    let (drive, handle) = match process.get_exec_file() {
        Some(pair) => pair,
        None => return DemandPage::Unbacked,
    };
    let segment = match process.memory.get_execution_segment_containing_address(&address) {
        Some(segment) => segment,
        None => return DemandPage::Unbacked,
    };
    proof {
        let m = process.memory;
        let i = choose|i: int| 0 <= i < m.execution_segments@.len()
            && *segment == m.execution_segments@[i]
            && m.execution_segments@[i].holds(address)
            && forall|j: int| 0 <= j < i ==> !(#[trigger] m.execution_segments@[j]).holds(address);
        let i2 = choose|i: int| 0 <= i < m.execution_segments@.len()
            && (#[trigger] m.execution_segments@[i]).holds(address)
            && forall|j: int| 0 <= j < i ==> !(#[trigger] m.execution_segments@[j]).holds(address);
        if i < i2 {
            assert(!m.execution_segments@[i].holds(address));
        } else if i2 < i {
            assert(!m.execution_segments@[i2].holds(address));
        }
        let k = choose|k: int| 0 <= k < segment.sections@.len() && section_in(segment.address, #[trigger] segment.sections@[k], address);
        assert(segment.address.0 <= address.0);
        assert(segment.address.0 % 0x1000 == 0);
    }
    let base = segment.get_starting_address();
    let start_offset = page_start.distance_from(base);
    let end_offset = start_offset + 0x1000;
    let mut sections: Vec<(VirtualAddress, usize, Option<usize>)> = Vec::new();
    let list = segment.sections_iter();
    let mut j: usize = 0;
    while j < list.len()
        invariant
            j <= list@.len(),
            list@ == segment.sections@,
            segment.sections_fit(),
            end_offset == start_offset + 0x1000,
            start_offset == page_start.0 - base.0,
            base == segment.address,
            page_start.0 + 0x1000 <= u32::MAX,
            forall|k: int| 0 <= k < segment.sections@.len() ==> ((#[trigger] segment.sections@[k]).executable_offset matches Some(o)
                ==> o + start_offset <= usize::MAX),
            sections@ == page_sections(base.0 as int, list@.take(j as int), start_offset as int),
        decreases list@.len() - j,
    {
        let section = list[j];
        assert(base.0 + section.segment_offset + section.size <= u32::MAX);
        let clipped = section.clip_to(Range { start: start_offset, end: end_offset });
        proof {
            assert(list@.take(j + 1).drop_last() =~= list@.take(j as int));
            assert(clipped.size > 0 ==> clipped.segment_offset + clipped.size <= end_offset);
        }
        if !clipped.is_empty() {
            let at = base.offset(clipped.segment_offset);
            sections.push((at, clipped.size, clipped.executable_offset));
        }
        j += 1;
    }
    assert(list@.take(j as int) =~= list@);
    if sections.len() == 0 {
        return DemandPage::Unbacked;
    }
    DemandPage::FromExecutable { drive, handle, writable: segment.user_can_write(), sections, relocations }
}

/// Does the section, placed in a segment starting at `start`, hold `addr`?
spec fn section_in(start: VirtualAddress, s: ExecutionSection, addr: VirtualAddress) -> bool {
    super::memory::section_holds(start, s, addr)
}

/// How many pages a walk from `start` in page steps takes to reach `end`.
pub open spec fn page_count(start: int, end: int) -> int {
    if end > start { (end - start + 0xfff) / 0x1000 } else { 0 }
}

/// The addresses a walk from `start` to `end` in page steps visits.
pub open spec fn pages_between(start: int, end: int) -> Seq<int> {
    Seq::new(page_count(start, end) as nat, |k: int| start + 0x1000 * k)
}

/// The pages of each segment in turn.
pub open spec fn segment_pages(segs: Seq<ExecutionSegment>) -> Seq<int>
    decreases segs.len(),
{
    if segs.len() == 0 {
        seq![]
    } else {
        segment_pages(segs.drop_last()) + pages_between(segs.last().address.0 as int,
            segs.last().address.0 + segs.last().size)
    }
}

/// The numeric addresses of a list of addresses.
pub open spec fn addresses(v: Seq<VirtualAddress>) -> Seq<int> {
    v.map_values(|a: VirtualAddress| a.0 as int)
}

proof fn lemma_page_count(start: int, end: int, k: int)
    requires
        k >= 1,
        start + 0x1000 * (k - 1) < end <= start + 0x1000 * k,
    ensures
        page_count(start, end) == k,
{
    let d = end - start;
    assert((d + 0xfff) / 0x1000 == k) by (nonlinear_arith)
        requires
            0x1000 * (k - 1) < d <= 0x1000 * k,
    {
        assert(0x1000 * k <= d + 0xfff < 0x1000 * k + 0x1000);
    }
}

/// Append the pages of `[start, end)` to `out`.
fn push_pages(out: &mut Vec<VirtualAddress>, start: VirtualAddress, end: VirtualAddress)
    requires
        end.0 + 0x1000 <= u32::MAX,
    ensures
        addresses(final(out)@) == addresses(old(out)@) + pages_between(start.0 as int, end.0 as int),
{
    let ghost prefix = addresses(out@);
    let mut cur = start;
    let ghost mut k: int = 0;
    while cur.0 < end.0
        invariant
            end.0 + 0x1000 <= u32::MAX,
            k >= 0,
            cur.0 == start.0 + 0x1000 * k,
            k >= 1 ==> start.0 + 0x1000 * (k - 1) < end.0,
            addresses(out@) == prefix + Seq::new(k as nat, |j: int| start.0 + 0x1000 * j),
        decreases end.0 + 0x1000 - cur.0,
    {
        let ghost before = out@;
        out.push(cur);
        proof {
            assert(addresses(out@) =~= addresses(before).push(cur.0 as int));
            assert(prefix + Seq::new(k as nat, |j: int| start.0 + 0x1000 * j) + seq![cur.0 as int]
                =~= prefix + Seq::new((k + 1) as nat, |j: int| start.0 + 0x1000 * j));
            k = k + 1;
        }
        cur = cur.offset(0x1000);
    }
    proof {
        if k >= 1 {
            lemma_page_count(start.0 as int, end.0 as int, k);
        }
        assert(Seq::new(k as nat, |j: int| start.0 + 0x1000 * j) =~= pages_between(start.0 as int, end.0 as int));
    }
}

/// The pages to unmap when a task's program is replaced: every page of its
/// old execution segments, then its user stack, then its heap pages, in
/// that order. The caller unmaps each from the current page directory and
/// hands what was mapped there to `unmap_page`.
pub fn unmap_task(exec_segments: &Vec<ExecutionSegment>, heap_pages: Range<VirtualAddress>) -> (r: Vec<VirtualAddress>)
    requires
        forall|i: int| 0 <= i < exec_segments@.len() ==>
            (#[trigger] exec_segments@[i]).address.0 + exec_segments@[i].size + 0x1000 <= u32::MAX,
        heap_pages.end.0 + 0x1000 <= u32::MAX,
    ensures
        addresses(r@) == segment_pages(exec_segments@)
            + pages_between(USER_KERNEL_BARRIER - STACK_SIZE, USER_KERNEL_BARRIER as int)
            + pages_between(heap_pages.start.0 as int, heap_pages.end.0 as int),
{
    let mut pages: Vec<VirtualAddress> = Vec::new();
    let mut i: usize = 0;
    while i < exec_segments.len()
        invariant
            i <= exec_segments@.len(),
            forall|i: int| 0 <= i < exec_segments@.len() ==>
                (#[trigger] exec_segments@[i]).address.0 + exec_segments@[i].size + 0x1000 <= u32::MAX,
            addresses(pages@) == segment_pages(exec_segments@.take(i as int)),
        decreases exec_segments@.len() - i,
    {
        let segment = &exec_segments[i];
        let end = segment.address.offset(segment.size);
        push_pages(&mut pages, segment.address, end);
        proof {
            assert(exec_segments@.take(i + 1).drop_last() =~= exec_segments@.take(i as int));
        }
        i += 1;
    }
    assert(exec_segments@.take(i as int) =~= exec_segments@);
    push_pages(&mut pages, VirtualAddress::new(0xc0000000 - 0x2000), VirtualAddress::new(0xc0000000));
    push_pages(&mut pages, heap_pages.start, heap_pages.end);
    pages
}

/// Where the physical memory behind a kernel page comes from.
#[derive(Copy, Clone, Debug, PartialEq, Eq, Structural)]
pub enum PhysicalPage {
    /// The page is mapped already, to this frame
    Mapped(PhysicalAddress),
    /// The page belongs to this kernel mapping, which backs it with a freshly
    /// allocated frame; the caller allocates it and maps the page
    Allocate(MMapRegion),
}

/// Find the physical memory behind a page of kernel space, given what the
/// current page directory maps the page to. Only page-aligned kernel
/// addresses are supported; a page that is not mapped yet is backed by the
/// first kernel mapping holding it, which must be anonymous or DMA memory.
pub fn get_or_allocate_physical_address(kernel_memory: &MemoryRegions, addr: VirtualAddress, mapped_to: Option<PhysicalAddress>) -> (r: Result<PhysicalPage, ()>)
    requires
        kernel_memory.wf(),
        addr.0 % 0x1000 == 0 && addr.0 >= 0xc0000000 && mapped_to is None ==> forall|i: int|
            0 <= i < kernel_memory.mmap_regions@.len() && (#[trigger] kernel_memory.mmap_regions@[i]).holds(addr)
            && (forall|j: int| 0 <= j < i ==> !(#[trigger] kernel_memory.mmap_regions@[j]).holds(addr))
            ==> (kernel_memory.mmap_regions@[i].backed_by == MMapBacking::Anonymous
                || kernel_memory.mmap_regions@[i].backed_by == MMapBacking::DMA),
    ensures
        addr.0 % 0x1000 != 0 || addr.0 < 0xc0000000 ==> r is Err,
        addr.0 % 0x1000 == 0 && addr.0 >= 0xc0000000 ==> match mapped_to {
            Some(phys) => r == Ok::<PhysicalPage, ()>(PhysicalPage::Mapped(phys)),
            None => {
                let regions = kernel_memory.mmap_regions@;
                if exists|i: int| 0 <= i < regions.len() && (#[trigger] regions[i]).holds(addr) {
                    r matches Ok(PhysicalPage::Allocate(region)) && exists|i: int| 0 <= i < regions.len()
                        && region == regions[i] && region.holds(addr)
                        && forall|j: int| 0 <= j < i ==> !(#[trigger] regions[j]).holds(addr)
                } else {
                    r is Err
                }
            },
        },
{
    if !addr.is_page_aligned() {
        return Err(());
    }
    if addr.0 < 0xc0000000 {
        // not supporting user space yet
        return Err(());
    }
    match mapped_to {
        Some(phys) => return Ok(PhysicalPage::Mapped(phys)),
        None => {},
    }
    // Not currently mapped
    match kernel_memory.get_mapping_containing_address(&addr) {
        Some(region) => Ok(PhysicalPage::Allocate(*region)),
        None => Err(()),
    }
}

/// The table and the count returned after one more process maps frame `key`.
/// A frame that was not shared yet becomes shared by two processes.
pub open spec fn cow_increment(m: Map<usize, usize>, key: usize) -> (Map<usize, usize>, usize) {
    if m.contains_key(key) && m[key] != 0 {
        (m.insert(key, (m[key] + 1) as usize), m[key])
    } else {
        (m.insert(key, 2), 2)
    }
}

/// The table and the remaining count after one process stops mapping frame
/// `key`. A frame left with fewer than two users leaves the table.
pub open spec fn cow_decrement(m: Map<usize, usize>, key: usize) -> (Map<usize, usize>, usize) {
    let remainder: usize = if m.contains_key(key) && m[key] != 0 { (m[key] - 1) as usize } else { 0 };
    if remainder < 2 {
        (m.remove(key), remainder)
    } else {
        (m.insert(key, remainder), remainder)
    }
}

/// Record that one more process maps the frame at `frame_start`. Returns 2
/// for a frame that was not shared yet, and the count before this call for
/// one that was.
pub fn increment_cow(counts: &mut BTreeMap<usize, usize>, frame_start: PhysicalAddress) -> (r: usize)
    requires
        old(counts)@.contains_key(frame_start.0 as usize) ==> old(counts)@[frame_start.0 as usize] < usize::MAX,
    ensures
        (final(counts)@, r) == cow_increment(old(counts)@, frame_start.0 as usize),
        cow_counts_valid(old(counts)@) ==> cow_counts_valid(final(counts)@),
{
    let key = frame_start.as_usize();
    let prev: usize = match counts.get(&key) {
        Some(entry) => *entry,
        None => 0,
    };
    if prev == 0 {
        // A copy-on-write increment only happens when a page is forked, so
        // the smallest count is 2
        counts.insert(key, 2);
        2
    } else {
        counts.insert(key, prev + 1);
        prev
    }
}

/// Record that one process no longer maps the frame at `frame_start`, and
/// return how many still do. A frame left with fewer than two users is no
/// longer copy-on-write.
pub fn decrement_cow(counts: &mut BTreeMap<usize, usize>, frame_start: PhysicalAddress) -> (r: usize)
    ensures
        (final(counts)@, r) == cow_decrement(old(counts)@, frame_start.0 as usize),
        cow_counts_valid(old(counts)@) ==> cow_counts_valid(final(counts)@),
{
    let key = frame_start.as_usize();
    let remainder: usize = match counts.get(&key) {
        Some(entry) => {
            if *entry == 0 {
                0
            } else {
                *entry - 1
            }
        },
        None => 0,
    };
    if remainder < 2 {
        counts.remove(&key);
    } else {
        counts.insert(key, remainder);
    }
    remainder
}

/// A page was unmapped from the current page directory; `unmapped` is the
/// frame it mapped, with whether the mapping was copy-on-write. Releasing a
/// copy-on-write frame lowers its share count.
pub fn unmap_page(counts: &mut BTreeMap<usize, usize>, unmapped: Option<(PhysicalAddress, bool)>)
    ensures
        match unmapped {
            Some((frame, true)) => final(counts)@ == cow_decrement(old(counts)@, frame.0 as usize).0,
            _ => final(counts)@ == old(counts)@,
        },
{
    match unmapped {
        Some((frame, is_cow)) => {
            if is_cow {
                decrement_cow(counts, frame);
            }
        },
        None => {},
    }
}

/// Sharing a frame with one more process and then releasing it leaves the
/// copy-on-write table as it was.
pub proof fn lemma_share_then_release(m: Map<usize, usize>, key: usize)
    requires
        cow_counts_valid(m),
        m.contains_key(key) ==> m[key] < usize::MAX,
    ensures
        cow_decrement(cow_increment(m, key).0, key).0 == m,
{
    let up = cow_increment(m, key).0;
    if m.contains_key(key) {
        assert(m[key] >= 2);
        assert(up.insert(key, m[key]) =~= m);
    } else {
        assert(up.remove(key) =~= m);
    }
}

} // verus!
