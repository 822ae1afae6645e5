use kernel::memory::address::VirtualAddress;
use kernel::task::memory::{ExecutionSection, ExecutionSegment, MMapBacking, MemoryRegions, ProcessMemoryError};

#[test]
fn unaligned_segment_is_refused() {
    assert_eq!(ExecutionSegment::at_address(VirtualAddress::new(0x1010), 1).err(), Some(ProcessMemoryError::SegmentWrongAlignment));
}

#[test]
fn section_beyond_its_segment_is_refused() {
    let mut segment = ExecutionSegment::at_address(VirtualAddress::new(0x1000), 1).unwrap();
    assert_eq!(
        segment.add_section(ExecutionSection { segment_offset: 0xf00, executable_offset: None, size: 0x200 }),
        Err(ProcessMemoryError::SectionOutOfBounds),
    );
    assert_eq!(segment.sections_iter().len(), 0);
}

#[test]
fn mmap_errors() {
    let mut regions = MemoryRegions::new();
    assert_eq!(regions.mmap(Some(VirtualAddress::new(0x4010)), 0x1000, MMapBacking::Anonymous), Err(ProcessMemoryError::MMapWrongAlignment));
    // the heap reaches up close to the top of userspace
    regions.set_heap_size(0xbfff0000);
    assert_eq!(regions.mmap(None, 0x20000, MMapBacking::Anonymous), Err(ProcessMemoryError::NotEnoughMemory));
}

#[test]
fn munmap_errors() {
    let mut regions = MemoryRegions::new();
    assert_eq!(regions.munmap(VirtualAddress::new(0x1000), 0x800), Err(ProcessMemoryError::MUnmapNotPageMultiple));
    // the top user page is inside process memory
    assert_eq!(regions.munmap(VirtualAddress::new(0xbffff000), 0x1000).map(|r| (r.start.0, r.end.0)), Ok((0xbffff000, 0xc0000000)));
    assert_eq!(regions.munmap(VirtualAddress::new(0xbffff000), 0x2000), Err(ProcessMemoryError::MapOutOfBounds));
    assert_eq!(regions.munmap(VirtualAddress::new(0xc0000000), 0x1000), Err(ProcessMemoryError::MapOutOfBounds));
}
